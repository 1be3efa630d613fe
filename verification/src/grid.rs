//! Staggered-grid storage.
//!
//! One `Field` is a dense three-dimensional array of fixed-point scalars,
//! stored row-major.  The pressure field covers the full `n0 x n1 x n2` cell
//! domain; a `VelocityGrid` for axis `a` has one extra sample along `a`
//! (faces instead of centres) and one ghost layer on each side of the two
//! cross axes, so that every interior stencil stays inside the allocation.

use vstd::prelude::*;

use crate::fixed::in_range;

verus! {

/// Upper bound on the configured cell count per axis.
pub const MAX_N: usize = 1000;

/// Upper bound on any allocated extent (cells plus ghost layers).
pub const MAX_DIM: usize = 1002;

/// Row-major flat index of `(i, j, k)` in an `ny`-by-`nz` cross-section.
pub open spec fn flat3(i: int, j: int, k: int, ny: int, nz: int) -> int {
    i * (ny * nz) + j * nz + k
}

/// The grid whose value at `(i, j, k)` is `g(i, j, k)`, stored row-major.
pub open spec fn grid_new(nx: int, ny: int, nz: int, g: spec_fn(int, int, int) -> i64) -> Seq<
    i64,
> {
    Seq::new((nx * (ny * nz)) as nat, |t: int| g(t / (ny * nz), (t / nz) % ny, t % nz))
}

/// A flat index decodes back to the coordinates it was built from.
pub proof fn lemma_flat3(i: int, j: int, k: int, nx: int, ny: int, nz: int)
    requires
        0 <= i < nx,
        0 <= j < ny,
        0 <= k < nz,
    ensures
        0 <= flat3(i, j, k, ny, nz) < nx * (ny * nz),
        flat3(i, j, k, ny, nz) / (ny * nz) == i,
        (flat3(i, j, k, ny, nz) / nz) % ny == j,
        flat3(i, j, k, ny, nz) % nz == k,
{
    let a = ny * nz;
    let r = j * nz + k;
    let f = flat3(i, j, k, ny, nz);
    assert(0 <= r < a) by (nonlinear_arith)
        requires
            0 <= j < ny,
            0 <= k < nz,
            r == j * nz + k,
            a == ny * nz,
    ;
    assert(f == i * a + r);
    assert(0 <= f < nx * a) by (nonlinear_arith)
        requires
            f == i * a + r,
            0 <= i < nx,
            0 <= r < a,
    ;
    vstd::arithmetic::div_mod::lemma_fundamental_div_mod_converse(f, a, i, r);
    assert(f == (i * ny + j) * nz + k) by (nonlinear_arith)
        requires
            f == i * (ny * nz) + j * nz + k,
    ;
    vstd::arithmetic::div_mod::lemma_fundamental_div_mod_converse(f, nz, i * ny + j, k);
    vstd::arithmetic::div_mod::lemma_fundamental_div_mod_converse(i * ny + j, ny, i, j);
}

/// Every flat index below the grid size decodes to in-range coordinates
/// that encode back to it.
pub proof fn lemma_flat3_surjective(t: int, nx: int, ny: int, nz: int)
    requires
        1 <= nx,
        1 <= ny,
        1 <= nz,
        0 <= t < nx * (ny * nz),
    ensures
        0 <= t / (ny * nz) < nx,
        0 <= (t / nz) % ny < ny,
        0 <= t % nz < nz,
        flat3(t / (ny * nz), (t / nz) % ny, t % nz, ny, nz) == t,
{
    let a = ny * nz;
    assert(a >= 1) by (nonlinear_arith)
        requires
            a == ny * nz,
            1 <= ny,
            1 <= nz,
    ;
    vstd::arithmetic::div_mod::lemma_fundamental_div_mod(t, a);
    let q = t / a;
    let r = t % a;
    vstd::arithmetic::div_mod::lemma_mod_bound(t, a);
    assert(0 <= q < nx) by (nonlinear_arith)
        requires
            t == a * q + r,
            0 <= r < a,
            0 <= t < nx * a,
            a >= 1,
    ;
    vstd::arithmetic::div_mod::lemma_fundamental_div_mod(r, nz);
    let j = r / nz;
    let k = r % nz;
    vstd::arithmetic::div_mod::lemma_mod_bound(r, nz);
    assert(0 <= j < ny) by (nonlinear_arith)
        requires
            r == nz * j + k,
            0 <= k < nz,
            0 <= r < ny * nz,
            nz >= 1,
    ;
    lemma_flat3(q, j, k, nx, ny, nz);
    assert(flat3(q, j, k, ny, nz) == t) by (nonlinear_arith)
        requires
            flat3(q, j, k, ny, nz) == q * (ny * nz) + j * nz + k,
            t == (ny * nz) * q + r,
            r == nz * j + k,
    ;
}

/// The size of a grid with positive extents, read back as an integer.
pub proof fn lemma_len_nonneg(nx: int, ny: int, nz: int)
    requires
        1 <= nx,
        1 <= ny,
        1 <= nz,
    ensures
        ((nx * (ny * nz)) as nat) as int == nx * (ny * nz),
        nx * (ny * nz) >= 1,
{
    assert(nx * (ny * nz) >= 1) by (nonlinear_arith)
        requires
            1 <= nx,
            1 <= ny,
            1 <= nz,
    ;
}

/// Two grids of the same shape that agree at every coordinate are equal.
pub proof fn lemma_seq_pointwise(a: Seq<i64>, b: Seq<i64>, nx: int, ny: int, nz: int)
    requires
        1 <= nx,
        1 <= ny,
        1 <= nz,
        a.len() == nx * (ny * nz),
        b.len() == nx * (ny * nz),
        forall|i: int, j: int, k: int|
            0 <= i < nx && 0 <= j < ny && 0 <= k < nz ==> #[trigger] a[flat3(i, j, k, ny, nz)]
                == b[flat3(i, j, k, ny, nz)],
    ensures
        a == b,
{
    assert forall|t: int| 0 <= t < a.len() implies a[t] == b[t] by {
        lemma_flat3_surjective(t, nx, ny, nz);
        assert(a[flat3(t / (ny * nz), (t / nz) % ny, t % nz, ny, nz)] == b[flat3(
            t / (ny * nz),
            (t / nz) % ny,
            t % nz,
            ny,
            nz,
        )]);
    }
    assert(a =~= b);
}

/// A dense 3-dimensional array of fixed-point scalars.
pub struct Field {
    pub data: Vec<i64>,
    pub nx: usize,
    pub ny: usize,
    pub nz: usize,
}

impl Field {
    pub open spec fn wf(self) -> bool {
        &&& 1 <= self.nx <= MAX_DIM
        &&& 1 <= self.ny <= MAX_DIM
        &&& 1 <= self.nz <= MAX_DIM
        &&& self.data.len() == self.nx * ((self.ny * self.nz) as int)
        &&& forall|t: int| 0 <= t < self.data.len() ==> in_range(#[trigger] self.data[t] as int)
    }

    /// The scalar stored at `(i, j, k)`.
    pub open spec fn at(self, i: int, j: int, k: int) -> int {
        self.data[flat3(i, j, k, self.ny as int, self.nz as int)] as int
    }

    pub open spec fn same_dims(self, other: Field) -> bool {
        self.nx == other.nx && self.ny == other.ny && self.nz == other.nz
    }

    fn index_of(&self, i: usize, j: usize, k: usize) -> (t: usize)
        requires
            self.wf(),
            i < self.nx,
            j < self.ny,
            k < self.nz,
        ensures
            t == flat3(i as int, j as int, k as int, self.ny as int, self.nz as int),
            t < self.data.len(),
    {
        proof {
            lemma_flat3(i as int, j as int, k as int, self.nx as int, self.ny as int,
                self.nz as int);
            assert(0 <= (i as int) * ((self.ny * self.nz) as int)) by (nonlinear_arith)
                requires
                    0 <= i as int,
                    0 <= (self.ny * self.nz) as int,
            ;
            assert(0 <= (j as int) * (self.nz as int)) by (nonlinear_arith)
                requires
                    0 <= j as int,
                    0 <= self.nz as int,
            ;
            assert((self.ny as int) * (self.nz as int) <= (MAX_DIM as int) * (
            MAX_DIM as int)) by (nonlinear_arith)
                requires
                    0 <= self.ny as int <= MAX_DIM as int,
                    0 <= self.nz as int <= MAX_DIM as int,
            ;
        }
        i * (self.ny * self.nz) + j * self.nz + k
    }

    pub fn get(&self, i: usize, j: usize, k: usize) -> (v: i64)
        requires
            self.wf(),
            i < self.nx,
            j < self.ny,
            k < self.nz,
        ensures
            v as int == self.at(i as int, j as int, k as int),
            in_range(v as int),
    {
        let t = self.index_of(i, j, k);
        self.data[t]
    }

    pub fn set(&mut self, i: usize, j: usize, k: usize, v: i64)
        requires
            old(self).wf(),
            i < old(self).nx,
            j < old(self).ny,
            k < old(self).nz,
            in_range(v as int),
        ensures
            final(self).wf(),
            final(self).same_dims(*old(self)),
            final(self).data@ == old(self).data@.update(
                flat3(i as int, j as int, k as int, old(self).ny as int, old(self).nz as int),
                v,
            ),
            final(self).at(i as int, j as int, k as int) == v as int,
            forall|i2: int, j2: int, k2: int|
                0 <= i2 < old(self).nx && 0 <= j2 < old(self).ny && 0 <= k2 < old(self).nz
                    && !(i2 == i as int && j2 == j as int && k2 == k as int)
                    ==> #[trigger] final(self).at(i2, j2, k2) == old(self).at(i2, j2, k2),
    {
        let t = self.index_of(i, j, k);
        self.data[t] = v;
        proof {
            let ny = self.ny as int;
            let nz = self.nz as int;
            assert forall|i2: int, j2: int, k2: int|
                0 <= i2 < self.nx && 0 <= j2 < self.ny && 0 <= k2 < self.nz && !(i2 == i as int
                    && j2 == j as int && k2 == k as int) implies #[trigger] self.at(i2, j2, k2)
                == old(self).at(i2, j2, k2) by {
                lemma_flat3(i as int, j as int, k as int, self.nx as int, ny, nz);
                lemma_flat3(i2, j2, k2, self.nx as int, ny, nz);
            }
        }
    }

    /// Allocate an `nx`-by-`ny`-by-`nz` field holding `v` everywhere.
    pub fn new_filled(nx: usize, ny: usize, nz: usize, v: i64) -> (f: Field)
        requires
            1 <= nx <= MAX_DIM,
            1 <= ny <= MAX_DIM,
            1 <= nz <= MAX_DIM,
            in_range(v as int),
        ensures
            f.wf(),
            f.nx == nx,
            f.ny == ny,
            f.nz == nz,
            forall|t: int| 0 <= t < f.data.len() ==> #[trigger] f.data[t] == v,
    {
        proof {
            assert((nx as int) * ((ny * nz) as int) <= (MAX_DIM as int) * ((MAX_DIM
                * MAX_DIM) as int) && (ny as int) * (nz as int) <= (MAX_DIM as int) * (
            MAX_DIM as int)) by (nonlinear_arith)
                requires
                    1 <= nx as int <= MAX_DIM as int,
                    1 <= ny as int <= MAX_DIM as int,
                    1 <= nz as int <= MAX_DIM as int,
            ;
        }
        let total: usize = nx * (ny * nz);
        let mut data: Vec<i64> = Vec::new();
        while data.len() < total
            invariant
                data.len() <= total,
                forall|t: int| 0 <= t < data.len() ==> #[trigger] data[t] == v,
            decreases total - data.len(),
        {
            data.push(v);
        }
        Field { data, nx, ny, nz }
    }
}

/// Row-major visiting order: `(i, j, k)` comes strictly before `(x, y, z)`.
pub open spec fn lex3(i: int, j: int, k: int, x: int, y: int, z: int) -> bool {
    i < x || (i == x && (j < y || (j == y && k < z)))
}

/// 1 in the queried axis, 0 elsewhere.
pub open spec fn unit(axis: int, d: int) -> int {
    if axis == d {
        1
    } else {
        0
    }
}

/// Unit index vector of an axis (x: 0, y: 1, z: 2).
pub fn get_dimension(dimension_number: usize) -> (dim: [usize; 3])
    requires
        dimension_number < 3,
    ensures
        dim[0] == unit(dimension_number as int, 0),
        dim[1] == unit(dimension_number as int, 1),
        dim[2] == unit(dimension_number as int, 2),
{
    if dimension_number == 0 {
        [1, 0, 0]
    } else if dimension_number == 1 {
        [0, 1, 0]
    } else {
        [0, 0, 1]
    }
}

/// Allocated extent of a velocity field along dimension `d`: its own axis
/// carries `n + 1` face samples, a cross axis `n + 2` (one ghost layer on
/// each side).
pub open spec fn vdim(n: int, axis: int, d: int) -> int {
    if axis == d {
        n + 1
    } else {
        n + 2
    }
}

/// One staggered velocity component: the samples together with the axis
/// (x: 0, y: 1, z: 2) the component points along.
pub struct VelocityGrid {
    pub grid: Field,
    pub dimension: usize,
}

impl VelocityGrid {
    /// Shape invariant of a velocity field over an `n0 x n1 x n2` cell grid.
    pub open spec fn wf_for(self, n0: int, n1: int, n2: int) -> bool {
        &&& self.grid.wf()
        &&& self.dimension < 3
        &&& self.grid.nx == vdim(n0, self.dimension as int, 0)
        &&& self.grid.ny == vdim(n1, self.dimension as int, 1)
        &&& self.grid.nz == vdim(n2, self.dimension as int, 2)
    }

    /// Allocate the component for `axis`, holding `v` everywhere.
    pub fn new_filled(n0: usize, n1: usize, n2: usize, axis: usize, v: i64) -> (g: VelocityGrid)
        requires
            1 <= n0 <= MAX_N,
            1 <= n1 <= MAX_N,
            1 <= n2 <= MAX_N,
            axis < 3,
            in_range(v as int),
        ensures
            g.wf_for(n0 as int, n1 as int, n2 as int),
            g.dimension == axis,
            forall|t: int| 0 <= t < g.grid.data.len() ==> #[trigger] g.grid.data[t] == v,
    {
        let nx: usize = if axis == 0 {
            n0 + 1
        } else {
            n0 + 2
        };
        let ny: usize = if axis == 1 {
            n1 + 1
        } else {
            n1 + 2
        };
        let nz: usize = if axis == 2 {
            n2 + 1
        } else {
            n2 + 2
        };
        VelocityGrid { grid: Field::new_filled(nx, ny, nz, v), dimension: axis }
    }
}

} // verus!
