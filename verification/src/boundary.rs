//! Boundary-condition engine.
//!
//! After each velocity update the ghost and wall samples are overwritten so
//! that every interior stencil reads authoritative values:
//!
//! * no-penetration: the component orthogonal to a wall is forced to the
//!   wall value on the wall's face plane;
//! * no-slip: components parallel to a wall are mirrored with a sign flip
//!   across the wall, so their face average vanishes;
//! * inflow/outflow: on a designated rectangular sub-region of a domain
//!   face, the orthogonal component is overridden with a prescribed flow and
//!   the parallel components are zeroed on a collar one cell wider at the
//!   far side of each dimension.
//!
//! The passes run in a fixed order (walls of axis 0, 1, 2, then the inflow
//! list), and the spec functions of this file give the resulting value of
//! every sample as a pointwise cascade over the field as it stood before
//! the pass.

use vstd::prelude::*;

use crate::config::{Inflow, SimConfig};
use crate::fixed::{fp_neg, in_range, neg_fp};
use crate::grid::{lex3, unit, Field, VelocityGrid, get_dimension};
use crate::operators::sq_at;

verus! {

/// `(i, j, k)` lies in the inclusive box `[min, max]`.
pub open spec fn in_box(min: [usize; 3], max: [usize; 3], i: int, j: int, k: int) -> bool {
    &&& min[0] <= i <= max[0]
    &&& min[1] <= j <= max[1]
    &&& min[2] <= k <= max[2]
}

/// `(i, j, k)` lies in the box `[min, max]` widened by one at the top.
pub open spec fn in_ext_box(min: [usize; 3], max: [usize; 3], i: int, j: int, k: int) -> bool {
    &&& min[0] <= i <= max[0] + 1
    &&& min[1] <= j <= max[1] + 1
    &&& min[2] <= k <= max[2] + 1
}

/// Overwrite every sample in the inclusive box `[min, max]` with `value`.
fn fill_box(f: &mut Field, min: [usize; 3], max: [usize; 3], value: i64)
    requires
        old(f).wf(),
        min[0] <= max[0],
        min[1] <= max[1],
        min[2] <= max[2],
        max[0] < old(f).nx,
        max[1] < old(f).ny,
        max[2] < old(f).nz,
        in_range(value as int),
    ensures
        final(f).wf(),
        final(f).same_dims(*old(f)),
        forall|i: int, j: int, k: int|
            0 <= i < old(f).nx && 0 <= j < old(f).ny && 0 <= k < old(f).nz
                ==> #[trigger] final(f).at(i, j, k) == if in_box(min, max, i, j, k) {
                value as int
            } else {
                old(f).at(i, j, k)
            },
{
    let mut x: usize = min[0];
    while x <= max[0]
        invariant
            f.wf(),
            f.same_dims(*old(f)),
            min[1] <= max[1],
            min[2] <= max[2],
            min[0] <= x <= max[0] + 1,
            max[0] < f.nx,
            max[1] < f.ny,
            max[2] < f.nz,
            in_range(value as int),
            forall|i: int, j: int, k: int|
                0 <= i < f.nx && 0 <= j < f.ny && 0 <= k < f.nz ==> #[trigger] f.at(i, j, k)
                    == if in_box(min, max, i, j, k) && lex3(i, j, k, x as int, min[1] as int,
                    min[2] as int) {
                    value as int
                } else {
                    old(f).at(i, j, k)
                },
        decreases max[0] + 1 - x,
    {
        let mut y: usize = min[1];
        while y <= max[1]
            invariant
                f.wf(),
                f.same_dims(*old(f)),
                min[2] <= max[2],
                min[0] <= x <= max[0],
                min[1] <= y <= max[1] + 1,
                max[0] < f.nx,
                max[1] < f.ny,
                max[2] < f.nz,
                in_range(value as int),
                forall|i: int, j: int, k: int|
                    0 <= i < f.nx && 0 <= j < f.ny && 0 <= k < f.nz ==> #[trigger] f.at(i, j, k)
                        == if in_box(min, max, i, j, k) && lex3(i, j, k, x as int, y as int,
                        min[2] as int) {
                        value as int
                    } else {
                        old(f).at(i, j, k)
                    },
            decreases max[1] + 1 - y,
        {
            let mut z: usize = min[2];
            while z <= max[2]
                invariant
                    f.wf(),
                    f.same_dims(*old(f)),
                    min[0] <= x <= max[0],
                    min[1] <= y <= max[1],
                    min[2] <= z <= max[2] + 1,
                    max[0] < f.nx,
                    max[1] < f.ny,
                    max[2] < f.nz,
                    in_range(value as int),
                    forall|i: int, j: int, k: int|
                        0 <= i < f.nx && 0 <= j < f.ny && 0 <= k < f.nz ==> #[trigger] f.at(
                            i,
                            j,
                            k,
                        ) == if in_box(min, max, i, j, k) && lex3(i, j, k, x as int, y as int,
                        z as int) {
                            value as int
                        } else {
                            old(f).at(i, j, k)
                        },
                decreases max[2] + 1 - z,
            {
                f.set(x, y, z, value);
                z += 1;
            }
            y += 1;
        }
        x += 1;
    }
}

/// Force the component orthogonal to a wall to `value` on the wall's face
/// plane (no-penetration, or a prescribed wall velocity).
pub fn set_orthogonal_boundary_condition_at_wall(
    orthogonal_velocity_grid: &mut VelocityGrid,
    min_coords: [usize; 3],
    max_coords: [usize; 3],
    value: i64,
)
    requires
        old(orthogonal_velocity_grid).grid.wf(),
        min_coords[0] <= max_coords[0],
        min_coords[1] <= max_coords[1],
        min_coords[2] <= max_coords[2],
        max_coords[0] < old(orthogonal_velocity_grid).grid.nx,
        max_coords[1] < old(orthogonal_velocity_grid).grid.ny,
        max_coords[2] < old(orthogonal_velocity_grid).grid.nz,
        in_range(value as int),
    ensures
        final(orthogonal_velocity_grid).grid.wf(),
        final(orthogonal_velocity_grid).grid.same_dims(old(orthogonal_velocity_grid).grid),
        final(orthogonal_velocity_grid).dimension == old(orthogonal_velocity_grid).dimension,
        forall|i: int, j: int, k: int|
            0 <= i < old(orthogonal_velocity_grid).grid.nx && 0 <= j < old(
                orthogonal_velocity_grid,
            ).grid.ny && 0 <= k < old(orthogonal_velocity_grid).grid.nz
                ==> #[trigger] final(orthogonal_velocity_grid).grid.at(i, j, k) == if in_box(
                min_coords,
                max_coords,
                i,
                j,
                k,
            ) {
                value as int
            } else {
                old(orthogonal_velocity_grid).grid.at(i, j, k)
            },
{
    fill_box(&mut orthogonal_velocity_grid.grid, min_coords, max_coords, value);
}

/// Mirror a wall-parallel component across the wall with a sign flip, so
/// that its face-averaged value at the wall is zero (no-slip).
///
/// `wall_is_on_lower_side` tells which neighbour is read: `false` means the
/// wall plane has the lower coordinate and mirrors the sample one step up
/// along `orthogonal_dimension`; `true` mirrors one step down.
pub fn set_parallel_boundary_condition_at_wall(
    parallel_velocity_grid: &mut VelocityGrid,
    min_coords: [usize; 3],
    max_coords: [usize; 3],
    wall_is_on_lower_side: bool,
    orthogonal_dimension: usize,
)
    requires
        old(parallel_velocity_grid).grid.wf(),
        orthogonal_dimension < 3,
        min_coords[0] <= max_coords[0],
        min_coords[1] <= max_coords[1],
        min_coords[2] <= max_coords[2],
        max_coords[0] < old(parallel_velocity_grid).grid.nx,
        max_coords[1] < old(parallel_velocity_grid).grid.ny,
        max_coords[2] < old(parallel_velocity_grid).grid.nz,
        min_coords[orthogonal_dimension as int] == max_coords[orthogonal_dimension as int],
        wall_is_on_lower_side ==> 1 <= min_coords[orthogonal_dimension as int],
        !wall_is_on_lower_side ==> min_coords[orthogonal_dimension as int] + 1 < vextent(
            *old(parallel_velocity_grid),
            orthogonal_dimension as int,
        ),
    ensures
        final(parallel_velocity_grid).grid.wf(),
        final(parallel_velocity_grid).grid.same_dims(old(parallel_velocity_grid).grid),
        final(parallel_velocity_grid).dimension == old(parallel_velocity_grid).dimension,
        forall|i: int, j: int, k: int|
            0 <= i < old(parallel_velocity_grid).grid.nx && 0 <= j < old(
                parallel_velocity_grid,
            ).grid.ny && 0 <= k < old(parallel_velocity_grid).grid.nz
                ==> #[trigger] final(parallel_velocity_grid).grid.at(i, j, k) == if in_box(
                min_coords,
                max_coords,
                i,
                j,
                k,
            ) {
                fp_neg(
                    old(parallel_velocity_grid).grid.at(
                        i + mirror_step(wall_is_on_lower_side) * unit(
                            orthogonal_dimension as int,
                            0,
                        ),
                        j + mirror_step(wall_is_on_lower_side) * unit(
                            orthogonal_dimension as int,
                            1,
                        ),
                        k + mirror_step(wall_is_on_lower_side) * unit(
                            orthogonal_dimension as int,
                            2,
                        ),
                    ),
                )
            } else {
                old(parallel_velocity_grid).grid.at(i, j, k)
            },
{
    let dim = get_dimension(orthogonal_dimension);
    let mut x: usize = min_coords[0];
    while x <= max_coords[0]
        invariant
            parallel_velocity_grid.grid.wf(),
            parallel_velocity_grid.grid.same_dims(old(parallel_velocity_grid).grid),
            parallel_velocity_grid.dimension == old(parallel_velocity_grid).dimension,
            min_coords[0] <= x <= max_coords[0] + 1,
            mirror_requires(*old(parallel_velocity_grid), min_coords, max_coords,
                wall_is_on_lower_side, orthogonal_dimension as int),
            dim[0] == unit(orthogonal_dimension as int, 0),
            dim[1] == unit(orthogonal_dimension as int, 1),
            dim[2] == unit(orthogonal_dimension as int, 2),
            forall|i: int, j: int, k: int|
                0 <= i < parallel_velocity_grid.grid.nx && 0 <= j < parallel_velocity_grid.grid.ny
                    && 0 <= k < parallel_velocity_grid.grid.nz
                    ==> #[trigger] parallel_velocity_grid.grid.at(i, j, k) == mirror_mid(
                    *old(parallel_velocity_grid),
                    min_coords,
                    max_coords,
                    wall_is_on_lower_side,
                    orthogonal_dimension as int,
                    i,
                    j,
                    k,
                    x as int,
                    min_coords[1] as int,
                    min_coords[2] as int,
                ),
        decreases max_coords[0] + 1 - x,
    {
        let mut y: usize = min_coords[1];
        while y <= max_coords[1]
            invariant
                parallel_velocity_grid.grid.wf(),
                parallel_velocity_grid.grid.same_dims(old(parallel_velocity_grid).grid),
                parallel_velocity_grid.dimension == old(parallel_velocity_grid).dimension,
                min_coords[0] <= x <= max_coords[0],
                min_coords[1] <= y <= max_coords[1] + 1,
                mirror_requires(*old(parallel_velocity_grid), min_coords, max_coords,
                    wall_is_on_lower_side, orthogonal_dimension as int),
                dim[0] == unit(orthogonal_dimension as int, 0),
                dim[1] == unit(orthogonal_dimension as int, 1),
                dim[2] == unit(orthogonal_dimension as int, 2),
                forall|i: int, j: int, k: int|
                    0 <= i < parallel_velocity_grid.grid.nx && 0 <= j
                        < parallel_velocity_grid.grid.ny && 0 <= k < parallel_velocity_grid.grid.nz
                        ==> #[trigger] parallel_velocity_grid.grid.at(i, j, k) == mirror_mid(
                        *old(parallel_velocity_grid),
                        min_coords,
                        max_coords,
                        wall_is_on_lower_side,
                        orthogonal_dimension as int,
                        i,
                        j,
                        k,
                        x as int,
                        y as int,
                        min_coords[2] as int,
                    ),
            decreases max_coords[1] + 1 - y,
        {
            let mut z: usize = min_coords[2];
            while z <= max_coords[2]
                invariant
                    parallel_velocity_grid.grid.wf(),
                    parallel_velocity_grid.grid.same_dims(old(parallel_velocity_grid).grid),
                    parallel_velocity_grid.dimension == old(parallel_velocity_grid).dimension,
                    min_coords[0] <= x <= max_coords[0],
                    min_coords[1] <= y <= max_coords[1],
                    min_coords[2] <= z <= max_coords[2] + 1,
                    mirror_requires(*old(parallel_velocity_grid), min_coords, max_coords,
                        wall_is_on_lower_side, orthogonal_dimension as int),
                    dim[0] == unit(orthogonal_dimension as int, 0),
                    dim[1] == unit(orthogonal_dimension as int, 1),
                    dim[2] == unit(orthogonal_dimension as int, 2),
                    forall|i: int, j: int, k: int|
                        0 <= i < parallel_velocity_grid.grid.nx && 0 <= j
                            < parallel_velocity_grid.grid.ny && 0 <= k
                            < parallel_velocity_grid.grid.nz
                            ==> #[trigger] parallel_velocity_grid.grid.at(i, j, k) == mirror_mid(
                            *old(parallel_velocity_grid),
                            min_coords,
                            max_coords,
                            wall_is_on_lower_side,
                            orthogonal_dimension as int,
                            i,
                            j,
                            k,
                            x as int,
                            y as int,
                            z as int,
                        ),
                decreases max_coords[2] + 1 - z,
            {
                let neighbor = if wall_is_on_lower_side {
                    parallel_velocity_grid.grid.get(x - dim[0], y - dim[1], z - dim[2])
                } else {
                    parallel_velocity_grid.grid.get(x + dim[0], y + dim[1], z + dim[2])
                };
                let v = neg_fp(neighbor);
                parallel_velocity_grid.grid.set(x, y, z, v);
                z += 1;
            }
            y += 1;
        }
        x += 1;
    }
}

/// Direction of the mirrored neighbour: toward higher coordinates when the
/// wall is on the lower side of the fluid, toward lower ones otherwise.
pub open spec fn mirror_step(wall_is_on_lower_side: bool) -> int {
    if wall_is_on_lower_side {
        -1
    } else {
        1
    }
}

/// Allocated extent of `g` along dimension `d`.
pub open spec fn vextent(g: VelocityGrid, d: int) -> int {
    if d == 0 {
        g.grid.nx as int
    } else if d == 1 {
        g.grid.ny as int
    } else {
        g.grid.nz as int
    }
}

/// Precondition of the mirror pass, kept as one predicate so the loop
/// invariants can restate it verbatim.
pub open spec fn mirror_requires(
    g: VelocityGrid,
    min_coords: [usize; 3],
    max_coords: [usize; 3],
    wall_is_on_lower_side: bool,
    o: int,
) -> bool {
    &&& g.grid.wf()
    &&& 0 <= o < 3
    &&& min_coords[0] <= max_coords[0]
    &&& min_coords[1] <= max_coords[1]
    &&& min_coords[2] <= max_coords[2]
    &&& max_coords[0] < g.grid.nx
    &&& max_coords[1] < g.grid.ny
    &&& max_coords[2] < g.grid.nz
    &&& min_coords[o] == max_coords[o]
    &&& (wall_is_on_lower_side ==> 1 <= min_coords[o])
    &&& (!wall_is_on_lower_side ==> min_coords[o] + 1 < vextent(g, o))
}

/// Allocated extents of the velocity grid for axis `b`.
pub open spec fn vnx(cfg: SimConfig, b: int) -> int {
    crate::grid::vdim(cfg.n[0] as int, b, 0)
}

pub open spec fn vny(cfg: SimConfig, b: int) -> int {
    crate::grid::vdim(cfg.n[1] as int, b, 1)
}

pub open spec fn vnz(cfg: SimConfig, b: int) -> int {
    crate::grid::vdim(cfg.n[2] as int, b, 2)
}

/// Coordinate of a point along axis `d`.
pub open spec fn pick(d: int, i: int, j: int, k: int) -> int {
    if d == 0 {
        i
    } else if d == 1 {
        j
    } else {
        k
    }
}

/// The mirror boxes of the walls orthogonal to `o` span `0 ..= n` in each
/// other dimension, leaving the top ghost layer of the cross axes alone.
pub open spec fn cross_ok(cfg: SimConfig, o: int, i: int, j: int, k: int) -> bool {
    &&& (o == 0 || i <= cfg.n[0])
    &&& (o == 1 || j <= cfg.n[1])
    &&& (o == 2 || k <= cfg.n[2])
}

/// Value of the axis-`b` component after the wall group of axis `g` was
/// applied to `prev`: the grid's own group forces its two face planes to
/// `w`; any other group mirrors the two ghost planes of dimension `g` with
/// a sign flip.  `prev` gives the value at each point before the group.
pub open spec fn wall_group_point(
    cfg: SimConfig,
    b: int,
    g: int,
    w: int,
    prev: spec_fn(int, int, int) -> int,
    i: int,
    j: int,
    k: int,
) -> int {
    if g == b {
        if pick(b, i, j, k) == 0 || pick(b, i, j, k) == cfg.n[b] {
            w
        } else {
            prev(i, j, k)
        }
    } else {
        if pick(g, i, j, k) == 0 && cross_ok(cfg, g, i, j, k) {
            fp_neg(prev(i + unit(g, 0), j + unit(g, 1), k + unit(g, 2)))
        } else if pick(g, i, j, k) == cfg.n[g] + 1 && cross_ok(cfg, g, i, j, k) {
            fp_neg(prev(i - unit(g, 0), j - unit(g, 1), k - unit(g, 2)))
        } else {
            prev(i, j, k)
        }
    }
}

/// Value of the axis-`b` component after the wall groups of axes 0, 1, 2
/// ran in order on the stored samples `s`, with wall value `w`.
pub open spec fn bc_g0(cfg: SimConfig, b: int, s: Seq<i64>, w: int, i: int, j: int, k: int) -> int {
    wall_group_point(cfg, b, 0, w, |i2: int, j2: int, k2: int| sq_at(s, vny(cfg, b), vnz(cfg, b), i2, j2, k2), i, j, k)
}

pub open spec fn bc_g1(cfg: SimConfig, b: int, s: Seq<i64>, w: int, i: int, j: int, k: int) -> int {
    wall_group_point(cfg, b, 1, w, |i2: int, j2: int, k2: int| bc_g0(cfg, b, s, w, i2, j2, k2), i, j, k)
}

pub open spec fn bc_g2(cfg: SimConfig, b: int, s: Seq<i64>, w: int, i: int, j: int, k: int) -> int {
    wall_group_point(cfg, b, 2, w, |i2: int, j2: int, k2: int| bc_g1(cfg, b, s, w, i2, j2, k2), i, j, k)
}

/// Value of the axis-`b` component after the first `m` inflow regions were
/// applied on top of the wall passes.
pub open spec fn bc_inflow(
    cfg: SimConfig,
    b: int,
    s: Seq<i64>,
    w: int,
    m: int,
    i: int,
    j: int,
    k: int,
) -> int
    decreases m,
{
    if m <= 0 {
        bc_g2(cfg, b, s, w, i, j, k)
    } else {
        let f = cfg.inflows[m - 1];
        if f.axis as int == b && in_box(f.min, f.max, i, j, k) {
            f.flow as int
        } else if f.axis as int != b && in_ext_box(f.min, f.max, i, j, k) {
            0
        } else {
            bc_inflow(cfg, b, s, w, m - 1, i, j, k)
        }
    }
}

/// Value of the axis-`b` component after one full boundary pass (walls of
/// all three axes, then every inflow region) over the stored samples `s`.
pub open spec fn bc_point(cfg: SimConfig, b: int, s: Seq<i64>, i: int, j: int, k: int) -> int {
    bc_inflow(cfg, b, s, 0, cfg.inflows.len() as int, i, j, k)
}

/// The axis-`b` component after one boundary pass over `s`.
pub open spec fn bc_stage(cfg: SimConfig, b: int, s: Seq<i64>) -> Seq<i64> {
    crate::grid::grid_new(
        vnx(cfg, b),
        vny(cfg, b),
        vnz(cfg, b),
        |i: int, j: int, k: int| bc_point(cfg, b, s, i, j, k) as i64,
    )
}

/// The write region of inflow `m` for the axis-`b` component: the
/// prescribed box for its own component, the widened collar for a parallel
/// one.
pub open spec fn captured(cfg: SimConfig, b: int, m: int, i: int, j: int, k: int) -> bool {
    let f = cfg.inflows[m];
    (f.axis as int == b && in_box(f.min, f.max, i, j, k)) || (f.axis as int != b && in_ext_box(
        f.min,
        f.max,
        i,
        j,
        k,
    ))
}

/// The point lies outside the write regions of the first `m` inflows.
pub open spec fn escape_below(cfg: SimConfig, b: int, m: int, i: int, j: int, k: int) -> bool {
    forall|m2: int| 0 <= m2 < m ==> !captured(cfg, b, m2, i, j, k)
}

/// Inflow regions that keep two cells clear of the walls in every cross
/// dimension, so no mirror pass ever reads into an inflow collar.
pub open spec fn inflows_clear_of_walls(cfg: SimConfig) -> bool {
    forall|m: int, d: int|
        0 <= m < cfg.inflows.len() && 0 <= d < 3 && d != cfg.inflows[m].axis ==> 2 <= #[trigger] cfg.inflows[m].min[d]
            && cfg.inflows[m].max[d] + 2 <= cfg.n[d]
}

/// The two ghost edges of each component that one pass leaves unsettled:
/// there the mirror across the upper wall of the earlier cross axis copied
/// a neighbour that the later cross axis' pass afterwards rewrote.
pub open spec fn stale_edge(cfg: SimConfig, b: int, i: int, j: int, k: int) -> bool {
    if b == 0 {
        j == cfg.n[1] + 1 && k == 0
    } else if b == 1 {
        i == cfg.n[0] + 1 && k == 0
    } else {
        i == cfg.n[0] + 1 && j == 0
    }
}

/// The extents of every component grid are positive.
proof fn lemma_dims_pos(cfg: SimConfig, b: int)
    requires
        cfg.grid_ok(),
        0 <= b < 3,
    ensures
        3 <= vnx(cfg, b),
        3 <= vny(cfg, b),
        3 <= vnz(cfg, b),
        vnx(cfg, b) <= cfg.n[0] + 2,
        vny(cfg, b) <= cfg.n[1] + 2,
        vnz(cfg, b) <= cfg.n[2] + 2,
{
    assert(2 <= cfg.n[0]);
    assert(2 <= cfg.n[1]);
    assert(2 <= cfg.n[2]);
}

/// Every value of the pass cascade at an allocated point stays in band.
proof fn lemma_bc_cascade_in_range(
    cfg: SimConfig,
    b: int,
    s: Seq<i64>,
    m: int,
    i: int,
    j: int,
    k: int,
)
    requires
        cfg.valid(),
        0 <= b < 3,
        0 <= m <= cfg.inflows.len(),
        s.len() == vnx(cfg, b) * (vny(cfg, b) * vnz(cfg, b)),
        forall|t: int| 0 <= t < s.len() ==> in_range(#[trigger] s[t] as int),
        0 <= i < vnx(cfg, b),
        0 <= j < vny(cfg, b),
        0 <= k < vnz(cfg, b),
    ensures
        in_range(bc_inflow(cfg, b, s, 0, m, i, j, k)),
    decreases m,
{
    if m <= 0 {
        lemma_dims_pos(cfg, b);
        crate::grid::lemma_flat3(i, j, k, vnx(cfg, b), vny(cfg, b), vnz(cfg, b));
    } else {
        lemma_bc_cascade_in_range(cfg, b, s, m - 1, i, j, k);
        assert(cfg.inflow_ok(cfg.inflows[m - 1]));
    }
}

/// Reading the pass's output grid at an allocated point gives the cascade
/// value.
proof fn lemma_bc_stage_read(cfg: SimConfig, b: int, s: Seq<i64>, i: int, j: int, k: int)
    requires
        cfg.valid(),
        0 <= b < 3,
        s.len() == vnx(cfg, b) * (vny(cfg, b) * vnz(cfg, b)),
        forall|t: int| 0 <= t < s.len() ==> in_range(#[trigger] s[t] as int),
        0 <= i < vnx(cfg, b),
        0 <= j < vny(cfg, b),
        0 <= k < vnz(cfg, b),
    ensures
        sq_at(bc_stage(cfg, b, s), vny(cfg, b), vnz(cfg, b), i, j, k) == bc_point(
            cfg,
            b,
            s,
            i,
            j,
            k,
        ),
{
    lemma_dims_pos(cfg, b);
    crate::grid::lemma_len_nonneg(vnx(cfg, b), vny(cfg, b), vnz(cfg, b));
    crate::grid::lemma_flat3(i, j, k, vnx(cfg, b), vny(cfg, b), vnz(cfg, b));
    lemma_bc_cascade_in_range(cfg, b, s, cfg.inflows.len() as int, i, j, k);
}

/// On a point that every inflow region misses, the cascade is the wall
/// cascade alone.
proof fn lemma_escape_all(cfg: SimConfig, b: int, s: Seq<i64>, m: int, i: int, j: int, k: int)
    requires
        0 <= m <= cfg.inflows.len(),
        escape_below(cfg, b, m, i, j, k),
    ensures
        bc_inflow(cfg, b, s, 0, m, i, j, k) == bc_g2(cfg, b, s, 0, i, j, k),
    decreases m,
{
    if m > 0 {
        assert(!captured(cfg, b, m - 1, i, j, k));
        lemma_escape_all(cfg, b, s, m - 1, i, j, k);
    }
}

/// Whether `c2` is `c`, or `c` stepped off a mirror plane of dimension `d`
/// onto its read neighbour.
pub open spec fn moved_ok(cfg: SimConfig, b: int, d: int, c: int, c2: int) -> bool {
    c2 == c || (d != b && ((c == 0 && c2 == 1) || (c == cfg.n[d] + 1 && c2 == cfg.n[d])))
}

/// A mirror neighbour of an escaping point escapes as well: a moved
/// coordinate lands on the cell ring that margined inflow regions avoid,
/// and a hit through unmoved coordinates would have captured the original
/// point too.
proof fn lemma_escape_transfer(
    cfg: SimConfig,
    b: int,
    i: int,
    j: int,
    k: int,
    i2: int,
    j2: int,
    k2: int,
)
    requires
        cfg.valid(),
        inflows_clear_of_walls(cfg),
        0 <= b < 3,
        escape_below(cfg, b, cfg.inflows.len() as int, i, j, k),
        moved_ok(cfg, b, 0, i, i2),
        moved_ok(cfg, b, 1, j, j2),
        moved_ok(cfg, b, 2, k, k2),
    ensures
        escape_below(cfg, b, cfg.inflows.len() as int, i2, j2, k2),
{
    assert forall|m2: int| 0 <= m2 < cfg.inflows.len() implies !captured(cfg, b, m2, i2, j2, k2) by {
        let f = cfg.inflows[m2];
        assert(cfg.inflow_ok(f));
        assert(!captured(cfg, b, m2, i, j, k));
        assert(0 != f.axis ==> 2 <= cfg.inflows[m2].min[0] && cfg.inflows[m2].max[0] + 2
            <= cfg.n[0]);
        assert(1 != f.axis ==> 2 <= cfg.inflows[m2].min[1] && cfg.inflows[m2].max[1] + 2
            <= cfg.n[1]);
        assert(2 != f.axis ==> 2 <= cfg.inflows[m2].min[2] && cfg.inflows[m2].max[2] + 2
            <= cfg.n[2]);
        assert(f.min[f.axis as int] == f.max[f.axis as int]);
        assert(f.min[f.axis as int] == 0 || f.min[f.axis as int] == cfg.n[f.axis as int]);
    }
}

/// Applying the inflow layer to two wall-cascade results that agree
/// wherever the inflows miss yields equal values everywhere.
proof fn lemma_inflow_cascade_eq(
    cfg: SimConfig,
    b: int,
    s1: Seq<i64>,
    s: Seq<i64>,
    m: int,
    i: int,
    j: int,
    k: int,
)
    requires
        0 <= m <= cfg.inflows.len(),
        escape_below(cfg, b, m, i, j, k) ==> bc_g2(cfg, b, s1, 0, i, j, k) == bc_g2(
            cfg,
            b,
            s,
            0,
            i,
            j,
            k,
        ),
    ensures
        bc_inflow(cfg, b, s1, 0, m, i, j, k) == bc_inflow(cfg, b, s, 0, m, i, j, k),
    decreases m,
{
    if m <= 0 {
        assert(escape_below(cfg, b, 0, i, j, k));
    } else {
        if !captured(cfg, b, m - 1, i, j, k) {
            assert(escape_below(cfg, b, m - 1, i, j, k) ==> escape_below(cfg, b, m, i, j, k));
            lemma_inflow_cascade_eq(cfg, b, s1, s, m - 1, i, j, k);
        }
    }
}

/// The wall cascade of the pass's output agrees with the wall cascade of
/// the input at every allocated, escaping point off the stale edge.
#[verifier::rlimit(100)]
#[verifier::spinoff_prover]
proof fn lemma_wall_cascade_eq(cfg: SimConfig, b: int, s: Seq<i64>, i: int, j: int, k: int)
    requires
        cfg.valid(),
        inflows_clear_of_walls(cfg),
        0 <= b < 3,
        s.len() == vnx(cfg, b) * (vny(cfg, b) * vnz(cfg, b)),
        forall|t: int| 0 <= t < s.len() ==> in_range(#[trigger] s[t] as int),
        0 <= i < vnx(cfg, b),
        0 <= j < vny(cfg, b),
        0 <= k < vnz(cfg, b),
        !stale_edge(cfg, b, i, j, k),
        escape_below(cfg, b, cfg.inflows.len() as int, i, j, k),
    ensures
        bc_g2(cfg, b, bc_stage(cfg, b, s), 0, i, j, k) == bc_g2(cfg, b, s, 0, i, j, k),
{
    lemma_dims_pos(cfg, b);
    let len = cfg.inflows.len() as int;
    let n0 = cfg.n[0] as int;
    let n1 = cfg.n[1] as int;
    let n2 = cfg.n[2] as int;
    lemma_read_point(cfg, b, s, i, j, k, i, j, k);
    if b != 0 && i == 0 {
        lemma_read_point(cfg, b, s, i, j, k, 1, j, k);
        if b != 1 && j == 0 {
            lemma_read_point(cfg, b, s, i, j, k, 1, 1, k);
        }
        if b != 1 && j == n1 + 1 {
            lemma_read_point(cfg, b, s, i, j, k, 1, n1, k);
        }
        if b != 2 && k == 0 {
            lemma_read_point(cfg, b, s, i, j, k, 1, j, 1);
        }
        if b != 2 && k == n2 + 1 {
            lemma_read_point(cfg, b, s, i, j, k, 1, j, n2);
        }
    }
    if b != 0 && i == n0 + 1 {
        lemma_read_point(cfg, b, s, i, j, k, n0, j, k);
        if b != 1 && j == 0 {
            lemma_read_point(cfg, b, s, i, j, k, n0, 1, k);
        }
        if b != 1 && j == n1 + 1 {
            lemma_read_point(cfg, b, s, i, j, k, n0, n1, k);
        }
        if b != 2 && k == 0 {
            lemma_read_point(cfg, b, s, i, j, k, n0, j, 1);
        }
        if b != 2 && k == n2 + 1 {
            lemma_read_point(cfg, b, s, i, j, k, n0, j, n2);
        }
    }
    if b != 1 && j == 0 {
        lemma_read_point(cfg, b, s, i, j, k, i, 1, k);
        if b != 2 && k == 0 {
            lemma_read_point(cfg, b, s, i, j, k, i, 1, 1);
        }
        if b != 2 && k == n2 + 1 {
            lemma_read_point(cfg, b, s, i, j, k, i, 1, n2);
        }
    }
    if b != 1 && j == n1 + 1 {
        lemma_read_point(cfg, b, s, i, j, k, i, n1, k);
        if b != 2 && k == 0 {
            lemma_read_point(cfg, b, s, i, j, k, i, n1, 1);
        }
        if b != 2 && k == n2 + 1 {
            lemma_read_point(cfg, b, s, i, j, k, i, n1, n2);
        }
    }
    if b != 2 && k == 0 {
        lemma_read_point(cfg, b, s, i, j, k, i, j, 1);
    }
    if b != 2 && k == n2 + 1 {
        lemma_read_point(cfg, b, s, i, j, k, i, j, n2);
    }
}

/// Bundle for `lemma_wall_cascade_eq`: the pass output read at a (possibly
/// mirror-adjusted) point equals the wall cascade of the input there.
proof fn lemma_read_point(
    cfg: SimConfig,
    b: int,
    s: Seq<i64>,
    i: int,
    j: int,
    k: int,
    i2: int,
    j2: int,
    k2: int,
)
    requires
        cfg.valid(),
        inflows_clear_of_walls(cfg),
        0 <= b < 3,
        s.len() == vnx(cfg, b) * (vny(cfg, b) * vnz(cfg, b)),
        forall|t: int| 0 <= t < s.len() ==> in_range(#[trigger] s[t] as int),
        0 <= i < vnx(cfg, b),
        0 <= j < vny(cfg, b),
        0 <= k < vnz(cfg, b),
        escape_below(cfg, b, cfg.inflows.len() as int, i, j, k),
        moved_ok(cfg, b, 0, i, i2),
        moved_ok(cfg, b, 1, j, j2),
        moved_ok(cfg, b, 2, k, k2),
    ensures
        sq_at(bc_stage(cfg, b, s), vny(cfg, b), vnz(cfg, b), i2, j2, k2) == bc_g2(
            cfg,
            b,
            s,
            0,
            i2,
            j2,
            k2,
        ),
{
    lemma_dims_pos(cfg, b);
    lemma_escape_transfer(cfg, b, i, j, k, i2, j2, k2);
    lemma_bc_stage_read(cfg, b, s, i2, j2, k2);
    lemma_escape_all(cfg, b, s, cfg.inflows.len() as int, i2, j2, k2);
}

/// Boundary mirroring idempotence: one boundary pass is a fixed point of
/// the boundary-condition engine.  At every allocated sample except the
/// two stale ghost edges, applying the pass to its own output reproduces
/// the output exactly — walls, no-slip mirrors and inflow regions
/// included — provided the inflow regions keep clear of the walls in
/// their cross dimensions.
pub proof fn lemma_boundary_pass_idempotent(
    cfg: SimConfig,
    b: int,
    s: Seq<i64>,
    i: int,
    j: int,
    k: int,
)
    requires
        cfg.valid(),
        inflows_clear_of_walls(cfg),
        0 <= b < 3,
        s.len() == vnx(cfg, b) * (vny(cfg, b) * vnz(cfg, b)),
        forall|t: int| 0 <= t < s.len() ==> in_range(#[trigger] s[t] as int),
        0 <= i < vnx(cfg, b),
        0 <= j < vny(cfg, b),
        0 <= k < vnz(cfg, b),
        !stale_edge(cfg, b, i, j, k),
    ensures
        bc_point(cfg, b, bc_stage(cfg, b, s), i, j, k) == bc_point(cfg, b, s, i, j, k),
{
    let len = cfg.inflows.len() as int;
    let s1 = bc_stage(cfg, b, s);
    if escape_below(cfg, b, len, i, j, k) {
        lemma_wall_cascade_eq(cfg, b, s, i, j, k);
    }
    lemma_inflow_cascade_eq(cfg, b, s1, s, len, i, j, k);
}

/// Copy of `a` with component `d` replaced by `v`.
fn with_axis(a: [usize; 3], d: usize, v: usize) -> (r: [usize; 3])
    requires
        d < 3,
    ensures
        r[0] == if d == 0 { v as int } else { a[0] as int },
        r[1] == if d == 1 { v as int } else { a[1] as int },
        r[2] == if d == 2 { v as int } else { a[2] as int },
{
    if d == 0 {
        [v, a[1], a[2]]
    } else if d == 1 {
        [a[0], v, a[2]]
    } else {
        [a[0], a[1], v]
    }
}

/// Field state of the mirror pass when the sweep cursor stands at
/// `(x, y, z)`: visited box samples mirrored, everything else untouched.
pub open spec fn mirror_mid(
    g0: VelocityGrid,
    min_coords: [usize; 3],
    max_coords: [usize; 3],
    wall_is_on_lower_side: bool,
    o: int,
    i: int,
    j: int,
    k: int,
    x: int,
    y: int,
    z: int,
) -> int {
    if in_box(min_coords, max_coords, i, j, k) && lex3(i, j, k, x, y, z) {
        fp_neg(
            g0.grid.at(
                i + mirror_step(wall_is_on_lower_side) * unit(o, 0),
                j + mirror_step(wall_is_on_lower_side) * unit(o, 1),
                k + mirror_step(wall_is_on_lower_side) * unit(o, 2),
            ),
        )
    } else {
        g0.grid.at(i, j, k)
    }
}

/// Override a rectangular face region: the orthogonal component takes the
/// prescribed `flow`, and the two parallel components are zeroed on a box
/// one cell wider at the far side of each dimension, modelling a jet or
/// drain.
pub fn create_inflow_or_outflow(
    orthogonal_velocity_grid: &mut VelocityGrid,
    parallel_velocity_grid_a: &mut VelocityGrid,
    parallel_velocity_grid_b: &mut VelocityGrid,
    min_orthogonal_coords: [usize; 3],
    max_orthogonal_coords: [usize; 3],
    flow: i64,
)
    requires
        old(orthogonal_velocity_grid).grid.wf(),
        old(parallel_velocity_grid_a).grid.wf(),
        old(parallel_velocity_grid_b).grid.wf(),
        min_orthogonal_coords[0] <= max_orthogonal_coords[0],
        min_orthogonal_coords[1] <= max_orthogonal_coords[1],
        min_orthogonal_coords[2] <= max_orthogonal_coords[2],
        max_orthogonal_coords[0] < old(orthogonal_velocity_grid).grid.nx,
        max_orthogonal_coords[1] < old(orthogonal_velocity_grid).grid.ny,
        max_orthogonal_coords[2] < old(orthogonal_velocity_grid).grid.nz,
        max_orthogonal_coords[0] + 1 < old(parallel_velocity_grid_a).grid.nx,
        max_orthogonal_coords[1] + 1 < old(parallel_velocity_grid_a).grid.ny,
        max_orthogonal_coords[2] + 1 < old(parallel_velocity_grid_a).grid.nz,
        max_orthogonal_coords[0] + 1 < old(parallel_velocity_grid_b).grid.nx,
        max_orthogonal_coords[1] + 1 < old(parallel_velocity_grid_b).grid.ny,
        max_orthogonal_coords[2] + 1 < old(parallel_velocity_grid_b).grid.nz,
        in_range(flow as int),
    ensures
        final(orthogonal_velocity_grid).grid.wf(),
        final(orthogonal_velocity_grid).grid.same_dims(old(orthogonal_velocity_grid).grid),
        final(orthogonal_velocity_grid).dimension == old(orthogonal_velocity_grid).dimension,
        final(parallel_velocity_grid_a).grid.wf(),
        final(parallel_velocity_grid_a).grid.same_dims(old(parallel_velocity_grid_a).grid),
        final(parallel_velocity_grid_a).dimension == old(parallel_velocity_grid_a).dimension,
        final(parallel_velocity_grid_b).grid.wf(),
        final(parallel_velocity_grid_b).grid.same_dims(old(parallel_velocity_grid_b).grid),
        final(parallel_velocity_grid_b).dimension == old(parallel_velocity_grid_b).dimension,
        forall|i: int, j: int, k: int|
            0 <= i < old(orthogonal_velocity_grid).grid.nx && 0 <= j < old(
                orthogonal_velocity_grid,
            ).grid.ny && 0 <= k < old(orthogonal_velocity_grid).grid.nz
                ==> #[trigger] final(orthogonal_velocity_grid).grid.at(i, j, k) == if in_box(
                min_orthogonal_coords,
                max_orthogonal_coords,
                i,
                j,
                k,
            ) {
                flow as int
            } else {
                old(orthogonal_velocity_grid).grid.at(i, j, k)
            },
        forall|i: int, j: int, k: int|
            0 <= i < old(parallel_velocity_grid_a).grid.nx && 0 <= j < old(
                parallel_velocity_grid_a,
            ).grid.ny && 0 <= k < old(parallel_velocity_grid_a).grid.nz
                ==> #[trigger] final(parallel_velocity_grid_a).grid.at(i, j, k) == if in_ext_box(
                min_orthogonal_coords,
                max_orthogonal_coords,
                i,
                j,
                k,
            ) {
                0
            } else {
                old(parallel_velocity_grid_a).grid.at(i, j, k)
            },
        forall|i: int, j: int, k: int|
            0 <= i < old(parallel_velocity_grid_b).grid.nx && 0 <= j < old(
                parallel_velocity_grid_b,
            ).grid.ny && 0 <= k < old(parallel_velocity_grid_b).grid.nz
                ==> #[trigger] final(parallel_velocity_grid_b).grid.at(i, j, k) == if in_ext_box(
                min_orthogonal_coords,
                max_orthogonal_coords,
                i,
                j,
                k,
            ) {
                0
            } else {
                old(parallel_velocity_grid_b).grid.at(i, j, k)
            },
{
    fill_box(
        &mut orthogonal_velocity_grid.grid,
        min_orthogonal_coords,
        max_orthogonal_coords,
        flow,
    );
    let wider: [usize; 3] = [
        max_orthogonal_coords[0] + 1,
        max_orthogonal_coords[1] + 1,
        max_orthogonal_coords[2] + 1,
    ];
    fill_box(&mut parallel_velocity_grid_a.grid, min_orthogonal_coords, wider, 0);
    fill_box(&mut parallel_velocity_grid_b.grid, min_orthogonal_coords, wider, 0);
}

/// Apply the wall conditions of the two walls orthogonal to the axis of
/// `orthogonal_velocity_grid`: the orthogonal component is forced to
/// `orthogonal_velocity_grid_value` on both face planes, and the two
/// parallel components are mirrored with a sign flip across each wall.
#[verifier::rlimit(30)]
pub fn set_boundary_conditions_of_two_parallel_walls(
    cfg: &SimConfig,
    orthogonal_velocity_grid: &mut VelocityGrid,
    parallel_velocity_grid_a: &mut VelocityGrid,
    parallel_velocity_grid_b: &mut VelocityGrid,
    orthogonal_velocity_grid_value: i64,
)
    requires
        cfg.grid_ok(),
        old(orthogonal_velocity_grid).wf_for(cfg.n[0] as int, cfg.n[1] as int, cfg.n[2] as int),
        old(parallel_velocity_grid_a).wf_for(cfg.n[0] as int, cfg.n[1] as int, cfg.n[2] as int),
        old(parallel_velocity_grid_b).wf_for(cfg.n[0] as int, cfg.n[1] as int, cfg.n[2] as int),
        old(parallel_velocity_grid_a).dimension != old(orthogonal_velocity_grid).dimension,
        old(parallel_velocity_grid_b).dimension != old(orthogonal_velocity_grid).dimension,
        in_range(orthogonal_velocity_grid_value as int),
    ensures
        final(orthogonal_velocity_grid).wf_for(cfg.n[0] as int, cfg.n[1] as int, cfg.n[2] as int),
        final(parallel_velocity_grid_a).wf_for(cfg.n[0] as int, cfg.n[1] as int, cfg.n[2] as int),
        final(parallel_velocity_grid_b).wf_for(cfg.n[0] as int, cfg.n[1] as int, cfg.n[2] as int),
        final(orthogonal_velocity_grid).dimension == old(orthogonal_velocity_grid).dimension,
        final(parallel_velocity_grid_a).dimension == old(parallel_velocity_grid_a).dimension,
        final(parallel_velocity_grid_b).dimension == old(parallel_velocity_grid_b).dimension,
        forall|i: int, j: int, k: int|
            0 <= i < old(orthogonal_velocity_grid).grid.nx && 0 <= j < old(
                orthogonal_velocity_grid,
            ).grid.ny && 0 <= k < old(orthogonal_velocity_grid).grid.nz
                ==> #[trigger] final(orthogonal_velocity_grid).grid.at(i, j, k)
                == wall_group_point(
                *cfg,
                old(orthogonal_velocity_grid).dimension as int,
                old(orthogonal_velocity_grid).dimension as int,
                orthogonal_velocity_grid_value as int,
                |i2: int, j2: int, k2: int| old(orthogonal_velocity_grid).grid.at(i2, j2, k2),
                i,
                j,
                k,
            ),
        forall|i: int, j: int, k: int|
            0 <= i < old(parallel_velocity_grid_a).grid.nx && 0 <= j < old(
                parallel_velocity_grid_a,
            ).grid.ny && 0 <= k < old(parallel_velocity_grid_a).grid.nz
                ==> #[trigger] final(parallel_velocity_grid_a).grid.at(i, j, k)
                == wall_group_point(
                *cfg,
                old(parallel_velocity_grid_a).dimension as int,
                old(orthogonal_velocity_grid).dimension as int,
                orthogonal_velocity_grid_value as int,
                |i2: int, j2: int, k2: int| old(parallel_velocity_grid_a).grid.at(i2, j2, k2),
                i,
                j,
                k,
            ),
        forall|i: int, j: int, k: int|
            0 <= i < old(parallel_velocity_grid_b).grid.nx && 0 <= j < old(
                parallel_velocity_grid_b,
            ).grid.ny && 0 <= k < old(parallel_velocity_grid_b).grid.nz
                ==> #[trigger] final(parallel_velocity_grid_b).grid.at(i, j, k)
                == wall_group_point(
                *cfg,
                old(parallel_velocity_grid_b).dimension as int,
                old(orthogonal_velocity_grid).dimension as int,
                orthogonal_velocity_grid_value as int,
                |i2: int, j2: int, k2: int| old(parallel_velocity_grid_b).grid.at(i2, j2, k2),
                i,
                j,
                k,
            ),
{
    let o = orthogonal_velocity_grid.dimension;
    let top: [usize; 3] = [cfg.n[0] + 1, cfg.n[1] + 1, cfg.n[2] + 1];
    let zero: [usize; 3] = [0, 0, 0];
    let max_orth_low = with_axis(top, o, 0);
    let max_par_low = with_axis(cfg.n, o, 0);
    set_orthogonal_boundary_condition_at_wall(
        orthogonal_velocity_grid,
        zero,
        max_orth_low,
        orthogonal_velocity_grid_value,
    );
    set_parallel_boundary_condition_at_wall(parallel_velocity_grid_a, zero, max_par_low, false, o);
    set_parallel_boundary_condition_at_wall(parallel_velocity_grid_b, zero, max_par_low, false, o);
    let wall: usize = cfg.n[o];
    let min_orth_high = with_axis(zero, o, wall);
    let max_orth_high = with_axis(top, o, wall);
    let min_par_high = with_axis(zero, o, wall + 1);
    let max_par_high = with_axis(cfg.n, o, wall + 1);
    set_orthogonal_boundary_condition_at_wall(
        orthogonal_velocity_grid,
        min_orth_high,
        max_orth_high,
        orthogonal_velocity_grid_value,
    );
    set_parallel_boundary_condition_at_wall(
        parallel_velocity_grid_a,
        min_par_high,
        max_par_high,
        true,
        o,
    );
    set_parallel_boundary_condition_at_wall(
        parallel_velocity_grid_b,
        min_par_high,
        max_par_high,
        true,
        o,
    );
}

/// One full boundary pass: wall conditions of all three axes in order, then
/// every configured inflow region.  Afterwards each component holds exactly
/// the cascade value [`bc_point`] of its state before the pass.
pub fn set_wall_boundary_conditions(
    cfg: &SimConfig,
    velocity_grid_x: &mut VelocityGrid,
    velocity_grid_y: &mut VelocityGrid,
    velocity_grid_z: &mut VelocityGrid,
    time_step: usize,
)
    requires
        cfg.valid(),
        old(velocity_grid_x).wf_for(cfg.n[0] as int, cfg.n[1] as int, cfg.n[2] as int),
        old(velocity_grid_y).wf_for(cfg.n[0] as int, cfg.n[1] as int, cfg.n[2] as int),
        old(velocity_grid_z).wf_for(cfg.n[0] as int, cfg.n[1] as int, cfg.n[2] as int),
        old(velocity_grid_x).dimension == 0,
        old(velocity_grid_y).dimension == 1,
        old(velocity_grid_z).dimension == 2,
    ensures
        final(velocity_grid_x).wf_for(cfg.n[0] as int, cfg.n[1] as int, cfg.n[2] as int),
        final(velocity_grid_y).wf_for(cfg.n[0] as int, cfg.n[1] as int, cfg.n[2] as int),
        final(velocity_grid_z).wf_for(cfg.n[0] as int, cfg.n[1] as int, cfg.n[2] as int),
        final(velocity_grid_x).dimension == 0,
        final(velocity_grid_y).dimension == 1,
        final(velocity_grid_z).dimension == 2,
        forall|i: int, j: int, k: int|
            0 <= i < old(velocity_grid_x).grid.nx && 0 <= j < old(velocity_grid_x).grid.ny && 0
                <= k < old(velocity_grid_x).grid.nz
                ==> #[trigger] final(velocity_grid_x).grid.at(i, j, k) == bc_point(
                *cfg,
                0,
                old(velocity_grid_x).grid.data@,
                i,
                j,
                k,
            ),
        forall|i: int, j: int, k: int|
            0 <= i < old(velocity_grid_y).grid.nx && 0 <= j < old(velocity_grid_y).grid.ny && 0
                <= k < old(velocity_grid_y).grid.nz
                ==> #[trigger] final(velocity_grid_y).grid.at(i, j, k) == bc_point(
                *cfg,
                1,
                old(velocity_grid_y).grid.data@,
                i,
                j,
                k,
            ),
        forall|i: int, j: int, k: int|
            0 <= i < old(velocity_grid_z).grid.nx && 0 <= j < old(velocity_grid_z).grid.ny && 0
                <= k < old(velocity_grid_z).grid.nz
                ==> #[trigger] final(velocity_grid_z).grid.at(i, j, k) == bc_point(
                *cfg,
                2,
                old(velocity_grid_z).grid.data@,
                i,
                j,
                k,
            ),
{
    let ghost s0x = old(velocity_grid_x).grid.data@;
    let ghost s0y = old(velocity_grid_y).grid.data@;
    let ghost s0z = old(velocity_grid_z).grid.data@;
    set_boundary_conditions_of_two_parallel_walls(
        cfg,
        velocity_grid_x,
        velocity_grid_y,
        velocity_grid_z,
        0,
    );
    let ghost s1x = velocity_grid_x.grid.data@;
    let ghost s1y = velocity_grid_y.grid.data@;
    let ghost s1z = velocity_grid_z.grid.data@;
    proof {
        assert forall|i: int, j: int, k: int|
            0 <= i < velocity_grid_x.grid.nx && 0 <= j < velocity_grid_x.grid.ny && 0 <= k
                < velocity_grid_x.grid.nz implies #[trigger] sq_at(s1x, vny(*cfg, 0), vnz(*cfg, 0), i, j, k)
            == bc_g0(*cfg, 0, s0x, 0, i, j, k) by {
            assert(velocity_grid_x.grid.at(i, j, k) == sq_at(s1x, vny(*cfg, 0), vnz(*cfg, 0), i, j, k));
        }
        assert forall|i: int, j: int, k: int|
            0 <= i < velocity_grid_y.grid.nx && 0 <= j < velocity_grid_y.grid.ny && 0 <= k
                < velocity_grid_y.grid.nz implies #[trigger] sq_at(s1y, vny(*cfg, 1), vnz(*cfg, 1), i, j, k)
            == bc_g0(*cfg, 1, s0y, 0, i, j, k) by {
            assert(velocity_grid_y.grid.at(i, j, k) == sq_at(s1y, vny(*cfg, 1), vnz(*cfg, 1), i, j, k));
        }
        assert forall|i: int, j: int, k: int|
            0 <= i < velocity_grid_z.grid.nx && 0 <= j < velocity_grid_z.grid.ny && 0 <= k
                < velocity_grid_z.grid.nz implies #[trigger] sq_at(s1z, vny(*cfg, 2), vnz(*cfg, 2), i, j, k)
            == bc_g0(*cfg, 2, s0z, 0, i, j, k) by {
            assert(velocity_grid_z.grid.at(i, j, k) == sq_at(s1z, vny(*cfg, 2), vnz(*cfg, 2), i, j, k));
        }
    }
    set_boundary_conditions_of_two_parallel_walls(
        cfg,
        velocity_grid_y,
        velocity_grid_x,
        velocity_grid_z,
        0,
    );
    let ghost s2x = velocity_grid_x.grid.data@;
    let ghost s2y = velocity_grid_y.grid.data@;
    let ghost s2z = velocity_grid_z.grid.data@;
    proof {
        assert forall|i: int, j: int, k: int|
            0 <= i < velocity_grid_x.grid.nx && 0 <= j < velocity_grid_x.grid.ny && 0 <= k
                < velocity_grid_x.grid.nz implies #[trigger] sq_at(s2x, vny(*cfg, 0), vnz(*cfg, 0), i, j, k)
            == bc_g1(*cfg, 0, s0x, 0, i, j, k) by {
            assert(velocity_grid_x.grid.at(i, j, k) == sq_at(s2x, vny(*cfg, 0), vnz(*cfg, 0), i, j, k));
            if j == 0 {
                assert(sq_at(s1x, vny(*cfg, 0), vnz(*cfg, 0), i, 1, k) == bc_g0(*cfg, 0, s0x, 0, i, 1, k));
            }
            if j == cfg.n[1] + 1 {
                assert(sq_at(s1x, vny(*cfg, 0), vnz(*cfg, 0), i, j - 1, k) == bc_g0(
                    *cfg, 0, s0x, 0, i, j - 1, k));
            }
        }
        assert forall|i: int, j: int, k: int|
            0 <= i < velocity_grid_y.grid.nx && 0 <= j < velocity_grid_y.grid.ny && 0 <= k
                < velocity_grid_y.grid.nz implies #[trigger] sq_at(s2y, vny(*cfg, 1), vnz(*cfg, 1), i, j, k)
            == bc_g1(*cfg, 1, s0y, 0, i, j, k) by {
            assert(velocity_grid_y.grid.at(i, j, k) == sq_at(s2y, vny(*cfg, 1), vnz(*cfg, 1), i, j, k));
        }
        assert forall|i: int, j: int, k: int|
            0 <= i < velocity_grid_z.grid.nx && 0 <= j < velocity_grid_z.grid.ny && 0 <= k
                < velocity_grid_z.grid.nz implies #[trigger] sq_at(s2z, vny(*cfg, 2), vnz(*cfg, 2), i, j, k)
            == bc_g1(*cfg, 2, s0z, 0, i, j, k) by {
            assert(velocity_grid_z.grid.at(i, j, k) == sq_at(s2z, vny(*cfg, 2), vnz(*cfg, 2), i, j, k));
            if j == 0 {
                assert(sq_at(s1z, vny(*cfg, 2), vnz(*cfg, 2), i, 1, k) == bc_g0(*cfg, 2, s0z, 0, i, 1, k));
            }
            if j == cfg.n[1] + 1 {
                assert(sq_at(s1z, vny(*cfg, 2), vnz(*cfg, 2), i, j - 1, k) == bc_g0(
                    *cfg, 2, s0z, 0, i, j - 1, k));
            }
        }
    }
    set_boundary_conditions_of_two_parallel_walls(
        cfg,
        velocity_grid_z,
        velocity_grid_x,
        velocity_grid_y,
        0,
    );
    proof {
        assert forall|i: int, j: int, k: int|
            0 <= i < velocity_grid_x.grid.nx && 0 <= j < velocity_grid_x.grid.ny && 0 <= k
                < velocity_grid_x.grid.nz implies #[trigger] velocity_grid_x.grid.at(i, j, k)
            == bc_g2(*cfg, 0, s0x, 0, i, j, k) by {
            if k == 0 {
                assert(sq_at(s2x, vny(*cfg, 0), vnz(*cfg, 0), i, j, 1) == bc_g1(*cfg, 0, s0x, 0, i, j, 1));
            }
            if k == cfg.n[2] + 1 {
                assert(sq_at(s2x, vny(*cfg, 0), vnz(*cfg, 0), i, j, k - 1) == bc_g1(
                    *cfg, 0, s0x, 0, i, j, k - 1));
            }
        }
        assert forall|i: int, j: int, k: int|
            0 <= i < velocity_grid_y.grid.nx && 0 <= j < velocity_grid_y.grid.ny && 0 <= k
                < velocity_grid_y.grid.nz implies #[trigger] velocity_grid_y.grid.at(i, j, k)
            == bc_g2(*cfg, 1, s0y, 0, i, j, k) by {
            if k == 0 {
                assert(sq_at(s2y, vny(*cfg, 1), vnz(*cfg, 1), i, j, 1) == bc_g1(*cfg, 1, s0y, 0, i, j, 1));
            }
            if k == cfg.n[2] + 1 {
                assert(sq_at(s2y, vny(*cfg, 1), vnz(*cfg, 1), i, j, k - 1) == bc_g1(
                    *cfg, 1, s0y, 0, i, j, k - 1));
            }
        }
        assert forall|i: int, j: int, k: int|
            0 <= i < velocity_grid_z.grid.nx && 0 <= j < velocity_grid_z.grid.ny && 0 <= k
                < velocity_grid_z.grid.nz implies #[trigger] velocity_grid_z.grid.at(i, j, k)
            == bc_g2(*cfg, 2, s0z, 0, i, j, k) by {}
    }
    let mut m: usize = 0;
    while m < cfg.inflows.len()
        invariant
            cfg.valid(),
            velocity_grid_x.wf_for(cfg.n[0] as int, cfg.n[1] as int, cfg.n[2] as int),
            velocity_grid_y.wf_for(cfg.n[0] as int, cfg.n[1] as int, cfg.n[2] as int),
            velocity_grid_z.wf_for(cfg.n[0] as int, cfg.n[1] as int, cfg.n[2] as int),
            velocity_grid_x.dimension == 0,
            velocity_grid_y.dimension == 1,
            velocity_grid_z.dimension == 2,
            m <= cfg.inflows.len(),
            forall|i: int, j: int, k: int|
                0 <= i < velocity_grid_x.grid.nx && 0 <= j < velocity_grid_x.grid.ny && 0 <= k
                    < velocity_grid_x.grid.nz ==> #[trigger] velocity_grid_x.grid.at(i, j, k)
                    == bc_inflow(*cfg, 0, s0x, 0, m as int, i, j, k),
            forall|i: int, j: int, k: int|
                0 <= i < velocity_grid_y.grid.nx && 0 <= j < velocity_grid_y.grid.ny && 0 <= k
                    < velocity_grid_y.grid.nz ==> #[trigger] velocity_grid_y.grid.at(i, j, k)
                    == bc_inflow(*cfg, 1, s0y, 0, m as int, i, j, k),
            forall|i: int, j: int, k: int|
                0 <= i < velocity_grid_z.grid.nx && 0 <= j < velocity_grid_z.grid.ny && 0 <= k
                    < velocity_grid_z.grid.nz ==> #[trigger] velocity_grid_z.grid.at(i, j, k)
                    == bc_inflow(*cfg, 2, s0z, 0, m as int, i, j, k),
        decreases cfg.inflows.len() - m,
    {
        let f = &cfg.inflows[m];
        let flow = f.rate(time_step);
        proof {
            assert(cfg.inflow_ok(cfg.inflows[m as int]));
            assert(f.min[0] <= f.max[0] && f.min[1] <= f.max[1] && f.min[2] <= f.max[2]);
            assert(0 != f.axis as int ==> f.max[0] < cfg.n[0]);
            assert(1 != f.axis as int ==> f.max[1] < cfg.n[1]);
            assert(2 != f.axis as int ==> f.max[2] < cfg.n[2]);
        }
        if f.axis == 0 {
            create_inflow_or_outflow(
                velocity_grid_x,
                velocity_grid_y,
                velocity_grid_z,
                f.min,
                f.max,
                flow,
            );
        } else if f.axis == 1 {
            create_inflow_or_outflow(
                velocity_grid_y,
                velocity_grid_x,
                velocity_grid_z,
                f.min,
                f.max,
                flow,
            );
        } else {
            create_inflow_or_outflow(
                velocity_grid_z,
                velocity_grid_x,
                velocity_grid_y,
                f.min,
                f.max,
                flow,
            );
        }
        m += 1;
    }
}

} // verus!
