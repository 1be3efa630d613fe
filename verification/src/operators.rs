//! Finite-difference stencils.
//!
//! Pure functions over a field plus integer coordinates, all with the fixed
//! grid spacing `h`.  Callers must keep every stencil footprint inside the
//! allocation; the ghost layers maintained by the boundary-condition engine
//! exist precisely so that interior sweeps satisfy these bounds.
//!
//! Each executable stencil returns exactly the value of its spec mirror,
//! which reads the field through [`sq_at`] and composes the fixed-point
//! operations in the same order as the code.

use vstd::prelude::*;

use crate::config::{CMAX, MIN_H};
use crate::fixed::{
    add_fp, div_fp, fp_add, fp_div, fp_mul, fp_sub, in_range, lemma_fp_mul_ge_one, mul_fp, sub_fp,
    SCALE,
};
use crate::grid::{flat3, get_dimension, unit, Field, VelocityGrid};

verus! {

/// Value of a row-major grid at `(i, j, k)`.
pub open spec fn sq_at(s: Seq<i64>, ny: int, nz: int, i: int, j: int, k: int) -> int {
    s[flat3(i, j, k, ny, nz)] as int
}

/// `(f[p+d] - f[p-d]) / 2h`: second-order accurate first derivative along
/// dimension `d`, used by the convection terms.
pub open spec fn central_diff_spec(
    s: Seq<i64>,
    ny: int,
    nz: int,
    x: int,
    y: int,
    z: int,
    d: int,
    h: int,
) -> int {
    fp_div(
        fp_sub(
            sq_at(s, ny, nz, x + unit(d, 0), y + unit(d, 1), z + unit(d, 2)),
            sq_at(s, ny, nz, x - unit(d, 0), y - unit(d, 1), z - unit(d, 2)),
        ),
        2 * h,
    )
}

/// Forward difference along the field's own axis `a`, evaluated at the
/// velocity coordinates of pressure cell `(x, y, z)`: the discrete
/// divergence contribution of one component.
pub open spec fn forward_diff_spec(
    s: Seq<i64>,
    ny: int,
    nz: int,
    x: int,
    y: int,
    z: int,
    a: int,
    h: int,
) -> int {
    fp_div(
        fp_sub(
            sq_at(s, ny, nz, x + 1, y + 1, z + 1),
            sq_at(s, ny, nz, x + 1 - unit(a, 0), y + 1 - unit(a, 1), z + 1 - unit(a, 2)),
        ),
        h,
    )
}

/// Forward difference of the pressure field between neighbour cells along
/// dimension `d`, divided by `h`.
pub open spec fn pgrad_spec(
    s: Seq<i64>,
    ny: int,
    nz: int,
    x: int,
    y: int,
    z: int,
    d: int,
    h: int,
) -> int {
    fp_div(
        fp_sub(sq_at(s, ny, nz, x + unit(d, 0), y + unit(d, 1), z + unit(d, 2)), sq_at(s, ny, nz, x, y, z)),
        h,
    )
}

/// `(f[p+d] - 2 f[p] + f[p-d]) / h^2`: second derivative along `d`.
pub open spec fn second_diff_spec(
    s: Seq<i64>,
    ny: int,
    nz: int,
    x: int,
    y: int,
    z: int,
    d: int,
    h: int,
) -> int {
    fp_div(
        fp_add(
            fp_sub(
                sq_at(s, ny, nz, x + unit(d, 0), y + unit(d, 1), z + unit(d, 2)),
                fp_add(sq_at(s, ny, nz, x, y, z), sq_at(s, ny, nz, x, y, z)),
            ),
            sq_at(s, ny, nz, x - unit(d, 0), y - unit(d, 1), z - unit(d, 2)),
        ),
        fp_mul(h, h),
    )
}

/// Sum of the three second derivatives: the 7-point discrete Laplacian.
pub open spec fn laplacian_spec(s: Seq<i64>, ny: int, nz: int, x: int, y: int, z: int, h: int) -> int {
    fp_add(
        fp_add(second_diff_spec(s, ny, nz, x, y, z, 0, h), second_diff_spec(s, ny, nz, x, y, z, 1, h)),
        second_diff_spec(s, ny, nz, x, y, z, 2, h),
    )
}

/// Quarter of one unit, for the 4-point interpolation below.
pub const QUARTER: i64 = 250_000_000;

/// Bilinear average of the 4 samples of a field staggered along `from`
/// around the stencil location of a field staggered along `to`.
pub open spec fn orthogonal_average_spec(
    s: Seq<i64>,
    ny: int,
    nz: int,
    x: int,
    y: int,
    z: int,
    from: int,
    to: int,
) -> int {
    fp_mul(
        QUARTER as int,
        fp_add(
            fp_add(
                fp_add(
                    sq_at(s, ny, nz, x - unit(from, 0), y - unit(from, 1), z - unit(from, 2)),
                    sq_at(
                        s,
                        ny,
                        nz,
                        x - unit(from, 0) + unit(to, 0),
                        y - unit(from, 1) + unit(to, 1),
                        z - unit(from, 2) + unit(to, 2),
                    ),
                ),
                sq_at(s, ny, nz, x, y, z),
            ),
            sq_at(s, ny, nz, x + unit(to, 0), y + unit(to, 1), z + unit(to, 2)),
        ),
    )
}

/// Orthogonal averaging symmetry: the 4-point interpolation is odd,
/// truncation included.  If the four stencil samples at one point are
/// exactly the negations of the four at another — as on a field that is
/// odd under mirroring across the two interpolated axes — then the
/// averages at the two points are exact opposites.
pub proof fn lemma_orthogonal_average_antisymmetric(
    s: Seq<i64>,
    ny: int,
    nz: int,
    x: int,
    y: int,
    z: int,
    x2: int,
    y2: int,
    z2: int,
    from: int,
    to: int,
)
    requires
        sq_at(s, ny, nz, x2 - unit(from, 0), y2 - unit(from, 1), z2 - unit(from, 2)) == -sq_at(
            s,
            ny,
            nz,
            x - unit(from, 0),
            y - unit(from, 1),
            z - unit(from, 2),
        ),
        sq_at(
            s,
            ny,
            nz,
            x2 - unit(from, 0) + unit(to, 0),
            y2 - unit(from, 1) + unit(to, 1),
            z2 - unit(from, 2) + unit(to, 2),
        ) == -sq_at(
            s,
            ny,
            nz,
            x - unit(from, 0) + unit(to, 0),
            y - unit(from, 1) + unit(to, 1),
            z - unit(from, 2) + unit(to, 2),
        ),
        sq_at(s, ny, nz, x2, y2, z2) == -sq_at(s, ny, nz, x, y, z),
        sq_at(s, ny, nz, x2 + unit(to, 0), y2 + unit(to, 1), z2 + unit(to, 2)) == -sq_at(
            s,
            ny,
            nz,
            x + unit(to, 0),
            y + unit(to, 1),
            z + unit(to, 2),
        ),
    ensures
        orthogonal_average_spec(s, ny, nz, x2, y2, z2, from, to) == -orthogonal_average_spec(
            s,
            ny,
            nz,
            x,
            y,
            z,
            from,
            to,
        ),
{
    let sum = fp_add(
        fp_add(
            fp_add(
                sq_at(s, ny, nz, x - unit(from, 0), y - unit(from, 1), z - unit(from, 2)),
                sq_at(
                    s,
                    ny,
                    nz,
                    x - unit(from, 0) + unit(to, 0),
                    y - unit(from, 1) + unit(to, 1),
                    z - unit(from, 2) + unit(to, 2),
                ),
            ),
            sq_at(s, ny, nz, x, y, z),
        ),
        sq_at(s, ny, nz, x + unit(to, 0), y + unit(to, 1), z + unit(to, 2)),
    );
    let sum2 = fp_add(
        fp_add(
            fp_add(
                sq_at(s, ny, nz, x2 - unit(from, 0), y2 - unit(from, 1), z2 - unit(from, 2)),
                sq_at(
                    s,
                    ny,
                    nz,
                    x2 - unit(from, 0) + unit(to, 0),
                    y2 - unit(from, 1) + unit(to, 1),
                    z2 - unit(from, 2) + unit(to, 2),
                ),
            ),
            sq_at(s, ny, nz, x2, y2, z2),
        ),
        sq_at(s, ny, nz, x2 + unit(to, 0), y2 + unit(to, 1), z2 + unit(to, 2)),
    );
    assert(sum2 == -sum);
    vstd::arithmetic::div_mod::lemma_div_of0(SCALE as int);
    assert((QUARTER as int) * sum2 == -((QUARTER as int) * sum)) by (nonlinear_arith)
        requires
            sum2 == -sum,
    ;
}

/// Central first derivative of `f` along `dimension_number`.
pub fn central_first_derivative(
    f: &VelocityGrid,
    x: usize,
    y: usize,
    z: usize,
    dimension_number: usize,
    h: i64,
) -> (r: i64)
    requires
        f.grid.wf(),
        dimension_number < 3,
        0 < h <= CMAX,
        unit(dimension_number as int, 0) <= x as int,
        unit(dimension_number as int, 1) <= y as int,
        unit(dimension_number as int, 2) <= z as int,
        x as int + unit(dimension_number as int, 0) < f.grid.nx,
        y as int + unit(dimension_number as int, 1) < f.grid.ny,
        z as int + unit(dimension_number as int, 2) < f.grid.nz,
    ensures
        r as int == central_diff_spec(
            f.grid.data@,
            f.grid.ny as int,
            f.grid.nz as int,
            x as int,
            y as int,
            z as int,
            dimension_number as int,
            h as int,
        ),
        in_range(r as int),
{
    let dim = get_dimension(dimension_number);
    let a = f.grid.get(x + dim[0], y + dim[1], z + dim[2]);
    let b = f.grid.get(x - dim[0], y - dim[1], z - dim[2]);
    div_fp(sub_fp(a, b), 2 * h)
}

/// Forward first derivative of `f` along its own axis, at the velocity
/// coordinates of pressure cell `(x, y, z)`.
pub fn forward_first_derivative(f: &VelocityGrid, x: usize, y: usize, z: usize, h: i64) -> (r: i64)
    requires
        f.grid.wf(),
        f.dimension < 3,
        0 < h <= CMAX,
        x as int + 1 < f.grid.nx,
        y as int + 1 < f.grid.ny,
        z as int + 1 < f.grid.nz,
    ensures
        r as int == forward_diff_spec(
            f.grid.data@,
            f.grid.ny as int,
            f.grid.nz as int,
            x as int,
            y as int,
            z as int,
            f.dimension as int,
            h as int,
        ),
        in_range(r as int),
{
    let dim = get_dimension(f.dimension);
    let a = f.grid.get(x + 1, y + 1, z + 1);
    let b = f.grid.get(x + 1 - dim[0], y + 1 - dim[1], z + 1 - dim[2]);
    div_fp(sub_fp(a, b), h)
}

/// Forward difference of the pressure between neighbour cells along
/// `dimension_number`, divided by `h`.
pub fn pressure_gradient_component(
    p: &Field,
    x: usize,
    y: usize,
    z: usize,
    dimension_number: usize,
    h: i64,
) -> (r: i64)
    requires
        p.wf(),
        dimension_number < 3,
        0 < h <= CMAX,
        x as int + unit(dimension_number as int, 0) < p.nx,
        y as int + unit(dimension_number as int, 1) < p.ny,
        z as int + unit(dimension_number as int, 2) < p.nz,
    ensures
        r as int == pgrad_spec(
            p.data@,
            p.ny as int,
            p.nz as int,
            x as int,
            y as int,
            z as int,
            dimension_number as int,
            h as int,
        ),
        in_range(r as int),
{
    let dim = get_dimension(dimension_number);
    let a = p.get(x + dim[0], y + dim[1], z + dim[2]);
    let b = p.get(x, y, z);
    div_fp(sub_fp(a, b), h)
}

/// Second derivative of `f` along `dimension_number`.
pub fn second_derivative(
    f: &VelocityGrid,
    x: usize,
    y: usize,
    z: usize,
    dimension_number: usize,
    h: i64,
) -> (r: i64)
    requires
        f.grid.wf(),
        dimension_number < 3,
        MIN_H <= h <= CMAX,
        unit(dimension_number as int, 0) <= x as int,
        unit(dimension_number as int, 1) <= y as int,
        unit(dimension_number as int, 2) <= z as int,
        x as int + unit(dimension_number as int, 0) < f.grid.nx,
        y as int + unit(dimension_number as int, 1) < f.grid.ny,
        z as int + unit(dimension_number as int, 2) < f.grid.nz,
    ensures
        r as int == second_diff_spec(
            f.grid.data@,
            f.grid.ny as int,
            f.grid.nz as int,
            x as int,
            y as int,
            z as int,
            dimension_number as int,
            h as int,
        ),
        in_range(r as int),
{
    let dim = get_dimension(dimension_number);
    let a = f.grid.get(x + dim[0], y + dim[1], z + dim[2]);
    let c = f.grid.get(x, y, z);
    let b = f.grid.get(x - dim[0], y - dim[1], z - dim[2]);
    let hh = mul_fp(h, h);
    proof {
        assert((h as int) * (h as int) >= SCALE as int) by (nonlinear_arith)
            requires
                MIN_H as int <= h as int,
        ;
        lemma_fp_mul_ge_one(h as int, h as int);
    }
    div_fp(add_fp(sub_fp(a, add_fp(c, c)), b), hh)
}

/// Discrete Laplacian of `f` at `(x, y, z)`.
pub fn laplacian(f: &VelocityGrid, x: usize, y: usize, z: usize, h: i64) -> (r: i64)
    requires
        f.grid.wf(),
        MIN_H <= h <= CMAX,
        1 <= x as int,
        1 <= y as int,
        1 <= z as int,
        x as int + 1 < f.grid.nx,
        y as int + 1 < f.grid.ny,
        z as int + 1 < f.grid.nz,
    ensures
        r as int == laplacian_spec(
            f.grid.data@,
            f.grid.ny as int,
            f.grid.nz as int,
            x as int,
            y as int,
            z as int,
            h as int,
        ),
        in_range(r as int),
{
    let d0 = second_derivative(f, x, y, z, 0, h);
    let d1 = second_derivative(f, x, y, z, 1, h);
    let d2 = second_derivative(f, x, y, z, 2, h);
    add_fp(add_fp(d0, d1), d2)
}

/// Interpolate the component stored in `orthogonal_grid` (staggered along
/// its own axis) onto the stencil location of a component staggered along
/// `other_grid_dimension`.
pub fn orthogonal_average(
    orthogonal_grid: &VelocityGrid,
    x: usize,
    y: usize,
    z: usize,
    other_grid_dimension: usize,
) -> (r: i64)
    requires
        orthogonal_grid.grid.wf(),
        orthogonal_grid.dimension < 3,
        other_grid_dimension < 3,
        unit(orthogonal_grid.dimension as int, 0) <= x as int,
        unit(orthogonal_grid.dimension as int, 1) <= y as int,
        unit(orthogonal_grid.dimension as int, 2) <= z as int,
        x as int + unit(other_grid_dimension as int, 0) < orthogonal_grid.grid.nx,
        y as int + unit(other_grid_dimension as int, 1) < orthogonal_grid.grid.ny,
        z as int + unit(other_grid_dimension as int, 2) < orthogonal_grid.grid.nz,
    ensures
        r as int == orthogonal_average_spec(
            orthogonal_grid.grid.data@,
            orthogonal_grid.grid.ny as int,
            orthogonal_grid.grid.nz as int,
            x as int,
            y as int,
            z as int,
            orthogonal_grid.dimension as int,
            other_grid_dimension as int,
        ),
        in_range(r as int),
{
    let dim_from = get_dimension(orthogonal_grid.dimension);
    let dim_to = get_dimension(other_grid_dimension);
    let a = orthogonal_grid.grid.get(x - dim_from[0], y - dim_from[1], z - dim_from[2]);
    let b = orthogonal_grid.grid.get(
        x - dim_from[0] + dim_to[0],
        y - dim_from[1] + dim_to[1],
        z - dim_from[2] + dim_to[2],
    );
    let c = orthogonal_grid.grid.get(x, y, z);
    let d = orthogonal_grid.grid.get(x + dim_to[0], y + dim_to[1], z + dim_to[2]);
    mul_fp(QUARTER, add_fp(add_fp(add_fp(a, b), c), d))
}

} // verus!
