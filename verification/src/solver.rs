//! Predictor step and pressure-correction loop.
//!
//! Each time step predicts provisional velocities explicitly from
//! convection, diffusion, pressure gradient and body force, then repeats a
//! correction cycle — compute a pressure correction from the discrete
//! divergence, project the velocities, re-impose the boundary conditions —
//! until the largest interior divergence drops below the configured
//! tolerance, or the iteration budget runs out (numerical divergence, a
//! fatal condition reported to the caller).
//!
//! The spec functions here restate every sweep pointwise, so the time-step
//! routine can promise exactly which fields it leaves behind.

use vstd::prelude::*;

use crate::boundary::{bc_stage, vnx, vny, vnz};
use crate::config::SimConfig;
use crate::fixed::{
    add_fp, div_fp, fp_abs, fp_add, fp_div, fp_mul, fp_neg, fp_of_int, fp_sub, in_range,
    lemma_fp_mul_of_int, mul_fp, neg_fp, sub_fp, FP_MAX, SCALE,
};
use crate::grid::{lex3, unit, Field, VelocityGrid, get_dimension};
use crate::operators::{
    central_diff_spec, central_first_derivative, laplacian, laplacian_spec, orthogonal_average,
    orthogonal_average_spec, pgrad_spec, pressure_gradient_component, sq_at,
};

verus! {

/// A time step that exhausts its iteration budget without meeting the
/// divergence tolerance has diverged; the run cannot continue.
#[derive(Clone, Copy, Debug, PartialEq, Eq, Structural)]
pub enum StepError {
    NumericalDivergence,
}

/// Interior sweep domain of the axis-`a` component: everything except the
/// boundary ring that the boundary-condition engine owns.
pub open spec fn vinterior(cfg: SimConfig, a: int, i: int, j: int, k: int) -> bool {
    &&& 1 <= i <= cfg.n[0] - unit(a, 0)
    &&& 1 <= j <= cfg.n[1] - unit(a, 1)
    &&& 1 <= k <= cfg.n[2] - unit(a, 2)
}

/// Convection term of the axis-`a` component at `(x, y, z)`:
/// `rho * (v dv/da + u_a dv/daa + u_b dv/dab)`, the cross components
/// interpolated onto this stencil by `orthogonal_average`.
pub open spec fn convection_spec(
    cfg: SimConfig,
    a: int,
    aa: int,
    ab: int,
    v: Seq<i64>,
    va: Seq<i64>,
    vb: Seq<i64>,
    x: int,
    y: int,
    z: int,
) -> int {
    fp_mul(
        cfg.rho as int,
        fp_add(
            fp_add(
                fp_mul(
                    sq_at(v, vny(cfg, a), vnz(cfg, a), x, y, z),
                    central_diff_spec(v, vny(cfg, a), vnz(cfg, a), x, y, z, a, cfg.h as int),
                ),
                fp_mul(
                    orthogonal_average_spec(va, vny(cfg, aa), vnz(cfg, aa), x, y, z, aa, a),
                    central_diff_spec(v, vny(cfg, a), vnz(cfg, a), x, y, z, aa, cfg.h as int),
                ),
            ),
            fp_mul(
                orthogonal_average_spec(vb, vny(cfg, ab), vnz(cfg, ab), x, y, z, ab, a),
                central_diff_spec(v, vny(cfg, a), vnz(cfg, a), x, y, z, ab, cfg.h as int),
            ),
        ),
    )
}

/// Provisional velocity of the axis-`a` component at `(x, y, z)`:
/// `v + dt/rho * (-convection - dp/da + nu * laplacian + rho * force[a])`.
pub open spec fn predict_point(
    cfg: SimConfig,
    a: int,
    aa: int,
    ab: int,
    v: Seq<i64>,
    va: Seq<i64>,
    vb: Seq<i64>,
    p: Seq<i64>,
    x: int,
    y: int,
    z: int,
) -> int {
    fp_add(
        sq_at(v, vny(cfg, a), vnz(cfg, a), x, y, z),
        fp_mul(
            fp_div(cfg.dt as int, cfg.rho as int),
            fp_add(
                fp_add(
                    fp_sub(
                        fp_neg(convection_spec(cfg, a, aa, ab, v, va, vb, x, y, z)),
                        pgrad_spec(
                            p,
                            cfg.n[1] as int,
                            cfg.n[2] as int,
                            x - 1,
                            y - 1,
                            z - 1,
                            a,
                            cfg.h as int,
                        ),
                    ),
                    fp_mul(
                        cfg.nu as int,
                        laplacian_spec(v, vny(cfg, a), vnz(cfg, a), x, y, z, cfg.h as int),
                    ),
                ),
                fp_mul(cfg.rho as int, cfg.force[a] as int),
            ),
        ),
    )
}

/// Hydrostatic initial pressure: the reference pressure plus the per-cell
/// increment of the water column above, so that neighbouring cells along
/// the z axis differ by exactly minus the increment.
#[verifier::loop_isolation(false)]
pub fn initialize_pressure_grid(cfg: &SimConfig) -> (p: Field)
    requires
        cfg.valid(),
    ensures
        p.wf(),
        p.nx == cfg.n[0],
        p.ny == cfg.n[1],
        p.nz == cfg.n[2],
        forall|i: int, j: int, k: int|
            0 <= i < cfg.n[0] && 0 <= j < cfg.n[1] && 0 <= k < cfg.n[2] ==> #[trigger] p.at(
                i,
                j,
                k,
            ) == cfg.p_atm + cfg.hydro_c() * (cfg.n[2] - k),
{
    let c = mul_fp(mul_fp(cfg.rho, cfg.h), cfg.force[2]);
    let mut p = Field::new_filled(cfg.n[0], cfg.n[1], cfg.n[2], 0);
    let mut x: usize = 0;
    while x < cfg.n[0]
        invariant
            p.wf(),
            p.nx == cfg.n[0],
            p.ny == cfg.n[1],
            p.nz == cfg.n[2],
            x <= cfg.n[0],
            forall|i: int, j: int, k: int|
                0 <= i < cfg.n[0] && 0 <= j < cfg.n[1] && 0 <= k < cfg.n[2] && lex3(i, j, k,
                x as int, 0, 0) ==> #[trigger] p.at(i, j, k) == cfg.p_atm + cfg.hydro_c() * (
                cfg.n[2] - k),
        decreases cfg.n[0] - x,
    {
        let mut y: usize = 0;
        while y < cfg.n[1]
            invariant
                p.wf(),
                p.nx == cfg.n[0],
                p.ny == cfg.n[1],
                p.nz == cfg.n[2],
                x < cfg.n[0],
                y <= cfg.n[1],
                forall|i: int, j: int, k: int|
                    0 <= i < cfg.n[0] && 0 <= j < cfg.n[1] && 0 <= k < cfg.n[2] && lex3(i, j, k,
                    x as int, y as int, 0) ==> #[trigger] p.at(i, j, k) == cfg.p_atm
                    + cfg.hydro_c() * (cfg.n[2] - k),
            decreases cfg.n[1] - y,
        {
            let mut z: usize = 0;
            while z < cfg.n[2]
                invariant
                    p.wf(),
                    p.nx == cfg.n[0],
                    p.ny == cfg.n[1],
                    p.nz == cfg.n[2],
                    x < cfg.n[0],
                    y < cfg.n[1],
                    z <= cfg.n[2],
                    forall|i: int, j: int, k: int|
                        0 <= i < cfg.n[0] && 0 <= j < cfg.n[1] && 0 <= k < cfg.n[2] && lex3(i, j,
                        k, x as int, y as int, z as int) ==> #[trigger] p.at(i, j, k) == cfg.p_atm
                        + cfg.hydro_c() * (cfg.n[2] - k),
                decreases cfg.n[2] - z,
            {
                let m: i64 = (cfg.n[2] - z) as i64;
                let v = add_fp(cfg.p_atm, mul_fp(c, crate::fixed::of_int_fp(m)));
                proof {
                    lemma_hydro_point(*cfg, m as int);
                }
                p.set(x, y, z, v);
                z += 1;
            }
            y += 1;
        }
        x += 1;
    }
    p
}

/// One cell of the hydrostatic profile evaluates without truncation or
/// saturation: the scaled product is exact and the sum stays in band.
proof fn lemma_hydro_point(cfg: SimConfig, m: int)
    requires
        cfg.valid(),
        1 <= m <= cfg.n[2],
    ensures
        fp_add(cfg.p_atm as int, fp_mul(cfg.hydro_c(), fp_of_int(m))) == cfg.p_atm
            + cfg.hydro_c() * m,
{
    let c = cfg.hydro_c();
    assert(in_range(m * (SCALE as int))) by (nonlinear_arith)
        requires
            1 <= m <= 1000,
    ;
    lemma_fp_mul_of_int(c, m);
    assert(-((cfg.n[2] + 1) * fp_abs(c)) <= c * m <= (cfg.n[2] + 1) * fp_abs(c))
        by (nonlinear_arith)
        requires
            1 <= m <= cfg.n[2] + 1,
            -fp_abs(c) <= c <= fp_abs(c),
            0 <= fp_abs(c),
    ;
}

/// Discrete hydrostatic balance: in a freshly initialized pressure field,
/// two cells that are vertical neighbours differ by exactly minus the
/// per-cell increment `rho * h * force_z`, at every interior point.
pub proof fn lemma_hydrostatic_balance(cfg: SimConfig, p: Field, i: int, j: int, k: int)
    requires
        cfg.valid(),
        p.nx == cfg.n[0],
        p.ny == cfg.n[1],
        p.nz == cfg.n[2],
        forall|i2: int, j2: int, k2: int|
            0 <= i2 < cfg.n[0] && 0 <= j2 < cfg.n[1] && 0 <= k2 < cfg.n[2] ==> #[trigger] p.at(
                i2,
                j2,
                k2,
            ) == cfg.p_atm + cfg.hydro_c() * (cfg.n[2] - k2),
        0 <= i < cfg.n[0],
        0 <= j < cfg.n[1],
        0 <= k,
        k + 1 < cfg.n[2],
    ensures
        p.at(i, j, k + 1) - p.at(i, j, k) == -fp_mul(
            fp_mul(cfg.rho as int, cfg.h as int),
            cfg.force[2] as int,
        ),
{
    let c = cfg.hydro_c();
    assert(c * (cfg.n[2] - (k + 1)) - c * (cfg.n[2] - k) == -c) by (nonlinear_arith);
}

/// Convection term of `velocity_field_last_time_step` at `(x, y, z)`, the
/// two cross components interpolated onto its stencil.
pub fn convection_term(
    cfg: &SimConfig,
    velocity_field_last_time_step: &VelocityGrid,
    orthogonal_velocity_field_a: &VelocityGrid,
    orthogonal_velocity_field_b: &VelocityGrid,
    x: usize,
    y: usize,
    z: usize,
) -> (r: i64)
    requires
        cfg.valid(),
        velocity_field_last_time_step.wf_for(cfg.n[0] as int, cfg.n[1] as int, cfg.n[2] as int),
        orthogonal_velocity_field_a.wf_for(cfg.n[0] as int, cfg.n[1] as int, cfg.n[2] as int),
        orthogonal_velocity_field_b.wf_for(cfg.n[0] as int, cfg.n[1] as int, cfg.n[2] as int),
        velocity_field_last_time_step.dimension != orthogonal_velocity_field_a.dimension,
        velocity_field_last_time_step.dimension != orthogonal_velocity_field_b.dimension,
        orthogonal_velocity_field_a.dimension != orthogonal_velocity_field_b.dimension,
        vinterior(
            *cfg,
            velocity_field_last_time_step.dimension as int,
            x as int,
            y as int,
            z as int,
        ),
    ensures
        r as int == convection_spec(
            *cfg,
            velocity_field_last_time_step.dimension as int,
            orthogonal_velocity_field_a.dimension as int,
            orthogonal_velocity_field_b.dimension as int,
            velocity_field_last_time_step.grid.data@,
            orthogonal_velocity_field_a.grid.data@,
            orthogonal_velocity_field_b.grid.data@,
            x as int,
            y as int,
            z as int,
        ),
        in_range(r as int),
{
    let vc = velocity_field_last_time_step.grid.get(x, y, z);
    let d_own = central_first_derivative(
        velocity_field_last_time_step,
        x,
        y,
        z,
        velocity_field_last_time_step.dimension,
        cfg.h,
    );
    let ua = orthogonal_average(
        orthogonal_velocity_field_a,
        x,
        y,
        z,
        velocity_field_last_time_step.dimension,
    );
    let d_a = central_first_derivative(
        velocity_field_last_time_step,
        x,
        y,
        z,
        orthogonal_velocity_field_a.dimension,
        cfg.h,
    );
    let ub = orthogonal_average(
        orthogonal_velocity_field_b,
        x,
        y,
        z,
        velocity_field_last_time_step.dimension,
    );
    let d_b = central_first_derivative(
        velocity_field_last_time_step,
        x,
        y,
        z,
        orthogonal_velocity_field_b.dimension,
        cfg.h,
    );
    mul_fp(cfg.rho, add_fp(add_fp(mul_fp(vc, d_own), mul_fp(ua, d_a)), mul_fp(ub, d_b)))
}

/// Predict the provisional velocity field for the axis of
/// `provisonal_velocity_field` at every interior point, from the committed
/// fields of the last time step and the current pressure.
#[verifier::rlimit(60)]
#[verifier::loop_isolation(false)]
pub fn predict_velocity(
    cfg: &SimConfig,
    provisonal_velocity_field: &mut VelocityGrid,
    velocity_field_last_time_step: &VelocityGrid,
    orthogonal_velocity_field_a: &VelocityGrid,
    orthogonal_velocity_field_b: &VelocityGrid,
    pressure_grid: &Field,
)
    requires
        cfg.valid(),
        old(provisonal_velocity_field).wf_for(cfg.n[0] as int, cfg.n[1] as int, cfg.n[2] as int),
        velocity_field_last_time_step.wf_for(cfg.n[0] as int, cfg.n[1] as int, cfg.n[2] as int),
        orthogonal_velocity_field_a.wf_for(cfg.n[0] as int, cfg.n[1] as int, cfg.n[2] as int),
        orthogonal_velocity_field_b.wf_for(cfg.n[0] as int, cfg.n[1] as int, cfg.n[2] as int),
        old(provisonal_velocity_field).dimension
            == velocity_field_last_time_step.dimension,
        velocity_field_last_time_step.dimension != orthogonal_velocity_field_a.dimension,
        velocity_field_last_time_step.dimension != orthogonal_velocity_field_b.dimension,
        orthogonal_velocity_field_a.dimension != orthogonal_velocity_field_b.dimension,
        pressure_grid.wf(),
        pressure_grid.nx == cfg.n[0],
        pressure_grid.ny == cfg.n[1],
        pressure_grid.nz == cfg.n[2],
    ensures
        final(provisonal_velocity_field).wf_for(
            cfg.n[0] as int,
            cfg.n[1] as int,
            cfg.n[2] as int,
        ),
        final(provisonal_velocity_field).dimension == old(provisonal_velocity_field).dimension,
        forall|i: int, j: int, k: int|
            0 <= i < old(provisonal_velocity_field).grid.nx && 0 <= j < old(
                provisonal_velocity_field,
            ).grid.ny && 0 <= k < old(provisonal_velocity_field).grid.nz
                ==> #[trigger] final(provisonal_velocity_field).grid.at(i, j, k)
                == if vinterior(
                *cfg,
                old(provisonal_velocity_field).dimension as int,
                i,
                j,
                k,
            ) {
                predict_point(
                    *cfg,
                    velocity_field_last_time_step.dimension as int,
                    orthogonal_velocity_field_a.dimension as int,
                    orthogonal_velocity_field_b.dimension as int,
                    velocity_field_last_time_step.grid.data@,
                    orthogonal_velocity_field_a.grid.data@,
                    orthogonal_velocity_field_b.grid.data@,
                    pressure_grid.data@,
                    i,
                    j,
                    k,
                )
            } else {
                old(provisonal_velocity_field).grid.at(i, j, k)
            },
{
    let dim = get_dimension(provisonal_velocity_field.dimension);
    let hi0: usize = cfg.n[0] - dim[0] + 1;
    let hi1: usize = cfg.n[1] - dim[1] + 1;
    let hi2: usize = cfg.n[2] - dim[2] + 1;
    let mut x: usize = 1;
    while x < hi0
        invariant
            provisonal_velocity_field.wf_for(cfg.n[0] as int, cfg.n[1] as int, cfg.n[2] as int),
            provisonal_velocity_field.dimension == old(provisonal_velocity_field).dimension,
            1 <= x <= hi0,
            forall|i: int, j: int, k: int|
                0 <= i < provisonal_velocity_field.grid.nx && 0 <= j
                    < provisonal_velocity_field.grid.ny && 0 <= k
                    < provisonal_velocity_field.grid.nz
                    ==> #[trigger] provisonal_velocity_field.grid.at(i, j, k) == if vinterior(
                    *cfg,
                    old(provisonal_velocity_field).dimension as int,
                    i,
                    j,
                    k,
                ) && lex3(i, j, k, x as int, 1, 1) {
                    predict_point(
                        *cfg,
                        velocity_field_last_time_step.dimension as int,
                        orthogonal_velocity_field_a.dimension as int,
                        orthogonal_velocity_field_b.dimension as int,
                        velocity_field_last_time_step.grid.data@,
                        orthogonal_velocity_field_a.grid.data@,
                        orthogonal_velocity_field_b.grid.data@,
                        pressure_grid.data@,
                        i,
                        j,
                        k,
                    )
                } else {
                    old(provisonal_velocity_field).grid.at(i, j, k)
                },
        decreases hi0 - x,
    {
        let mut y: usize = 1;
        while y < hi1
            invariant
                provisonal_velocity_field.wf_for(
                    cfg.n[0] as int,
                    cfg.n[1] as int,
                    cfg.n[2] as int,
                ),
                provisonal_velocity_field.dimension == old(provisonal_velocity_field).dimension,
                1 <= x < hi0,
                1 <= y <= hi1,
                forall|i: int, j: int, k: int|
                    0 <= i < provisonal_velocity_field.grid.nx && 0 <= j
                        < provisonal_velocity_field.grid.ny && 0 <= k
                        < provisonal_velocity_field.grid.nz
                        ==> #[trigger] provisonal_velocity_field.grid.at(i, j, k) == if vinterior(
                        *cfg,
                        old(provisonal_velocity_field).dimension as int,
                        i,
                        j,
                        k,
                    ) && lex3(i, j, k, x as int, y as int, 1) {
                        predict_point(
                            *cfg,
                            velocity_field_last_time_step.dimension as int,
                            orthogonal_velocity_field_a.dimension as int,
                            orthogonal_velocity_field_b.dimension as int,
                            velocity_field_last_time_step.grid.data@,
                            orthogonal_velocity_field_a.grid.data@,
                            orthogonal_velocity_field_b.grid.data@,
                            pressure_grid.data@,
                            i,
                            j,
                            k,
                        )
                    } else {
                        old(provisonal_velocity_field).grid.at(i, j, k)
                    },
            decreases hi1 - y,
        {
            let mut z: usize = 1;
            while z < hi2
                invariant
                    provisonal_velocity_field.wf_for(
                        cfg.n[0] as int,
                        cfg.n[1] as int,
                        cfg.n[2] as int,
                    ),
                    provisonal_velocity_field.dimension == old(
                        provisonal_velocity_field,
                    ).dimension,
                    1 <= x < hi0,
                    1 <= y < hi1,
                    1 <= z <= hi2,
                    forall|i: int, j: int, k: int|
                        0 <= i < provisonal_velocity_field.grid.nx && 0 <= j
                            < provisonal_velocity_field.grid.ny && 0 <= k
                            < provisonal_velocity_field.grid.nz
                            ==> #[trigger] provisonal_velocity_field.grid.at(i, j, k)
                            == if vinterior(
                            *cfg,
                            old(provisonal_velocity_field).dimension as int,
                            i,
                            j,
                            k,
                        ) && lex3(i, j, k, x as int, y as int, z as int) {
                            predict_point(
                                *cfg,
                                velocity_field_last_time_step.dimension as int,
                                orthogonal_velocity_field_a.dimension as int,
                                orthogonal_velocity_field_b.dimension as int,
                                velocity_field_last_time_step.grid.data@,
                                orthogonal_velocity_field_a.grid.data@,
                                orthogonal_velocity_field_b.grid.data@,
                                pressure_grid.data@,
                                i,
                                j,
                                k,
                            )
                        } else {
                            old(provisonal_velocity_field).grid.at(i, j, k)
                        },
                decreases hi2 - z,
            {
                let diffusion = mul_fp(
                    cfg.nu,
                    laplacian(velocity_field_last_time_step, x, y, z, cfg.h),
                );
                let conv = convection_term(
                    cfg,
                    velocity_field_last_time_step,
                    orthogonal_velocity_field_a,
                    orthogonal_velocity_field_b,
                    x,
                    y,
                    z,
                );
                let dpd = pressure_gradient_component(
                    pressure_grid,
                    x - 1,
                    y - 1,
                    z - 1,
                    velocity_field_last_time_step.dimension,
                    cfg.h,
                );
                let fterm = mul_fp(cfg.rho, cfg.force[velocity_field_last_time_step.dimension]);
                let inner = add_fp(add_fp(sub_fp(neg_fp(conv), dpd), diffusion), fterm);
                let v0 = velocity_field_last_time_step.grid.get(x, y, z);
                let val = add_fp(v0, mul_fp(div_fp(cfg.dt, cfg.rho), inner));
                provisonal_velocity_field.grid.set(x, y, z, val);
                z += 1;
            }
            y += 1;
        }
        x += 1;
    }
}

/// `relaxation * rho * h / (6 dt)`: the central coefficient of the 3D
/// 7-point stencil, with over-relaxation.
pub open spec fn correction_coefficient(cfg: SimConfig) -> int {
    fp_div(
        fp_mul(fp_mul(cfg.relaxation as int, cfg.rho as int), cfg.h as int),
        6 * cfg.dt as int,
    )
}

/// Pressure cells whose correction is computed; the last plane of each axis
/// keeps correction zero.
pub open spec fn corr_region(cfg: SimConfig, i: int, j: int, k: int) -> bool {
    &&& 0 <= i < cfg.n[0] - 1
    &&& 0 <= j < cfg.n[1] - 1
    &&& 0 <= k < cfg.n[2] - 1
}

/// Pressure correction at cell `(i, j, k)`: minus the coefficient times the
/// discrete divergence of the provisional velocities at that cell.
pub open spec fn corr_point(
    cfg: SimConfig,
    sx: Seq<i64>,
    sy: Seq<i64>,
    sz: Seq<i64>,
    i: int,
    j: int,
    k: int,
) -> int {
    fp_mul(
        fp_neg(correction_coefficient(cfg)),
        fp_sub(
            fp_add(
                fp_sub(
                    fp_add(
                        fp_sub(
                            sq_at(sx, vny(cfg, 0), vnz(cfg, 0), i + 1, j + 1, k + 1),
                            sq_at(sx, vny(cfg, 0), vnz(cfg, 0), i, j + 1, k + 1),
                        ),
                        sq_at(sy, vny(cfg, 1), vnz(cfg, 1), i + 1, j + 1, k + 1),
                    ),
                    sq_at(sy, vny(cfg, 1), vnz(cfg, 1), i + 1, j, k + 1),
                ),
                sq_at(sz, vny(cfg, 2), vnz(cfg, 2), i + 1, j + 1, k + 1),
            ),
            sq_at(sz, vny(cfg, 2), vnz(cfg, 2), i + 1, j + 1, k),
        ),
    )
}

/// Compute the pressure-correction field from the provisional velocities.
#[verifier::loop_isolation(false)]
pub fn calculate_pressure_correction(
    cfg: &SimConfig,
    x_velocity: &VelocityGrid,
    y_velocity: &VelocityGrid,
    z_velocity: &VelocityGrid,
) -> (corr: Field)
    requires
        cfg.valid(),
        x_velocity.wf_for(cfg.n[0] as int, cfg.n[1] as int, cfg.n[2] as int),
        y_velocity.wf_for(cfg.n[0] as int, cfg.n[1] as int, cfg.n[2] as int),
        z_velocity.wf_for(cfg.n[0] as int, cfg.n[1] as int, cfg.n[2] as int),
        x_velocity.dimension == 0,
        y_velocity.dimension == 1,
        z_velocity.dimension == 2,
    ensures
        corr.wf(),
        corr.nx == cfg.n[0],
        corr.ny == cfg.n[1],
        corr.nz == cfg.n[2],
        forall|i: int, j: int, k: int|
            0 <= i < cfg.n[0] && 0 <= j < cfg.n[1] && 0 <= k < cfg.n[2] ==> #[trigger] corr.at(
                i,
                j,
                k,
            ) == if corr_region(*cfg, i, j, k) {
                corr_point(
                    *cfg,
                    x_velocity.grid.data@,
                    y_velocity.grid.data@,
                    z_velocity.grid.data@,
                    i,
                    j,
                    k,
                )
            } else {
                0
            },
{
    let constant_term_pressure_equation = div_fp(
        mul_fp(mul_fp(cfg.relaxation, cfg.rho), cfg.h),
        6 * cfg.dt,
    );
    let neg_coeff = neg_fp(constant_term_pressure_equation);
    let mut corr = Field::new_filled(cfg.n[0], cfg.n[1], cfg.n[2], 0);
    proof {
        assert forall|i: int, j: int, k: int|
            0 <= i < cfg.n[0] && 0 <= j < cfg.n[1] && 0 <= k < cfg.n[2] implies #[trigger] corr.at(
            i,
            j,
            k,
        ) == 0 by {
            crate::grid::lemma_flat3(i, j, k, cfg.n[0] as int, cfg.n[1] as int, cfg.n[2] as int);
        }
    }
    let hi0: usize = cfg.n[0] - 1;
    let hi1: usize = cfg.n[1] - 1;
    let hi2: usize = cfg.n[2] - 1;
    let mut i: usize = 0;
    while i < hi0
        invariant
            corr.wf(),
            corr.nx == cfg.n[0],
            corr.ny == cfg.n[1],
            corr.nz == cfg.n[2],
            i <= hi0,
            forall|i2: int, j2: int, k2: int|
                0 <= i2 < cfg.n[0] && 0 <= j2 < cfg.n[1] && 0 <= k2 < cfg.n[2]
                    ==> #[trigger] corr.at(i2, j2, k2) == if corr_region(*cfg, i2, j2, k2) && lex3(
                    i2,
                    j2,
                    k2,
                    i as int,
                    0,
                    0,
                ) {
                    corr_point(*cfg, x_velocity.grid.data@, y_velocity.grid.data@,
                        z_velocity.grid.data@, i2, j2, k2)
                } else {
                    0
                },
        decreases hi0 - i,
    {
        let mut j: usize = 0;
        while j < hi1
            invariant
                corr.wf(),
                corr.nx == cfg.n[0],
                corr.ny == cfg.n[1],
                corr.nz == cfg.n[2],
                i < hi0,
                j <= hi1,
                forall|i2: int, j2: int, k2: int|
                    0 <= i2 < cfg.n[0] && 0 <= j2 < cfg.n[1] && 0 <= k2 < cfg.n[2]
                        ==> #[trigger] corr.at(i2, j2, k2) == if corr_region(*cfg, i2, j2, k2)
                        && lex3(i2, j2, k2, i as int, j as int, 0) {
                        corr_point(*cfg, x_velocity.grid.data@, y_velocity.grid.data@,
                            z_velocity.grid.data@, i2, j2, k2)
                    } else {
                        0
                    },
            decreases hi1 - j,
        {
            let mut k: usize = 0;
            while k < hi2
                invariant
                    corr.wf(),
                    corr.nx == cfg.n[0],
                    corr.ny == cfg.n[1],
                    corr.nz == cfg.n[2],
                    i < hi0,
                    j < hi1,
                    k <= hi2,
                    forall|i2: int, j2: int, k2: int|
                        0 <= i2 < cfg.n[0] && 0 <= j2 < cfg.n[1] && 0 <= k2 < cfg.n[2]
                            ==> #[trigger] corr.at(i2, j2, k2) == if corr_region(*cfg, i2, j2, k2)
                            && lex3(i2, j2, k2, i as int, j as int, k as int) {
                            corr_point(*cfg, x_velocity.grid.data@, y_velocity.grid.data@,
                                z_velocity.grid.data@, i2, j2, k2)
                        } else {
                            0
                        },
                decreases hi2 - k,
            {
                let x1 = x_velocity.grid.get(i + 1, j + 1, k + 1);
                let x0 = x_velocity.grid.get(i, j + 1, k + 1);
                let y1 = y_velocity.grid.get(i + 1, j + 1, k + 1);
                let y0 = y_velocity.grid.get(i + 1, j, k + 1);
                let z1 = z_velocity.grid.get(i + 1, j + 1, k + 1);
                let z0 = z_velocity.grid.get(i + 1, j + 1, k);
                let divergence = sub_fp(
                    add_fp(sub_fp(add_fp(sub_fp(x1, x0), y1), y0), z1),
                    z0,
                );
                let val = mul_fp(neg_coeff, divergence);
                corr.set(i, j, k, val);
                k += 1;
            }
            j += 1;
        }
        i += 1;
    }
    corr
}

/// `dt / (rho h)`: the projection coefficient of the velocity update.
pub open spec fn velocity_coefficient(cfg: SimConfig) -> int {
    fp_div(cfg.dt as int, fp_mul(cfg.rho as int, cfg.h as int))
}

/// Projected velocity of the axis-`a` component at `(i, j, k)`: subtract
/// the correction difference between the face's forward and backward
/// pressure neighbours.
pub open spec fn update_point(
    cfg: SimConfig,
    a: int,
    s: Seq<i64>,
    c: Seq<i64>,
    i: int,
    j: int,
    k: int,
) -> int {
    fp_sub(
        sq_at(s, vny(cfg, a), vnz(cfg, a), i, j, k),
        fp_mul(
            velocity_coefficient(cfg),
            fp_sub(
                sq_at(
                    c,
                    cfg.n[1] as int,
                    cfg.n[2] as int,
                    i + unit(a, 0) - 1,
                    j + unit(a, 1) - 1,
                    k + unit(a, 2) - 1,
                ),
                sq_at(c, cfg.n[1] as int, cfg.n[2] as int, i - 1, j - 1, k - 1),
            ),
        ),
    )
}

/// Project one provisional velocity component with the pressure-correction
/// field (Chorin-style step enforcing incompressibility).
#[verifier::loop_isolation(false)]
pub fn update_velocity_field(
    cfg: &SimConfig,
    velocity_field: &mut VelocityGrid,
    pressure_correction: &Field,
)
    requires
        cfg.valid(),
        old(velocity_field).wf_for(cfg.n[0] as int, cfg.n[1] as int, cfg.n[2] as int),
        pressure_correction.wf(),
        pressure_correction.nx == cfg.n[0],
        pressure_correction.ny == cfg.n[1],
        pressure_correction.nz == cfg.n[2],
    ensures
        final(velocity_field).wf_for(cfg.n[0] as int, cfg.n[1] as int, cfg.n[2] as int),
        final(velocity_field).dimension == old(velocity_field).dimension,
        forall|i: int, j: int, k: int|
            0 <= i < old(velocity_field).grid.nx && 0 <= j < old(velocity_field).grid.ny && 0 <= k
                < old(velocity_field).grid.nz ==> #[trigger] final(velocity_field).grid.at(i, j, k)
                == if vinterior(*cfg, old(velocity_field).dimension as int, i, j, k) {
                update_point(
                    *cfg,
                    old(velocity_field).dimension as int,
                    old(velocity_field).grid.data@,
                    pressure_correction.data@,
                    i,
                    j,
                    k,
                )
            } else {
                old(velocity_field).grid.at(i, j, k)
            },
{
    let dim = get_dimension(velocity_field.dimension);
    let constant_term_velocity_equation = div_fp(cfg.dt, rho_h_positive(cfg));
    let hi0: usize = cfg.n[0] + 1 - dim[0];
    let hi1: usize = cfg.n[1] + 1 - dim[1];
    let hi2: usize = cfg.n[2] + 1 - dim[2];
    let mut i: usize = 1;
    while i < hi0
        invariant
            velocity_field.wf_for(cfg.n[0] as int, cfg.n[1] as int, cfg.n[2] as int),
            velocity_field.dimension == old(velocity_field).dimension,
            1 <= i <= hi0,
            forall|i2: int, j2: int, k2: int|
                0 <= i2 < velocity_field.grid.nx && 0 <= j2 < velocity_field.grid.ny && 0 <= k2
                    < velocity_field.grid.nz ==> #[trigger] velocity_field.grid.at(i2, j2, k2)
                    == if vinterior(*cfg, old(velocity_field).dimension as int, i2, j2, k2) && lex3(
                    i2,
                    j2,
                    k2,
                    i as int,
                    1,
                    1,
                ) {
                    update_point(*cfg, old(velocity_field).dimension as int,
                        old(velocity_field).grid.data@, pressure_correction.data@, i2, j2, k2)
                } else {
                    old(velocity_field).grid.at(i2, j2, k2)
                },
        decreases hi0 - i,
    {
        let mut j: usize = 1;
        while j < hi1
            invariant
                velocity_field.wf_for(cfg.n[0] as int, cfg.n[1] as int, cfg.n[2] as int),
                velocity_field.dimension == old(velocity_field).dimension,
                1 <= i < hi0,
                1 <= j <= hi1,
                forall|i2: int, j2: int, k2: int|
                    0 <= i2 < velocity_field.grid.nx && 0 <= j2 < velocity_field.grid.ny && 0 <= k2
                        < velocity_field.grid.nz ==> #[trigger] velocity_field.grid.at(i2, j2, k2)
                        == if vinterior(*cfg, old(velocity_field).dimension as int, i2, j2, k2)
                        && lex3(i2, j2, k2, i as int, j as int, 1) {
                        update_point(*cfg, old(velocity_field).dimension as int,
                            old(velocity_field).grid.data@, pressure_correction.data@, i2, j2, k2)
                    } else {
                        old(velocity_field).grid.at(i2, j2, k2)
                    },
            decreases hi1 - j,
        {
            let mut k: usize = 1;
            while k < hi2
                invariant
                    velocity_field.wf_for(cfg.n[0] as int, cfg.n[1] as int, cfg.n[2] as int),
                    velocity_field.dimension == old(velocity_field).dimension,
                    1 <= i < hi0,
                    1 <= j < hi1,
                    1 <= k <= hi2,
                    forall|i2: int, j2: int, k2: int|
                        0 <= i2 < velocity_field.grid.nx && 0 <= j2 < velocity_field.grid.ny && 0
                            <= k2 < velocity_field.grid.nz
                            ==> #[trigger] velocity_field.grid.at(i2, j2, k2) == if vinterior(
                            *cfg,
                            old(velocity_field).dimension as int,
                            i2,
                            j2,
                            k2,
                        ) && lex3(i2, j2, k2, i as int, j as int, k as int) {
                            update_point(*cfg, old(velocity_field).dimension as int,
                                old(velocity_field).grid.data@, pressure_correction.data@, i2, j2,
                                k2)
                        } else {
                            old(velocity_field).grid.at(i2, j2, k2)
                        },
                decreases hi2 - k,
            {
                let cur = velocity_field.grid.get(i, j, k);
                let forward = pressure_correction.get(
                    i + dim[0] - 1,
                    j + dim[1] - 1,
                    k + dim[2] - 1,
                );
                let backward = pressure_correction.get(i - 1, j - 1, k - 1);
                let val = sub_fp(
                    cur,
                    mul_fp(constant_term_velocity_equation, sub_fp(forward, backward)),
                );
                velocity_field.grid.set(i, j, k, val);
                k += 1;
            }
            j += 1;
        }
        i += 1;
    }
}

/// `rho * h` in fixed point, with a proof that it stays strictly positive,
/// so it can serve as a divisor.
fn rho_h_positive(cfg: &SimConfig) -> (r: i64)
    requires
        cfg.valid(),
    ensures
        r as int == fp_mul(cfg.rho as int, cfg.h as int),
        0 < r,
{
    proof {
        assert((cfg.rho as int) * (cfg.h as int) >= SCALE as int) by (nonlinear_arith)
            requires
                cfg.rho as int >= crate::config::MIN_RHO as int,
                cfg.h as int >= crate::config::MIN_H as int,
                (crate::config::MIN_RHO as int) * (crate::config::MIN_H as int) == SCALE as int,
        ;
        crate::fixed::lemma_fp_mul_ge_one(cfg.rho as int, cfg.h as int);
    }
    mul_fp(cfg.rho, cfg.h)
}

/// Add the correction field into the pressure field, cell by cell.
#[verifier::loop_isolation(false)]
pub fn update_pressure(pressure_grid: &mut Field, pressure_correction: &Field)
    requires
        old(pressure_grid).wf(),
        pressure_correction.wf(),
        pressure_correction.nx == old(pressure_grid).nx,
        pressure_correction.ny == old(pressure_grid).ny,
        pressure_correction.nz == old(pressure_grid).nz,
    ensures
        final(pressure_grid).wf(),
        final(pressure_grid).same_dims(*old(pressure_grid)),
        forall|i: int, j: int, k: int|
            0 <= i < old(pressure_grid).nx && 0 <= j < old(pressure_grid).ny && 0 <= k < old(
                pressure_grid,
            ).nz ==> #[trigger] final(pressure_grid).at(i, j, k) == fp_add(
                old(pressure_grid).at(i, j, k),
                pressure_correction.at(i, j, k),
            ),
{
    let nx = pressure_grid.nx;
    let ny = pressure_grid.ny;
    let nz = pressure_grid.nz;
    let mut i: usize = 0;
    while i < nx
        invariant
            pressure_grid.wf(),
            pressure_grid.same_dims(*old(pressure_grid)),
            i <= nx,
            forall|i2: int, j2: int, k2: int|
                0 <= i2 < nx && 0 <= j2 < ny && 0 <= k2 < nz ==> #[trigger] pressure_grid.at(
                    i2,
                    j2,
                    k2,
                ) == if lex3(i2, j2, k2, i as int, 0, 0) {
                    fp_add(old(pressure_grid).at(i2, j2, k2), pressure_correction.at(i2, j2, k2))
                } else {
                    old(pressure_grid).at(i2, j2, k2)
                },
        decreases nx - i,
    {
        let mut j: usize = 0;
        while j < ny
            invariant
                pressure_grid.wf(),
                pressure_grid.same_dims(*old(pressure_grid)),
                i < nx,
                j <= ny,
                forall|i2: int, j2: int, k2: int|
                    0 <= i2 < nx && 0 <= j2 < ny && 0 <= k2 < nz ==> #[trigger] pressure_grid.at(
                        i2,
                        j2,
                        k2,
                    ) == if lex3(i2, j2, k2, i as int, j as int, 0) {
                        fp_add(
                            old(pressure_grid).at(i2, j2, k2),
                            pressure_correction.at(i2, j2, k2),
                        )
                    } else {
                        old(pressure_grid).at(i2, j2, k2)
                    },
            decreases ny - j,
        {
            let mut k: usize = 0;
            while k < nz
                invariant
                    pressure_grid.wf(),
                    pressure_grid.same_dims(*old(pressure_grid)),
                    i < nx,
                    j < ny,
                    k <= nz,
                    forall|i2: int, j2: int, k2: int|
                        0 <= i2 < nx && 0 <= j2 < ny && 0 <= k2 < nz
                            ==> #[trigger] pressure_grid.at(i2, j2, k2) == if lex3(i2, j2, k2,
                        i as int, j as int, k as int) {
                            fp_add(
                                old(pressure_grid).at(i2, j2, k2),
                                pressure_correction.at(i2, j2, k2),
                            )
                        } else {
                            old(pressure_grid).at(i2, j2, k2)
                        },
                decreases nz - k,
            {
                let cur = pressure_grid.get(i, j, k);
                let c = pressure_correction.get(i, j, k);
                let val = add_fp(cur, c);
                pressure_grid.set(i, j, k, val);
                k += 1;
            }
            j += 1;
        }
        i += 1;
    }
}

/// Discrete divergence at pressure cell `(x, y, z)`: the sum of the forward
/// differences of the three components at that cell.
pub open spec fn divergence_point(
    cfg: SimConfig,
    sx: Seq<i64>,
    sy: Seq<i64>,
    sz: Seq<i64>,
    x: int,
    y: int,
    z: int,
) -> int {
    fp_add(
        fp_add(
            crate::operators::forward_diff_spec(sx, vny(cfg, 0), vnz(cfg, 0), x, y, z, 0, cfg.h as int),
            crate::operators::forward_diff_spec(sy, vny(cfg, 1), vnz(cfg, 1), x, y, z, 1, cfg.h as int),
        ),
        crate::operators::forward_diff_spec(sz, vny(cfg, 2), vnz(cfg, 2), x, y, z, 2, cfg.h as int),
    )
}

/// Pressure cells at which convergence is judged.
pub open spec fn cc_interior(cfg: SimConfig, x: int, y: int, z: int) -> bool {
    &&& 1 <= x < cfg.n[0] - 1
    &&& 1 <= y < cfg.n[1] - 1
    &&& 1 <= z < cfg.n[2] - 1
}

/// The continuity equation has converged: the divergence magnitude is
/// within tolerance at every interior pressure cell.
pub open spec fn converged_spec(cfg: SimConfig, sx: Seq<i64>, sy: Seq<i64>, sz: Seq<i64>) -> bool {
    forall|x: int, y: int, z: int|
        cc_interior(cfg, x, y, z) ==> fp_abs(#[trigger] divergence_point(cfg, sx, sy, sz, x, y, z))
            <= cfg.tolerance
}

/// Discrete divergence of the provisional fields at one pressure cell.
pub fn check_convergence_at_point(
    cfg: &SimConfig,
    provisional_velocity_x: &VelocityGrid,
    provisional_velocity_y: &VelocityGrid,
    provisional_velocity_z: &VelocityGrid,
    x: usize,
    y: usize,
    z: usize,
) -> (r: i64)
    requires
        cfg.valid(),
        provisional_velocity_x.wf_for(cfg.n[0] as int, cfg.n[1] as int, cfg.n[2] as int),
        provisional_velocity_y.wf_for(cfg.n[0] as int, cfg.n[1] as int, cfg.n[2] as int),
        provisional_velocity_z.wf_for(cfg.n[0] as int, cfg.n[1] as int, cfg.n[2] as int),
        provisional_velocity_x.dimension == 0,
        provisional_velocity_y.dimension == 1,
        provisional_velocity_z.dimension == 2,
        cc_interior(*cfg, x as int, y as int, z as int),
    ensures
        r as int == divergence_point(
            *cfg,
            provisional_velocity_x.grid.data@,
            provisional_velocity_y.grid.data@,
            provisional_velocity_z.grid.data@,
            x as int,
            y as int,
            z as int,
        ),
        in_range(r as int),
{
    let dx = crate::operators::forward_first_derivative(provisional_velocity_x, x, y, z, cfg.h);
    let dy = crate::operators::forward_first_derivative(provisional_velocity_y, x, y, z, cfg.h);
    let dz = crate::operators::forward_first_derivative(provisional_velocity_z, x, y, z, cfg.h);
    add_fp(add_fp(dx, dy), dz)
}

/// Decide whether the provisional fields satisfy the continuity equation
/// within tolerance, checking every interior pressure cell.
#[verifier::loop_isolation(false)]
pub fn check_convergence(
    cfg: &SimConfig,
    provisional_velocity_x: &VelocityGrid,
    provisional_velocity_y: &VelocityGrid,
    provisional_velocity_z: &VelocityGrid,
) -> (r: bool)
    requires
        cfg.valid(),
        provisional_velocity_x.wf_for(cfg.n[0] as int, cfg.n[1] as int, cfg.n[2] as int),
        provisional_velocity_y.wf_for(cfg.n[0] as int, cfg.n[1] as int, cfg.n[2] as int),
        provisional_velocity_z.wf_for(cfg.n[0] as int, cfg.n[1] as int, cfg.n[2] as int),
        provisional_velocity_x.dimension == 0,
        provisional_velocity_y.dimension == 1,
        provisional_velocity_z.dimension == 2,
    ensures
        r == converged_spec(
            *cfg,
            provisional_velocity_x.grid.data@,
            provisional_velocity_y.grid.data@,
            provisional_velocity_z.grid.data@,
        ),
{
    let hi0: usize = cfg.n[0] - 1;
    let hi1: usize = cfg.n[1] - 1;
    let hi2: usize = cfg.n[2] - 1;
    let mut x: usize = 1;
    while x < hi0
        invariant
            1 <= x <= hi0,
            forall|x2: int, y2: int, z2: int|
                cc_interior(*cfg, x2, y2, z2) && x2 < x ==> fp_abs(
                    #[trigger] divergence_point(*cfg, provisional_velocity_x.grid.data@,
                    provisional_velocity_y.grid.data@, provisional_velocity_z.grid.data@, x2, y2,
                    z2),
                ) <= cfg.tolerance,
        decreases hi0 - x,
    {
        let mut y: usize = 1;
        while y < hi1
            invariant
                1 <= x < hi0,
                1 <= y <= hi1,
                forall|x2: int, y2: int, z2: int|
                    cc_interior(*cfg, x2, y2, z2) && (x2 < x || (x2 == x && y2 < y)) ==> fp_abs(
                        #[trigger] divergence_point(*cfg, provisional_velocity_x.grid.data@,
                        provisional_velocity_y.grid.data@, provisional_velocity_z.grid.data@, x2,
                        y2, z2),
                    ) <= cfg.tolerance,
            decreases hi1 - y,
        {
            let mut z: usize = 1;
            while z < hi2
                invariant
                    1 <= x < hi0,
                    1 <= y < hi1,
                    1 <= z <= hi2,
                    forall|x2: int, y2: int, z2: int|
                        cc_interior(*cfg, x2, y2, z2) && lex3(x2, y2, z2, x as int, y as int,
                        z as int) ==> fp_abs(
                            #[trigger] divergence_point(*cfg, provisional_velocity_x.grid.data@,
                            provisional_velocity_y.grid.data@, provisional_velocity_z.grid.data@,
                            x2, y2, z2),
                        ) <= cfg.tolerance,
                decreases hi2 - z,
            {
                let error = check_convergence_at_point(
                    cfg,
                    provisional_velocity_x,
                    provisional_velocity_y,
                    provisional_velocity_z,
                    x,
                    y,
                    z,
                );
                if crate::fixed::abs_fp(error) > cfg.tolerance {
                    return false;
                }
                z += 1;
            }
            y += 1;
        }
        x += 1;
    }
    true
}

/// The freshly predicted provisional field of axis `a` (zero outside the
/// interior sweep, as the provisional grids start from rest).
pub open spec fn predict_stage(
    cfg: SimConfig,
    a: int,
    aa: int,
    ab: int,
    v: Seq<i64>,
    va: Seq<i64>,
    vb: Seq<i64>,
    p: Seq<i64>,
) -> Seq<i64> {
    crate::grid::grid_new(
        vnx(cfg, a),
        vny(cfg, a),
        vnz(cfg, a),
        |i: int, j: int, k: int|
            (if vinterior(cfg, a, i, j, k) {
                predict_point(cfg, a, aa, ab, v, va, vb, p, i, j, k)
            } else {
                0
            }) as i64,
    )
}

/// The pressure-correction field of one iteration.
pub open spec fn corr_stage(cfg: SimConfig, sx: Seq<i64>, sy: Seq<i64>, sz: Seq<i64>) -> Seq<i64> {
    crate::grid::grid_new(
        cfg.n[0] as int,
        cfg.n[1] as int,
        cfg.n[2] as int,
        |i: int, j: int, k: int|
            (if corr_region(cfg, i, j, k) {
                corr_point(cfg, sx, sy, sz, i, j, k)
            } else {
                0
            }) as i64,
    )
}

/// The axis-`a` component after the projection update with correction `c`.
pub open spec fn update_stage(cfg: SimConfig, a: int, s: Seq<i64>, c: Seq<i64>) -> Seq<i64> {
    crate::grid::grid_new(
        vnx(cfg, a),
        vny(cfg, a),
        vnz(cfg, a),
        |i: int, j: int, k: int|
            (if vinterior(cfg, a, i, j, k) {
                update_point(cfg, a, s, c, i, j, k)
            } else {
                sq_at(s, vny(cfg, a), vnz(cfg, a), i, j, k)
            }) as i64,
    )
}

/// The pressure field after adding a correction.
pub open spec fn pressure_stage(cfg: SimConfig, p: Seq<i64>, c: Seq<i64>) -> Seq<i64> {
    crate::grid::grid_new(
        cfg.n[0] as int,
        cfg.n[1] as int,
        cfg.n[2] as int,
        |i: int, j: int, k: int|
            fp_add(
                sq_at(p, cfg.n[1] as int, cfg.n[2] as int, i, j, k),
                sq_at(c, cfg.n[1] as int, cfg.n[2] as int, i, j, k),
            ) as i64,
    )
}

/// Provisional fields of one iteration after the first boundary pass,
/// predicted from the committed velocities and the current pressure.
pub open spec fn iteration_bc1(
    cfg: SimConfig,
    vx: Seq<i64>,
    vy: Seq<i64>,
    vz: Seq<i64>,
    p: Seq<i64>,
) -> (Seq<i64>, Seq<i64>, Seq<i64>) {
    (
        bc_stage(cfg, 0, predict_stage(cfg, 0, 1, 2, vx, vy, vz, p)),
        bc_stage(cfg, 1, predict_stage(cfg, 1, 0, 2, vy, vx, vz, p)),
        bc_stage(cfg, 2, predict_stage(cfg, 2, 0, 1, vz, vx, vy, p)),
    )
}

/// The correction field one iteration computes.
pub open spec fn iteration_correction(
    cfg: SimConfig,
    vx: Seq<i64>,
    vy: Seq<i64>,
    vz: Seq<i64>,
    p: Seq<i64>,
) -> Seq<i64> {
    corr_stage(
        cfg,
        iteration_bc1(cfg, vx, vy, vz, p).0,
        iteration_bc1(cfg, vx, vy, vz, p).1,
        iteration_bc1(cfg, vx, vy, vz, p).2,
    )
}

/// The provisional fields one iteration ends with: predicted, bounded,
/// projected with the correction, and bounded again.
pub open spec fn iteration_velocities(
    cfg: SimConfig,
    vx: Seq<i64>,
    vy: Seq<i64>,
    vz: Seq<i64>,
    p: Seq<i64>,
) -> (Seq<i64>, Seq<i64>, Seq<i64>) {
    (
        bc_stage(
            cfg,
            0,
            update_stage(
                cfg,
                0,
                iteration_bc1(cfg, vx, vy, vz, p).0,
                iteration_correction(cfg, vx, vy, vz, p),
            ),
        ),
        bc_stage(
            cfg,
            1,
            update_stage(
                cfg,
                1,
                iteration_bc1(cfg, vx, vy, vz, p).1,
                iteration_correction(cfg, vx, vy, vz, p),
            ),
        ),
        bc_stage(
            cfg,
            2,
            update_stage(
                cfg,
                2,
                iteration_bc1(cfg, vx, vy, vz, p).2,
                iteration_correction(cfg, vx, vy, vz, p),
            ),
        ),
    )
}

/// Whether one iteration from `(vx, vy, vz, p)` meets the tolerance.
pub open spec fn iteration_converged(
    cfg: SimConfig,
    vx: Seq<i64>,
    vy: Seq<i64>,
    vz: Seq<i64>,
    p: Seq<i64>,
) -> bool {
    converged_spec(
        cfg,
        iteration_velocities(cfg, vx, vy, vz, p).0,
        iteration_velocities(cfg, vx, vy, vz, p).1,
        iteration_velocities(cfg, vx, vy, vz, p).2,
    )
}

/// The pressure after one iteration: the correction is accumulated whether
/// or not the iteration converged.
pub open spec fn iteration_pressure(
    cfg: SimConfig,
    vx: Seq<i64>,
    vy: Seq<i64>,
    vz: Seq<i64>,
    p: Seq<i64>,
) -> Seq<i64> {
    pressure_stage(cfg, p, iteration_correction(cfg, vx, vy, vz, p))
}

/// The pressure after `m` iterations from `p`, the committed velocities
/// held fixed.
pub open spec fn pressure_after(
    cfg: SimConfig,
    vx: Seq<i64>,
    vy: Seq<i64>,
    vz: Seq<i64>,
    p: Seq<i64>,
    m: nat,
) -> Seq<i64>
    decreases m,
{
    if m == 0 {
        p
    } else {
        iteration_pressure(cfg, vx, vy, vz, pressure_after(cfg, vx, vy, vz, p, (m - 1) as nat))
    }
}

/// Index of the first converging iteration within `fuel` attempts, if any:
/// the loop semantics of one time step.
pub open spec fn converge_steps(
    cfg: SimConfig,
    vx: Seq<i64>,
    vy: Seq<i64>,
    vz: Seq<i64>,
    p: Seq<i64>,
    fuel: nat,
) -> Option<int>
    decreases fuel,
{
    if fuel == 0 {
        Option::None
    } else if iteration_converged(cfg, vx, vy, vz, p) {
        Option::Some(0)
    } else {
        match converge_steps(cfg, vx, vy, vz, iteration_pressure(cfg, vx, vy, vz, p), (fuel
            - 1) as nat) {
            Option::Some(n) => Option::Some(n + 1),
            Option::None => Option::None,
        }
    }
}

/// Shift the index inside an optional iteration count.
pub open spec fn shift_opt(o: Option<int>, d: int) -> Option<int> {
    match o {
        Option::Some(n) => Option::Some(n + d),
        Option::None => Option::None,
    }
}

/// Advance the simulation by one time step.
///
/// Runs the predictor/corrector cycle from the committed fields until the
/// interior divergence meets the tolerance: the provisional velocities are
/// then committed, the pressure takes one more correction, and the new
/// state is resampled for the renderer.  The pressure accumulates its
/// correction on every iteration, converged or not.  If the iteration
/// budget runs out, the last iteration's correction is not applied, the
/// velocities stay untouched and the step reports numerical divergence.
#[verifier::loop_isolation(false)]
#[verifier::rlimit(100)]
pub fn simulation_time_step(
    cfg: &SimConfig,
    velocity_grid_x: &mut VelocityGrid,
    velocity_grid_y: &mut VelocityGrid,
    velocity_grid_z: &mut VelocityGrid,
    pressure_grid: &mut Field,
    time_step: usize,
) -> (r: Result<(crate::render::RenderData, usize), StepError>)
    requires
        cfg.valid(),
        old(velocity_grid_x).wf_for(cfg.n[0] as int, cfg.n[1] as int, cfg.n[2] as int),
        old(velocity_grid_y).wf_for(cfg.n[0] as int, cfg.n[1] as int, cfg.n[2] as int),
        old(velocity_grid_z).wf_for(cfg.n[0] as int, cfg.n[1] as int, cfg.n[2] as int),
        old(velocity_grid_x).dimension == 0,
        old(velocity_grid_y).dimension == 1,
        old(velocity_grid_z).dimension == 2,
        old(pressure_grid).wf(),
        old(pressure_grid).nx == cfg.n[0],
        old(pressure_grid).ny == cfg.n[1],
        old(pressure_grid).nz == cfg.n[2],
    ensures
        final(velocity_grid_x).wf_for(cfg.n[0] as int, cfg.n[1] as int, cfg.n[2] as int),
        final(velocity_grid_y).wf_for(cfg.n[0] as int, cfg.n[1] as int, cfg.n[2] as int),
        final(velocity_grid_z).wf_for(cfg.n[0] as int, cfg.n[1] as int, cfg.n[2] as int),
        final(velocity_grid_x).dimension == 0,
        final(velocity_grid_y).dimension == 1,
        final(velocity_grid_z).dimension == 2,
        final(pressure_grid).wf(),
        final(pressure_grid).same_dims(*old(pressure_grid)),
        ({
            let sx = old(velocity_grid_x).grid.data@;
            let sy = old(velocity_grid_y).grid.data@;
            let sz = old(velocity_grid_z).grid.data@;
            let p0 = old(pressure_grid).data@;
            match converge_steps(*cfg, sx, sy, sz, p0, cfg.max_iterations as nat) {
                Option::Some(n) => {
                    &&& r is Ok
                    &&& r matches Ok(okv) && okv.1 == n + 1
                    &&& final(velocity_grid_x).grid.data@ == iteration_velocities(
                        *cfg,
                        sx,
                        sy,
                        sz,
                        pressure_after(*cfg, sx, sy, sz, p0, n as nat),
                    ).0
                    &&& final(velocity_grid_y).grid.data@ == iteration_velocities(
                        *cfg,
                        sx,
                        sy,
                        sz,
                        pressure_after(*cfg, sx, sy, sz, p0, n as nat),
                    ).1
                    &&& final(velocity_grid_z).grid.data@ == iteration_velocities(
                        *cfg,
                        sx,
                        sy,
                        sz,
                        pressure_after(*cfg, sx, sy, sz, p0, n as nat),
                    ).2
                    &&& final(pressure_grid).data@ == pressure_after(
                        *cfg,
                        sx,
                        sy,
                        sz,
                        p0,
                        (n + 1) as nat,
                    )
                },
                Option::None => {
                    &&& r == Err::<(crate::render::RenderData, usize), StepError>(
                        StepError::NumericalDivergence,
                    )
                    &&& final(velocity_grid_x).grid.data@ == sx
                    &&& final(velocity_grid_y).grid.data@ == sy
                    &&& final(velocity_grid_z).grid.data@ == sz
                    &&& final(pressure_grid).data@ == pressure_after(
                        *cfg,
                        sx,
                        sy,
                        sz,
                        p0,
                        (cfg.max_iterations - 1) as nat,
                    )
                },
            }
        }),
        (r matches Ok(okv) ==> {
            &&& okv.0.wf()
            &&& okv.0.size[0] == cfg.render_size[0]
            &&& okv.0.size[1] == cfg.render_size[1]
            &&& okv.0.size[2] == cfg.render_size[2]
            &&& forall|x: int, y: int, z: int|
                0 <= x < cfg.render_size[0] && 0 <= y < cfg.render_size[1] && 0 <= z
                    < cfg.render_size[2] ==> #[trigger] okv.0.at(x, y, z)
                    == crate::render::render_point(
                    *cfg,
                    final(velocity_grid_x).grid.data@,
                    final(velocity_grid_y).grid.data@,
                    final(velocity_grid_z).grid.data@,
                    cfg.render_min,
                    cfg.render_max,
                    cfg.render_size,
                    x,
                    y,
                    z,
                )
        }),
{
    let ghost sx = velocity_grid_x.grid.data@;
    let ghost sy = velocity_grid_y.grid.data@;
    let ghost sz = velocity_grid_z.grid.data@;
    let ghost p0 = pressure_grid.data@;
    let mut it: usize = 0;
    while it < cfg.max_iterations
        invariant
            velocity_grid_x.grid.data@ == sx,
            velocity_grid_y.grid.data@ == sy,
            velocity_grid_z.grid.data@ == sz,
            velocity_grid_x.wf_for(cfg.n[0] as int, cfg.n[1] as int, cfg.n[2] as int),
            velocity_grid_y.wf_for(cfg.n[0] as int, cfg.n[1] as int, cfg.n[2] as int),
            velocity_grid_z.wf_for(cfg.n[0] as int, cfg.n[1] as int, cfg.n[2] as int),
            velocity_grid_x.dimension == 0,
            velocity_grid_y.dimension == 1,
            velocity_grid_z.dimension == 2,
            pressure_grid.wf(),
            pressure_grid.nx == cfg.n[0],
            pressure_grid.ny == cfg.n[1],
            pressure_grid.nz == cfg.n[2],
            it < cfg.max_iterations,
            pressure_grid.data@ == pressure_after(*cfg, sx, sy, sz, p0, it as nat),
            converge_steps(*cfg, sx, sy, sz, p0, cfg.max_iterations as nat) == shift_opt(
                converge_steps(*cfg, sx, sy, sz, pressure_grid.data@, (cfg.max_iterations
                    - it) as nat),
                it as int,
            ),
        decreases cfg.max_iterations - it,
    {
        let ghost pcur = pressure_grid.data@;
        let mut provisional_velocity_x = VelocityGrid::new_filled(
            cfg.n[0],
            cfg.n[1],
            cfg.n[2],
            0,
            0,
        );
        let mut provisional_velocity_y = VelocityGrid::new_filled(
            cfg.n[0],
            cfg.n[1],
            cfg.n[2],
            1,
            0,
        );
        let mut provisional_velocity_z = VelocityGrid::new_filled(
            cfg.n[0],
            cfg.n[1],
            cfg.n[2],
            2,
            0,
        );
        let ghost zero_x = provisional_velocity_x;
        let ghost zero_y = provisional_velocity_y;
        let ghost zero_z = provisional_velocity_z;
        predict_velocity(
            cfg,
            &mut provisional_velocity_x,
            velocity_grid_x,
            velocity_grid_y,
            velocity_grid_z,
            pressure_grid,
        );
        predict_velocity(
            cfg,
            &mut provisional_velocity_y,
            velocity_grid_y,
            velocity_grid_x,
            velocity_grid_z,
            pressure_grid,
        );
        predict_velocity(
            cfg,
            &mut provisional_velocity_z,
            velocity_grid_z,
            velocity_grid_x,
            velocity_grid_y,
            pressure_grid,
        );
        proof {
            lemma_commit_predict(*cfg, 0, 1, 2, sx, sy, sz, pcur, provisional_velocity_x.grid,
                zero_x.grid);
            lemma_commit_predict(*cfg, 1, 0, 2, sy, sx, sz, pcur, provisional_velocity_y.grid,
                zero_y.grid);
            lemma_commit_predict(*cfg, 2, 0, 1, sz, sx, sy, pcur, provisional_velocity_z.grid,
                zero_z.grid);
        }
        crate::boundary::set_wall_boundary_conditions(
            cfg,
            &mut provisional_velocity_x,
            &mut provisional_velocity_y,
            &mut provisional_velocity_z,
            time_step,
        );
        proof {
            lemma_commit_bc(*cfg, 0, predict_stage(*cfg, 0, 1, 2, sx, sy, sz, pcur),
                provisional_velocity_x.grid);
            lemma_commit_bc(*cfg, 1, predict_stage(*cfg, 1, 0, 2, sy, sx, sz, pcur),
                provisional_velocity_y.grid);
            lemma_commit_bc(*cfg, 2, predict_stage(*cfg, 2, 0, 1, sz, sx, sy, pcur),
                provisional_velocity_z.grid);
            assert(provisional_velocity_x.grid.data@ == iteration_bc1(*cfg, sx, sy, sz, pcur).0);
            assert(provisional_velocity_y.grid.data@ == iteration_bc1(*cfg, sx, sy, sz, pcur).1);
            assert(provisional_velocity_z.grid.data@ == iteration_bc1(*cfg, sx, sy, sz, pcur).2);
        }
        let pressure_correction = calculate_pressure_correction(
            cfg,
            &provisional_velocity_x,
            &provisional_velocity_y,
            &provisional_velocity_z,
        );
        proof {
            lemma_commit_corr(*cfg, iteration_bc1(*cfg, sx, sy, sz, pcur).0, iteration_bc1(*cfg,
                sx, sy, sz, pcur).1, iteration_bc1(*cfg, sx, sy, sz, pcur).2,
                pressure_correction);
            assert(pressure_correction.data@ == iteration_correction(*cfg, sx, sy, sz, pcur));
        }
        update_velocity_field(cfg, &mut provisional_velocity_x, &pressure_correction);
        update_velocity_field(cfg, &mut provisional_velocity_y, &pressure_correction);
        update_velocity_field(cfg, &mut provisional_velocity_z, &pressure_correction);
        proof {
            lemma_commit_update(*cfg, 0, iteration_bc1(*cfg, sx, sy, sz, pcur).0,
                iteration_correction(*cfg, sx, sy, sz, pcur), provisional_velocity_x.grid);
            lemma_commit_update(*cfg, 1, iteration_bc1(*cfg, sx, sy, sz, pcur).1,
                iteration_correction(*cfg, sx, sy, sz, pcur), provisional_velocity_y.grid);
            lemma_commit_update(*cfg, 2, iteration_bc1(*cfg, sx, sy, sz, pcur).2,
                iteration_correction(*cfg, sx, sy, sz, pcur), provisional_velocity_z.grid);
        }
        crate::boundary::set_wall_boundary_conditions(
            cfg,
            &mut provisional_velocity_x,
            &mut provisional_velocity_y,
            &mut provisional_velocity_z,
            time_step,
        );
        proof {
            lemma_commit_bc(*cfg, 0, update_stage(*cfg, 0, iteration_bc1(*cfg, sx, sy, sz,
                pcur).0, iteration_correction(*cfg, sx, sy, sz, pcur)),
                provisional_velocity_x.grid);
            lemma_commit_bc(*cfg, 1, update_stage(*cfg, 1, iteration_bc1(*cfg, sx, sy, sz,
                pcur).1, iteration_correction(*cfg, sx, sy, sz, pcur)),
                provisional_velocity_y.grid);
            lemma_commit_bc(*cfg, 2, update_stage(*cfg, 2, iteration_bc1(*cfg, sx, sy, sz,
                pcur).2, iteration_correction(*cfg, sx, sy, sz, pcur)),
                provisional_velocity_z.grid);
            assert(provisional_velocity_x.grid.data@ == iteration_velocities(*cfg, sx, sy, sz,
                pcur).0);
            assert(provisional_velocity_y.grid.data@ == iteration_velocities(*cfg, sx, sy, sz,
                pcur).1);
            assert(provisional_velocity_z.grid.data@ == iteration_velocities(*cfg, sx, sy, sz,
                pcur).2);
        }
        let converged = check_convergence(
            cfg,
            &provisional_velocity_x,
            &provisional_velocity_y,
            &provisional_velocity_z,
        );
        proof {
            assert(converged == iteration_converged(*cfg, sx, sy, sz, pcur));
        }
        if converged {
            *velocity_grid_x = provisional_velocity_x;
            *velocity_grid_y = provisional_velocity_y;
            *velocity_grid_z = provisional_velocity_z;
            update_pressure(pressure_grid, &pressure_correction);
            proof {
                lemma_commit_padd(*cfg, pcur, iteration_correction(*cfg, sx, sy, sz, pcur),
                    *pressure_grid);
                assert(pressure_grid.data@ == iteration_pressure(*cfg, sx, sy, sz, pcur));
                assert(pressure_grid.data@ == pressure_after(
                    *cfg,
                    sx,
                    sy,
                    sz,
                    p0,
                    (it + 1) as nat,
                ));
                assert(converge_steps(*cfg, sx, sy, sz, pcur, (cfg.max_iterations - it) as nat)
                    == Option::Some(0int));
                assert(converge_steps(*cfg, sx, sy, sz, p0, cfg.max_iterations as nat)
                    == Option::Some(it as int));
            }
            let data = crate::render::convert_velocities_to_collocated_grid_and_visualise(
                cfg,
                cfg.render_min,
                cfg.render_max,
                cfg.render_size,
                velocity_grid_x,
                velocity_grid_y,
                velocity_grid_z,
            );
            return Ok((data, it + 1));
        }
        if it + 1 == cfg.max_iterations {
            proof {
                assert(converge_steps(
                    *cfg,
                    sx,
                    sy,
                    sz,
                    iteration_pressure(*cfg, sx, sy, sz, pcur),
                    0nat,
                ) == Option::<int>::None);
                assert(converge_steps(*cfg, sx, sy, sz, pcur, 1nat) == Option::<int>::None);
                assert(converge_steps(*cfg, sx, sy, sz, p0, cfg.max_iterations as nat)
                    == Option::<int>::None);
            }
            return Err(StepError::NumericalDivergence);
        }
        update_pressure(pressure_grid, &pressure_correction);
        proof {
            lemma_commit_padd(*cfg, pcur, iteration_correction(*cfg, sx, sy, sz, pcur),
                *pressure_grid);
            assert(pressure_grid.data@ == iteration_pressure(*cfg, sx, sy, sz, pcur));
            assert(pressure_grid.data@ == pressure_after(*cfg, sx, sy, sz, p0, (it + 1) as nat));
            let fuel = (cfg.max_iterations - it) as nat;
            assert(converge_steps(*cfg, sx, sy, sz, pcur, fuel) == shift_opt(
                converge_steps(*cfg, sx, sy, sz, iteration_pressure(*cfg, sx, sy, sz, pcur), (fuel
                    - 1) as nat),
                1,
            ));
            assert(converge_steps(*cfg, sx, sy, sz, p0, cfg.max_iterations as nat) == shift_opt(
                converge_steps(*cfg, sx, sy, sz, pressure_grid.data@, (cfg.max_iterations - (it
                    + 1)) as nat),
                it + 1,
            ));
        }
        it += 1;
    }
    vstd::pervasive::unreached()
}


/// A stored grid holding `v` everywhere reads back `v` at every allocated
/// coordinate.
proof fn lemma_const_at(
    s: Seq<i64>,
    v: i64,
    nx: int,
    ny: int,
    nz: int,
    i: int,
    j: int,
    k: int,
)
    requires
        1 <= nx,
        1 <= ny,
        1 <= nz,
        s.len() == nx * (ny * nz),
        forall|t: int| 0 <= t < s.len() ==> #[trigger] s[t] == v,
        0 <= i < nx,
        0 <= j < ny,
        0 <= k < nz,
    ensures
        sq_at(s, ny, nz, i, j, k) == v,
{
    crate::grid::lemma_flat3(i, j, k, nx, ny, nz);
}

/// Shape facts used by the rest-state lemmas below.
proof fn lemma_rest_dims(cfg: SimConfig, a: int)
    requires
        cfg.grid_ok(),
        0 <= a < 3,
    ensures
        3 <= vnx(cfg, a),
        3 <= vny(cfg, a),
        3 <= vnz(cfg, a),
        2 <= cfg.n[0],
        2 <= cfg.n[1],
        2 <= cfg.n[2],
{
    assert(2 <= cfg.n[0]);
    assert(2 <= cfg.n[1]);
    assert(2 <= cfg.n[2]);
}

/// With zero velocities, a uniform pressure and no body force, every
/// predicted provisional sample is zero.
proof fn lemma_predict_stage_zero(
    cfg: SimConfig,
    a: int,
    aa: int,
    ab: int,
    v: Seq<i64>,
    va: Seq<i64>,
    vb: Seq<i64>,
    p: Seq<i64>,
    pv: i64,
)
    requires
        cfg.valid(),
        cfg.force[0] == 0,
        cfg.force[1] == 0,
        cfg.force[2] == 0,
        0 <= a < 3,
        0 <= aa < 3,
        0 <= ab < 3,
        a != aa,
        a != ab,
        aa != ab,
        v.len() == vnx(cfg, a) * (vny(cfg, a) * vnz(cfg, a)),
        va.len() == vnx(cfg, aa) * (vny(cfg, aa) * vnz(cfg, aa)),
        vb.len() == vnx(cfg, ab) * (vny(cfg, ab) * vnz(cfg, ab)),
        p.len() == cfg.n[0] * ((cfg.n[1] * cfg.n[2]) as int),
        forall|t: int| 0 <= t < v.len() ==> #[trigger] v[t] == 0,
        forall|t: int| 0 <= t < va.len() ==> #[trigger] va[t] == 0,
        forall|t: int| 0 <= t < vb.len() ==> #[trigger] vb[t] == 0,
        forall|t: int| 0 <= t < p.len() ==> #[trigger] p[t] == pv,
    ensures
        predict_stage(cfg, a, aa, ab, v, va, vb, p).len() == vnx(cfg, a) * (vny(cfg, a) * vnz(
            cfg,
            a,
        )),
        forall|t: int|
            0 <= t < predict_stage(cfg, a, aa, ab, v, va, vb, p).len()
                ==> #[trigger] predict_stage(cfg, a, aa, ab, v, va, vb, p)[t] == 0,
{
    crate::fixed::lemma_fp_zero();
    lemma_rest_dims(cfg, a);
    lemma_rest_dims(cfg, aa);
    lemma_rest_dims(cfg, ab);
    assert((cfg.h as int) * (cfg.h as int) >= SCALE as int) by (nonlinear_arith)
        requires
            cfg.h as int >= crate::config::MIN_H as int,
            crate::config::MIN_H as int == 32_000,
    ;
    crate::fixed::lemma_fp_mul_ge_one(cfg.h as int, cfg.h as int);
    let nx = vnx(cfg, a);
    let ny = vny(cfg, a);
    let nz = vnz(cfg, a);
    crate::grid::lemma_len_nonneg(nx, ny, nz);
    let stage = predict_stage(cfg, a, aa, ab, v, va, vb, p);
    assert forall|t: int| 0 <= t < stage.len() implies #[trigger] stage[t] == 0 by {
        crate::grid::lemma_flat3_surjective(t, nx, ny, nz);
        let x = t / (ny * nz);
        let y = (t / nz) % ny;
        let z = t % nz;
        if vinterior(cfg, a, x, y, z) {
            lemma_const_at(v, 0, nx, ny, nz, x, y, z);
            lemma_const_at(v, 0, nx, ny, nz, x + unit(0, 0), y + unit(0, 1), z + unit(0, 2));
            lemma_const_at(v, 0, nx, ny, nz, x - unit(0, 0), y - unit(0, 1), z - unit(0, 2));
            lemma_const_at(v, 0, nx, ny, nz, x + unit(1, 0), y + unit(1, 1), z + unit(1, 2));
            lemma_const_at(v, 0, nx, ny, nz, x - unit(1, 0), y - unit(1, 1), z - unit(1, 2));
            lemma_const_at(v, 0, nx, ny, nz, x + unit(2, 0), y + unit(2, 1), z + unit(2, 2));
            lemma_const_at(v, 0, nx, ny, nz, x - unit(2, 0), y - unit(2, 1), z - unit(2, 2));
            let nya = vny(cfg, aa);
            let nza = vnz(cfg, aa);
            lemma_const_at(va, 0, vnx(cfg, aa), nya, nza, x - unit(aa, 0), y - unit(aa, 1),
                z - unit(aa, 2));
            lemma_const_at(va, 0, vnx(cfg, aa), nya, nza, x - unit(aa, 0) + unit(a, 0),
                y - unit(aa, 1) + unit(a, 1), z - unit(aa, 2) + unit(a, 2));
            lemma_const_at(va, 0, vnx(cfg, aa), nya, nza, x, y, z);
            lemma_const_at(va, 0, vnx(cfg, aa), nya, nza, x + unit(a, 0), y + unit(a, 1),
                z + unit(a, 2));
            let nyb = vny(cfg, ab);
            let nzb = vnz(cfg, ab);
            lemma_const_at(vb, 0, vnx(cfg, ab), nyb, nzb, x - unit(ab, 0), y - unit(ab, 1),
                z - unit(ab, 2));
            lemma_const_at(vb, 0, vnx(cfg, ab), nyb, nzb, x - unit(ab, 0) + unit(a, 0),
                y - unit(ab, 1) + unit(a, 1), z - unit(ab, 2) + unit(a, 2));
            lemma_const_at(vb, 0, vnx(cfg, ab), nyb, nzb, x, y, z);
            lemma_const_at(vb, 0, vnx(cfg, ab), nyb, nzb, x + unit(a, 0), y + unit(a, 1),
                z + unit(a, 2));
            lemma_const_at(p, pv, cfg.n[0] as int, cfg.n[1] as int, cfg.n[2] as int, x - 1,
                y - 1, z - 1);
            lemma_const_at(p, pv, cfg.n[0] as int, cfg.n[1] as int, cfg.n[2] as int, x - 1
                + unit(a, 0), y - 1 + unit(a, 1), z - 1 + unit(a, 2));
            assert(predict_point(cfg, a, aa, ab, v, va, vb, p, x, y, z) == 0);
        }
    }
}

/// The wall cascade maps an all-zero component to zero everywhere: walls
/// force zero, and the mirror of zero is zero.
proof fn lemma_bc_walls_zero(cfg: SimConfig, b: int, s: Seq<i64>)
    requires
        cfg.valid(),
        0 <= b < 3,
        s.len() == vnx(cfg, b) * (vny(cfg, b) * vnz(cfg, b)),
        forall|t: int| 0 <= t < s.len() ==> #[trigger] s[t] == 0,
    ensures
        forall|i: int, j: int, k: int|
            0 <= i < vnx(cfg, b) && 0 <= j < vny(cfg, b) && 0 <= k < vnz(cfg, b)
                ==> #[trigger] crate::boundary::bc_g2(cfg, b, s, 0, i, j, k) == 0,
{
    lemma_rest_dims(cfg, b);
    let nx = vnx(cfg, b);
    let ny = vny(cfg, b);
    let nz = vnz(cfg, b);
    assert forall|i: int, j: int, k: int|
        0 <= i < nx && 0 <= j < ny && 0 <= k < nz implies #[trigger] crate::boundary::bc_g0(
        cfg,
        b,
        s,
        0,
        i,
        j,
        k,
    ) == 0 by {
        lemma_const_at(s, 0, nx, ny, nz, i, j, k);
        if b != 0 && i == 0 {
            lemma_const_at(s, 0, nx, ny, nz, 1, j, k);
        }
        if b != 0 && i == cfg.n[0] + 1 {
            lemma_const_at(s, 0, nx, ny, nz, cfg.n[0] as int, j, k);
        }
    }
    assert forall|i: int, j: int, k: int|
        0 <= i < nx && 0 <= j < ny && 0 <= k < nz implies #[trigger] crate::boundary::bc_g1(
        cfg,
        b,
        s,
        0,
        i,
        j,
        k,
    ) == 0 by {
        assert(crate::boundary::bc_g0(cfg, b, s, 0, i, j, k) == 0);
        if b != 1 && j == 0 {
            assert(crate::boundary::bc_g0(cfg, b, s, 0, i, 1, k) == 0);
        }
        if b != 1 && j == cfg.n[1] + 1 {
            assert(crate::boundary::bc_g0(cfg, b, s, 0, i, cfg.n[1] as int, k) == 0);
        }
    }
    assert forall|i: int, j: int, k: int|
        0 <= i < nx && 0 <= j < ny && 0 <= k < nz implies #[trigger] crate::boundary::bc_g2(
        cfg,
        b,
        s,
        0,
        i,
        j,
        k,
    ) == 0 by {
        assert(crate::boundary::bc_g1(cfg, b, s, 0, i, j, k) == 0);
        if b != 2 && k == 0 {
            assert(crate::boundary::bc_g1(cfg, b, s, 0, i, j, 1) == 0);
        }
        if b != 2 && k == cfg.n[2] + 1 {
            assert(crate::boundary::bc_g1(cfg, b, s, 0, i, j, cfg.n[2] as int) == 0);
        }
    }
}

/// With every inflow at zero flow, the whole boundary cascade maps an
/// all-zero component to zero.
proof fn lemma_bc_cascade_zero(cfg: SimConfig, b: int, s: Seq<i64>, m: int, i: int, j: int, k: int)
    requires
        cfg.valid(),
        0 <= b < 3,
        0 <= m <= cfg.inflows.len(),
        forall|m2: int| 0 <= m2 < cfg.inflows.len() ==> #[trigger] cfg.inflows[m2].flow == 0,
        s.len() == vnx(cfg, b) * (vny(cfg, b) * vnz(cfg, b)),
        forall|t: int| 0 <= t < s.len() ==> #[trigger] s[t] == 0,
        0 <= i < vnx(cfg, b),
        0 <= j < vny(cfg, b),
        0 <= k < vnz(cfg, b),
    ensures
        crate::boundary::bc_inflow(cfg, b, s, 0, m, i, j, k) == 0,
    decreases m,
{
    if m <= 0 {
        lemma_bc_walls_zero(cfg, b, s);
    } else {
        assert(cfg.inflows[m - 1].flow == 0);
        lemma_bc_cascade_zero(cfg, b, s, m - 1, i, j, k);
    }
}

/// The boundary stage of an all-zero component is all-zero.
proof fn lemma_bc_stage_zero(cfg: SimConfig, b: int, s: Seq<i64>)
    requires
        cfg.valid(),
        0 <= b < 3,
        forall|m2: int| 0 <= m2 < cfg.inflows.len() ==> #[trigger] cfg.inflows[m2].flow == 0,
        s.len() == vnx(cfg, b) * (vny(cfg, b) * vnz(cfg, b)),
        forall|t: int| 0 <= t < s.len() ==> #[trigger] s[t] == 0,
    ensures
        bc_stage(cfg, b, s).len() == vnx(cfg, b) * (vny(cfg, b) * vnz(cfg, b)),
        forall|t: int|
            0 <= t < bc_stage(cfg, b, s).len() ==> #[trigger] bc_stage(cfg, b, s)[t] == 0,
{
    lemma_rest_dims(cfg, b);
    let nx = vnx(cfg, b);
    let ny = vny(cfg, b);
    let nz = vnz(cfg, b);
    crate::grid::lemma_len_nonneg(nx, ny, nz);
    let stage = bc_stage(cfg, b, s);
    assert forall|t: int| 0 <= t < stage.len() implies #[trigger] stage[t] == 0 by {
        crate::grid::lemma_flat3_surjective(t, nx, ny, nz);
        lemma_bc_cascade_zero(cfg, b, s, cfg.inflows.len() as int, t / (ny * nz), (t / nz) % ny,
            t % nz);
    }
}

/// The correction of zero provisional velocities is zero.
proof fn lemma_corr_stage_zero(cfg: SimConfig, sx: Seq<i64>, sy: Seq<i64>, sz: Seq<i64>)
    requires
        cfg.valid(),
        sx.len() == vnx(cfg, 0) * (vny(cfg, 0) * vnz(cfg, 0)),
        sy.len() == vnx(cfg, 1) * (vny(cfg, 1) * vnz(cfg, 1)),
        sz.len() == vnx(cfg, 2) * (vny(cfg, 2) * vnz(cfg, 2)),
        forall|t: int| 0 <= t < sx.len() ==> #[trigger] sx[t] == 0,
        forall|t: int| 0 <= t < sy.len() ==> #[trigger] sy[t] == 0,
        forall|t: int| 0 <= t < sz.len() ==> #[trigger] sz[t] == 0,
    ensures
        corr_stage(cfg, sx, sy, sz).len() == cfg.n[0] * ((cfg.n[1] * cfg.n[2]) as int),
        forall|t: int|
            0 <= t < corr_stage(cfg, sx, sy, sz).len() ==> #[trigger] corr_stage(
                cfg,
                sx,
                sy,
                sz,
            )[t] == 0,
{
    crate::fixed::lemma_fp_zero();
    lemma_rest_dims(cfg, 0);
    lemma_rest_dims(cfg, 1);
    lemma_rest_dims(cfg, 2);
    let n0 = cfg.n[0] as int;
    let n1 = cfg.n[1] as int;
    let n2 = cfg.n[2] as int;
    crate::grid::lemma_len_nonneg(n0, n1, n2);
    let stage = corr_stage(cfg, sx, sy, sz);
    assert forall|t: int| 0 <= t < stage.len() implies #[trigger] stage[t] == 0 by {
        crate::grid::lemma_flat3_surjective(t, n0, n1, n2);
        let i = t / (n1 * n2);
        let j = (t / n2) % n1;
        let k = t % n2;
        if corr_region(cfg, i, j, k) {
            lemma_const_at(sx, 0, vnx(cfg, 0), vny(cfg, 0), vnz(cfg, 0), i + 1, j + 1, k + 1);
            lemma_const_at(sx, 0, vnx(cfg, 0), vny(cfg, 0), vnz(cfg, 0), i, j + 1, k + 1);
            lemma_const_at(sy, 0, vnx(cfg, 1), vny(cfg, 1), vnz(cfg, 1), i + 1, j + 1, k + 1);
            lemma_const_at(sy, 0, vnx(cfg, 1), vny(cfg, 1), vnz(cfg, 1), i + 1, j, k + 1);
            lemma_const_at(sz, 0, vnx(cfg, 2), vny(cfg, 2), vnz(cfg, 2), i + 1, j + 1, k + 1);
            lemma_const_at(sz, 0, vnx(cfg, 2), vny(cfg, 2), vnz(cfg, 2), i + 1, j + 1, k);
        }
    }
}

/// Projecting a zero component with a zero correction leaves it zero.
proof fn lemma_update_stage_zero(cfg: SimConfig, a: int, s: Seq<i64>, c: Seq<i64>)
    requires
        cfg.valid(),
        0 <= a < 3,
        s.len() == vnx(cfg, a) * (vny(cfg, a) * vnz(cfg, a)),
        c.len() == cfg.n[0] * ((cfg.n[1] * cfg.n[2]) as int),
        forall|t: int| 0 <= t < s.len() ==> #[trigger] s[t] == 0,
        forall|t: int| 0 <= t < c.len() ==> #[trigger] c[t] == 0,
    ensures
        update_stage(cfg, a, s, c).len() == vnx(cfg, a) * (vny(cfg, a) * vnz(cfg, a)),
        forall|t: int|
            0 <= t < update_stage(cfg, a, s, c).len() ==> #[trigger] update_stage(
                cfg,
                a,
                s,
                c,
            )[t] == 0,
{
    crate::fixed::lemma_fp_zero();
    lemma_rest_dims(cfg, a);
    let nx = vnx(cfg, a);
    let ny = vny(cfg, a);
    let nz = vnz(cfg, a);
    crate::grid::lemma_len_nonneg(nx, ny, nz);
    let stage = update_stage(cfg, a, s, c);
    assert forall|t: int| 0 <= t < stage.len() implies #[trigger] stage[t] == 0 by {
        crate::grid::lemma_flat3_surjective(t, nx, ny, nz);
        let i = t / (ny * nz);
        let j = (t / nz) % ny;
        let k = t % nz;
        lemma_const_at(s, 0, nx, ny, nz, i, j, k);
        if vinterior(cfg, a, i, j, k) {
            lemma_const_at(c, 0, cfg.n[0] as int, cfg.n[1] as int, cfg.n[2] as int, i + unit(
                a, 0) - 1, j + unit(a, 1) - 1, k + unit(a, 2) - 1);
            lemma_const_at(c, 0, cfg.n[0] as int, cfg.n[1] as int, cfg.n[2] as int, i - 1,
                j - 1, k - 1);
        }
    }
}

/// A fluid at rest stays at rest: with no body force and every inflow
/// region at zero flow, one correction iteration from zero velocities and
/// a uniform pressure field meets the tolerance immediately.  A time step
/// therefore converges on its very first iteration, the committed
/// provisional velocities are all zero, and the accumulated correction
/// leaves the pressure untouched.
pub proof fn lemma_rest_state_converges(
    cfg: SimConfig,
    zx: Seq<i64>,
    zy: Seq<i64>,
    zz: Seq<i64>,
    p: Seq<i64>,
    pv: i64,
    fuel: nat,
)
    requires
        cfg.valid(),
        cfg.force[0] == 0,
        cfg.force[1] == 0,
        cfg.force[2] == 0,
        forall|m: int| 0 <= m < cfg.inflows.len() ==> #[trigger] cfg.inflows[m].flow == 0,
        zx.len() == vnx(cfg, 0) * (vny(cfg, 0) * vnz(cfg, 0)),
        zy.len() == vnx(cfg, 1) * (vny(cfg, 1) * vnz(cfg, 1)),
        zz.len() == vnx(cfg, 2) * (vny(cfg, 2) * vnz(cfg, 2)),
        p.len() == cfg.n[0] * ((cfg.n[1] * cfg.n[2]) as int),
        forall|t: int| 0 <= t < zx.len() ==> #[trigger] zx[t] == 0,
        forall|t: int| 0 <= t < zy.len() ==> #[trigger] zy[t] == 0,
        forall|t: int| 0 <= t < zz.len() ==> #[trigger] zz[t] == 0,
        forall|t: int| 0 <= t < p.len() ==> #[trigger] p[t] == pv,
        in_range(pv as int),
        fuel >= 1,
    ensures
        iteration_converged(cfg, zx, zy, zz, p),
        converge_steps(cfg, zx, zy, zz, p, fuel) == Option::<int>::Some(0),
        forall|t: int|
            0 <= t < iteration_velocities(cfg, zx, zy, zz, p).0.len()
                ==> #[trigger] iteration_velocities(cfg, zx, zy, zz, p).0[t] == 0,
        forall|t: int|
            0 <= t < iteration_velocities(cfg, zx, zy, zz, p).1.len()
                ==> #[trigger] iteration_velocities(cfg, zx, zy, zz, p).1[t] == 0,
        forall|t: int|
            0 <= t < iteration_velocities(cfg, zx, zy, zz, p).2.len()
                ==> #[trigger] iteration_velocities(cfg, zx, zy, zz, p).2[t] == 0,
        iteration_pressure(cfg, zx, zy, zz, p).len() == p.len(),
        forall|t: int|
            0 <= t < iteration_pressure(cfg, zx, zy, zz, p).len() ==> #[trigger] iteration_pressure(
                cfg,
                zx,
                zy,
                zz,
                p,
            )[t] == pv,
{
    crate::fixed::lemma_fp_zero();
    lemma_rest_dims(cfg, 0);
    lemma_rest_dims(cfg, 1);
    lemma_rest_dims(cfg, 2);
    let n0 = cfg.n[0] as int;
    let n1 = cfg.n[1] as int;
    let n2 = cfg.n[2] as int;
    lemma_predict_stage_zero(cfg, 0, 1, 2, zx, zy, zz, p, pv);
    lemma_predict_stage_zero(cfg, 1, 0, 2, zy, zx, zz, p, pv);
    lemma_predict_stage_zero(cfg, 2, 0, 1, zz, zx, zy, p, pv);
    lemma_bc_stage_zero(cfg, 0, predict_stage(cfg, 0, 1, 2, zx, zy, zz, p));
    lemma_bc_stage_zero(cfg, 1, predict_stage(cfg, 1, 0, 2, zy, zx, zz, p));
    lemma_bc_stage_zero(cfg, 2, predict_stage(cfg, 2, 0, 1, zz, zx, zy, p));
    let b1 = iteration_bc1(cfg, zx, zy, zz, p);
    let corr = iteration_correction(cfg, zx, zy, zz, p);
    lemma_corr_stage_zero(cfg, b1.0, b1.1, b1.2);
    lemma_update_stage_zero(cfg, 0, b1.0, corr);
    lemma_update_stage_zero(cfg, 1, b1.1, corr);
    lemma_update_stage_zero(cfg, 2, b1.2, corr);
    lemma_bc_stage_zero(cfg, 0, update_stage(cfg, 0, b1.0, corr));
    lemma_bc_stage_zero(cfg, 1, update_stage(cfg, 1, b1.1, corr));
    lemma_bc_stage_zero(cfg, 2, update_stage(cfg, 2, b1.2, corr));
    let fin = iteration_velocities(cfg, zx, zy, zz, p);
    assert forall|x: int, y: int, z: int| cc_interior(cfg, x, y, z) implies fp_abs(
        #[trigger] divergence_point(cfg, fin.0, fin.1, fin.2, x, y, z),
    ) <= cfg.tolerance by {
        lemma_const_at(fin.0, 0, vnx(cfg, 0), vny(cfg, 0), vnz(cfg, 0), x + 1, y + 1, z + 1);
        lemma_const_at(fin.0, 0, vnx(cfg, 0), vny(cfg, 0), vnz(cfg, 0), x, y + 1, z + 1);
        lemma_const_at(fin.1, 0, vnx(cfg, 1), vny(cfg, 1), vnz(cfg, 1), x + 1, y + 1, z + 1);
        lemma_const_at(fin.1, 0, vnx(cfg, 1), vny(cfg, 1), vnz(cfg, 1), x + 1, y, z + 1);
        lemma_const_at(fin.2, 0, vnx(cfg, 2), vny(cfg, 2), vnz(cfg, 2), x + 1, y + 1, z + 1);
        lemma_const_at(fin.2, 0, vnx(cfg, 2), vny(cfg, 2), vnz(cfg, 2), x + 1, y + 1, z);
    }
    assert(iteration_converged(cfg, zx, zy, zz, p));
    crate::grid::lemma_len_nonneg(n0, n1, n2);
    let pnext = iteration_pressure(cfg, zx, zy, zz, p);
    assert forall|t: int| 0 <= t < pnext.len() implies #[trigger] pnext[t] == pv by {
        crate::grid::lemma_flat3_surjective(t, n0, n1, n2);
        let i = t / (n1 * n2);
        let j = (t / n2) % n1;
        let k = t % n2;
        lemma_const_at(p, pv, n0, n1, n2, i, j, k);
        lemma_const_at(corr, 0, n0, n1, n2, i, j, k);
    }
}

/// Shared skeleton of the commit lemmas below: a field that agrees with a
/// built grid at every coordinate holds exactly that sequence.
proof fn lemma_field_is(f: Field, s: Seq<i64>)
    requires
        f.wf(),
        s.len() == (f.nx as int) * ((f.ny as int) * (f.nz as int)),
        forall|i: int, j: int, k: int|
            0 <= i < f.nx && 0 <= j < f.ny && 0 <= k < f.nz ==> #[trigger] f.at(i, j, k) == s[
                crate::grid::flat3(i, j, k, f.ny as int, f.nz as int)] as int,
    ensures
        f.data@ == s,
{
    assert forall|i: int, j: int, k: int|
        0 <= i < f.nx && 0 <= j < f.ny && 0 <= k < f.nz implies #[trigger] f.data@[
    crate::grid::flat3(i, j, k, f.ny as int, f.nz as int)] == s[crate::grid::flat3(
        i,
        j,
        k,
        f.ny as int,
        f.nz as int,
    )] by {
        crate::grid::lemma_flat3(i, j, k, f.nx as int, f.ny as int, f.nz as int);
        assert(f.at(i, j, k) == s[crate::grid::flat3(i, j, k, f.ny as int, f.nz as int)] as int);
    }
    crate::grid::lemma_seq_pointwise(f.data@, s, f.nx as int, f.ny as int, f.nz as int);
}

/// A freshly predicted grid (zero before the sweep) holds the predict
/// stage sequence.
proof fn lemma_commit_predict(
    cfg: SimConfig,
    a: int,
    aa: int,
    ab: int,
    v: Seq<i64>,
    va: Seq<i64>,
    vb: Seq<i64>,
    p: Seq<i64>,
    f: Field,
    f0: Field,
)
    requires
        cfg.grid_ok(),
        f.wf(),
        f.nx == vnx(cfg, a),
        f.ny == vny(cfg, a),
        f.nz == vnz(cfg, a),
        f0.nx == f.nx,
        f0.ny == f.ny,
        f0.nz == f.nz,
        f0.data.len() == f.data.len(),
        forall|t: int| 0 <= t < f0.data.len() ==> #[trigger] f0.data[t] == 0,
        forall|i: int, j: int, k: int|
            0 <= i < f.nx && 0 <= j < f.ny && 0 <= k < f.nz ==> #[trigger] f.at(i, j, k)
                == if vinterior(cfg, a, i, j, k) {
                predict_point(cfg, a, aa, ab, v, va, vb, p, i, j, k)
            } else {
                f0.at(i, j, k)
            },
    ensures
        f.data@ == predict_stage(cfg, a, aa, ab, v, va, vb, p),
{
    crate::grid::lemma_len_nonneg(f.nx as int, f.ny as int, f.nz as int);
    assert forall|i: int, j: int, k: int|
        0 <= i < f.nx && 0 <= j < f.ny && 0 <= k < f.nz implies #[trigger] f.at(i, j, k)
        == predict_stage(cfg, a, aa, ab, v, va, vb, p)[crate::grid::flat3(i, j, k, f.ny as int,
        f.nz as int)] as int by {
        crate::grid::lemma_flat3(i, j, k, f.nx as int, f.ny as int, f.nz as int);
    }
    lemma_field_is(f, predict_stage(cfg, a, aa, ab, v, va, vb, p));
}

/// A grid left by one boundary pass over `s` holds the boundary stage
/// sequence.
proof fn lemma_commit_bc(cfg: SimConfig, b: int, s: Seq<i64>, f: Field)
    requires
        cfg.grid_ok(),
        f.wf(),
        f.nx == vnx(cfg, b),
        f.ny == vny(cfg, b),
        f.nz == vnz(cfg, b),
        forall|i: int, j: int, k: int|
            0 <= i < f.nx && 0 <= j < f.ny && 0 <= k < f.nz ==> #[trigger] f.at(i, j, k)
                == crate::boundary::bc_point(cfg, b, s, i, j, k),
    ensures
        f.data@ == bc_stage(cfg, b, s),
{
    crate::grid::lemma_len_nonneg(f.nx as int, f.ny as int, f.nz as int);
    assert forall|i: int, j: int, k: int|
        0 <= i < f.nx && 0 <= j < f.ny && 0 <= k < f.nz implies #[trigger] f.at(i, j, k)
        == bc_stage(cfg, b, s)[crate::grid::flat3(i, j, k, f.ny as int, f.nz as int)] as int by {
        crate::grid::lemma_flat3(i, j, k, f.nx as int, f.ny as int, f.nz as int);
    }
    lemma_field_is(f, bc_stage(cfg, b, s));
}

/// The computed correction field holds the correction stage sequence.
proof fn lemma_commit_corr(cfg: SimConfig, sx: Seq<i64>, sy: Seq<i64>, sz: Seq<i64>, f: Field)
    requires
        cfg.grid_ok(),
        f.wf(),
        f.nx == cfg.n[0],
        f.ny == cfg.n[1],
        f.nz == cfg.n[2],
        forall|i: int, j: int, k: int|
            0 <= i < f.nx && 0 <= j < f.ny && 0 <= k < f.nz ==> #[trigger] f.at(i, j, k)
                == if corr_region(cfg, i, j, k) {
                corr_point(cfg, sx, sy, sz, i, j, k)
            } else {
                0
            },
    ensures
        f.data@ == corr_stage(cfg, sx, sy, sz),
{
    crate::grid::lemma_len_nonneg(f.nx as int, f.ny as int, f.nz as int);
    assert forall|i: int, j: int, k: int|
        0 <= i < f.nx && 0 <= j < f.ny && 0 <= k < f.nz implies #[trigger] f.at(i, j, k)
        == corr_stage(cfg, sx, sy, sz)[crate::grid::flat3(i, j, k, f.ny as int,
        f.nz as int)] as int by {
        crate::grid::lemma_flat3(i, j, k, f.nx as int, f.ny as int, f.nz as int);
    }
    lemma_field_is(f, corr_stage(cfg, sx, sy, sz));
}

/// A grid left by the projection update over `s` with correction `c` holds
/// the update stage sequence.
proof fn lemma_commit_update(cfg: SimConfig, a: int, s: Seq<i64>, c: Seq<i64>, f: Field)
    requires
        cfg.grid_ok(),
        f.wf(),
        f.nx == vnx(cfg, a),
        f.ny == vny(cfg, a),
        f.nz == vnz(cfg, a),
        forall|i: int, j: int, k: int|
            0 <= i < f.nx && 0 <= j < f.ny && 0 <= k < f.nz ==> #[trigger] f.at(i, j, k)
                == if vinterior(cfg, a, i, j, k) {
                update_point(cfg, a, s, c, i, j, k)
            } else {
                sq_at(s, vny(cfg, a), vnz(cfg, a), i, j, k)
            },
    ensures
        f.data@ == update_stage(cfg, a, s, c),
{
    crate::grid::lemma_len_nonneg(f.nx as int, f.ny as int, f.nz as int);
    assert forall|i: int, j: int, k: int|
        0 <= i < f.nx && 0 <= j < f.ny && 0 <= k < f.nz implies #[trigger] f.at(i, j, k)
        == update_stage(cfg, a, s, c)[crate::grid::flat3(i, j, k, f.ny as int,
        f.nz as int)] as int by {
        crate::grid::lemma_flat3(i, j, k, f.nx as int, f.ny as int, f.nz as int);
    }
    lemma_field_is(f, update_stage(cfg, a, s, c));
}

/// A pressure grid left by the additive update holds the pressure stage
/// sequence.
proof fn lemma_commit_padd(cfg: SimConfig, p: Seq<i64>, c: Seq<i64>, f: Field)
    requires
        cfg.grid_ok(),
        f.wf(),
        f.nx == cfg.n[0],
        f.ny == cfg.n[1],
        f.nz == cfg.n[2],
        forall|i: int, j: int, k: int|
            0 <= i < f.nx && 0 <= j < f.ny && 0 <= k < f.nz ==> #[trigger] f.at(i, j, k) == fp_add(
                sq_at(p, cfg.n[1] as int, cfg.n[2] as int, i, j, k),
                sq_at(c, cfg.n[1] as int, cfg.n[2] as int, i, j, k),
            ),
    ensures
        f.data@ == pressure_stage(cfg, p, c),
{
    crate::grid::lemma_len_nonneg(f.nx as int, f.ny as int, f.nz as int);
    assert forall|i: int, j: int, k: int|
        0 <= i < f.nx && 0 <= j < f.ny && 0 <= k < f.nz implies #[trigger] f.at(i, j, k)
        == pressure_stage(cfg, p, c)[crate::grid::flat3(i, j, k, f.ny as int,
        f.nz as int)] as int by {
        crate::grid::lemma_flat3(i, j, k, f.nx as int, f.ny as int, f.nz as int);
    }
    lemma_field_is(f, pressure_stage(cfg, p, c));
}

} // verus!
