//! Engine configuration.
//!
//! All physical and numerical constants are bundled into one immutable
//! structure that is validated once, before any stepping begins.  The
//! validity predicate is exactly the set of inputs on which every verified
//! routine of the engine is defined: positive spacing, time step and density,
//! bounded magnitudes, inflow regions on a domain face, and a hydrostatic
//! profile that fits the representable band.

use vstd::prelude::*;

use crate::fixed::{fp_abs, fp_mul, in_range, FP_MAX, SCALE};
use crate::grid::MAX_N;

verus! {

/// Largest magnitude accepted for a configured constant.
pub const CMAX: i64 = 0x4_0000_0000_0000;

/// Smallest accepted grid spacing; keeps `h * h` a positive fixed-point
/// number, so second derivatives never divide by zero.
pub const MIN_H: i64 = 32_000;

/// Smallest accepted density; together with `MIN_H` it keeps `rho * h` at
/// least one fixed-point step, so the projection divisor stays positive.
pub const MIN_RHO: i64 = 31_250;

/// A prescribed flow region on one face of the domain: the velocity
/// component along `axis` is overridden with `flow` there, and the parallel
/// components are zeroed on a slightly wider collar.
pub struct Inflow {
    pub axis: usize,
    pub min: [usize; 3],
    pub max: [usize; 3],
    pub flow: i64,
}

impl Inflow {
    /// Prescribed flow rate for a given time step.  The profile is a
    /// constant for now; the time-step index is part of the interface so a
    /// time-varying profile stays a local change.
    pub fn rate(&self, time_step: usize) -> (r: i64)
        ensures
            r == self.flow,
    {
        let _unused = time_step;
        self.flow
    }
}

/// Reason a configuration was rejected.
#[derive(Clone, Copy, Debug, PartialEq, Eq, Structural)]
pub enum ConfigError {
    GridResolution,
    Spacing,
    TimeStep,
    Density,
    Viscosity,
    BodyForce,
    ReferencePressure,
    Relaxation,
    Tolerance,
    IterationBudget,
    InflowRegion,
    RenderRegion,
    PressureProfile,
}

pub struct SimConfig {
    /// Cells per axis of the pressure grid.
    pub n: [usize; 3],
    /// Grid spacing (metres, fixed-point).
    pub h: i64,
    /// Time-step size (seconds, fixed-point).
    pub dt: i64,
    /// Fluid density (kg/m^3, fixed-point).
    pub rho: i64,
    /// Dynamic viscosity (Pa s, fixed-point).
    pub nu: i64,
    /// External body force per axis (N/kg, fixed-point).
    pub force: [i64; 3],
    /// Reference (atmospheric) pressure (Pa, fixed-point).
    pub p_atm: i64,
    /// Over-relaxation factor applied to the pressure correction.
    pub relaxation: i64,
    /// Largest admissible interior divergence at convergence.
    pub tolerance: i64,
    /// Iteration budget of the pressure-correction loop per time step.
    pub max_iterations: usize,
    /// Inflow/outflow regions, applied in order after the wall conditions.
    pub inflows: Vec<Inflow>,
    /// Lowest pressure-point coordinates of the rendered sub-region.
    pub render_min: [usize; 3],
    /// Highest pressure-point coordinates of the rendered sub-region.
    pub render_max: [usize; 3],
    /// Output resolution of the rendered sample grid.
    pub render_size: [usize; 3],
}

impl SimConfig {
    pub open spec fn grid_ok(self) -> bool {
        forall|d: int| 0 <= d < 3 ==> 2 <= #[trigger] self.n[d] <= MAX_N
    }

    pub open spec fn spacing_ok(self) -> bool {
        MIN_H <= self.h <= CMAX
    }

    pub open spec fn time_step_ok(self) -> bool {
        0 < self.dt <= CMAX
    }

    pub open spec fn density_ok(self) -> bool {
        MIN_RHO <= self.rho <= CMAX
    }

    pub open spec fn viscosity_ok(self) -> bool {
        0 <= self.nu <= CMAX
    }

    pub open spec fn force_ok(self) -> bool {
        forall|d: int| 0 <= d < 3 ==> -CMAX <= #[trigger] self.force[d] <= CMAX
    }

    pub open spec fn pressure_ok(self) -> bool {
        -CMAX <= self.p_atm <= CMAX
    }

    pub open spec fn relaxation_ok(self) -> bool {
        0 < self.relaxation <= CMAX
    }

    pub open spec fn tolerance_ok(self) -> bool {
        0 <= self.tolerance <= CMAX
    }

    pub open spec fn iterations_ok(self) -> bool {
        1 <= self.max_iterations <= 1_000_000
    }

    pub open spec fn inflow_ok(self, f: Inflow) -> bool {
        &&& f.axis < 3
        &&& (forall|d: int| 0 <= d < 3 ==> #[trigger] f.min[d] <= f.max[d])
        &&& (forall|d: int| 0 <= d < 3 && d != f.axis ==> #[trigger] f.max[d] < self.n[d])
        &&& f.min[f.axis as int] == f.max[f.axis as int]
        &&& (f.min[f.axis as int] == 0 || f.min[f.axis as int] == self.n[f.axis as int])
        &&& -CMAX <= f.flow <= CMAX
    }

    pub open spec fn inflows_ok(self) -> bool {
        forall|m: int| 0 <= m < self.inflows.len() ==> self.inflow_ok(#[trigger] self.inflows[m])
    }

    pub open spec fn render_ok(self) -> bool {
        forall|d: int|
            0 <= d < 3 ==> {
                &&& 1 <= #[trigger] self.render_size[d] <= MAX_N
                &&& self.render_min[d] <= self.render_max[d]
                &&& self.render_max[d] < self.n[d]
            }
    }

    /// The per-cell pressure increment of the hydrostatic profile.
    pub open spec fn hydro_c(self) -> int {
        fp_mul(fp_mul(self.rho as int, self.h as int), self.force[2] as int)
    }

    /// The hydrostatic column fits the representable band without clipping.
    pub open spec fn hydro_fits(self) -> bool {
        fp_abs(self.p_atm as int) + (self.n[2] + 1) * fp_abs(self.hydro_c()) <= FP_MAX as int
    }

    pub open spec fn valid(self) -> bool {
        &&& self.grid_ok()
        &&& self.spacing_ok()
        &&& self.time_step_ok()
        &&& self.density_ok()
        &&& self.viscosity_ok()
        &&& self.force_ok()
        &&& self.pressure_ok()
        &&& self.relaxation_ok()
        &&& self.tolerance_ok()
        &&& self.iterations_ok()
        &&& self.inflows_ok()
        &&& self.render_ok()
        &&& self.hydro_fits()
    }

    /// The first rejection a validation pass reports, checking in the same
    /// order as `validate`.
    pub open spec fn first_fault(self) -> ConfigError {
        if !self.grid_ok() {
            ConfigError::GridResolution
        } else if !self.spacing_ok() {
            ConfigError::Spacing
        } else if !self.time_step_ok() {
            ConfigError::TimeStep
        } else if !self.density_ok() {
            ConfigError::Density
        } else if !self.viscosity_ok() {
            ConfigError::Viscosity
        } else if !self.force_ok() {
            ConfigError::BodyForce
        } else if !self.pressure_ok() {
            ConfigError::ReferencePressure
        } else if !self.relaxation_ok() {
            ConfigError::Relaxation
        } else if !self.tolerance_ok() {
            ConfigError::Tolerance
        } else if !self.iterations_ok() {
            ConfigError::IterationBudget
        } else if !self.inflows_ok() {
            ConfigError::InflowRegion
        } else if !self.render_ok() {
            ConfigError::RenderRegion
        } else {
            ConfigError::PressureProfile
        }
    }

    /// Accepts a configuration exactly when every verified routine of the
    /// engine is defined on it; otherwise names the first rejected part.
    #[verifier::loop_isolation(false)]
    pub fn validate(self) -> (r: Result<SimConfig, ConfigError>)
        ensures
            self.valid() ==> r == Ok::<SimConfig, ConfigError>(self),
            !self.valid() ==> r == Err::<SimConfig, ConfigError>(self.first_fault()),
    {
        if !(2 <= self.n[0] && self.n[0] <= MAX_N && 2 <= self.n[1] && self.n[1] <= MAX_N && 2
            <= self.n[2] && self.n[2] <= MAX_N) {
            return Err(ConfigError::GridResolution);
        }
        proof {
            assert forall|d: int| 0 <= d < 3 implies 2 <= #[trigger] self.n[d] <= MAX_N by {
                if d == 0 {
                } else if d == 1 {
                } else {
                    assert(d == 2);
                }
            }
        }
        if !(MIN_H <= self.h && self.h <= CMAX) {
            return Err(ConfigError::Spacing);
        }
        if !(0 < self.dt && self.dt <= CMAX) {
            return Err(ConfigError::TimeStep);
        }
        if !(MIN_RHO <= self.rho && self.rho <= CMAX) {
            return Err(ConfigError::Density);
        }
        if !(0 <= self.nu && self.nu <= CMAX) {
            return Err(ConfigError::Viscosity);
        }
        if !(-CMAX <= self.force[0] && self.force[0] <= CMAX && -CMAX <= self.force[1]
            && self.force[1] <= CMAX && -CMAX <= self.force[2] && self.force[2] <= CMAX) {
            return Err(ConfigError::BodyForce);
        }
        proof {
            assert forall|d: int| 0 <= d < 3 implies -CMAX <= #[trigger] self.force[d]
                <= CMAX by {
                if d == 0 {
                } else if d == 1 {
                } else {
                    assert(d == 2);
                }
            }
        }
        if !(-CMAX <= self.p_atm && self.p_atm <= CMAX) {
            return Err(ConfigError::ReferencePressure);
        }
        if !(0 < self.relaxation && self.relaxation <= CMAX) {
            return Err(ConfigError::Relaxation);
        }
        if !(0 <= self.tolerance && self.tolerance <= CMAX) {
            return Err(ConfigError::Tolerance);
        }
        if !(1 <= self.max_iterations && self.max_iterations <= 1_000_000) {
            return Err(ConfigError::IterationBudget);
        }
        let mut m: usize = 0;
        while m < self.inflows.len()
            invariant
                m <= self.inflows.len(),
                forall|m2: int| 0 <= m2 < m ==> self.inflow_ok(#[trigger] self.inflows[m2]),
            decreases self.inflows.len() - m,
        {
            let f = &self.inflows[m];
            if f.axis >= 3 {
                proof {
                    assert(!self.inflow_ok(self.inflows[m as int]));
                    assert(!self.inflows_ok()) by {
                        if self.inflows_ok() {
                            assert(self.inflow_ok(self.inflows[m as int]));
                        }
                    }
                }
                return Err(ConfigError::InflowRegion);
            }
            let face = f.min[f.axis];
            let ok = f.min[0] <= f.max[0] && f.min[1] <= f.max[1] && f.min[2] <= f.max[2] && (
            f.axis == 0 || f.max[0] < self.n[0]) && (f.axis == 1 || f.max[1] < self.n[1]) && (
            f.axis == 2 || f.max[2] < self.n[2]) && face == f.max[f.axis] && (face == 0 || face
                == self.n[f.axis]) && -CMAX <= f.flow && f.flow <= CMAX;
            if !ok {
                proof {
                    let fi = self.inflows[m as int];
                    assert(!self.inflow_ok(fi)) by {
                        if self.inflow_ok(fi) {
                            assert(fi.min[0] <= fi.max[0]);
                            assert(fi.min[1] <= fi.max[1]);
                            assert(fi.min[2] <= fi.max[2]);
                            assert(0 != fi.axis ==> fi.max[0] < self.n[0]);
                            assert(1 != fi.axis ==> fi.max[1] < self.n[1]);
                            assert(2 != fi.axis ==> fi.max[2] < self.n[2]);
                        }
                    }
                    assert(!self.inflows_ok()) by {
                        if self.inflows_ok() {
                            assert(self.inflow_ok(self.inflows[m as int]));
                        }
                    }
                }
                return Err(ConfigError::InflowRegion);
            }
            proof {
                let fi = self.inflows[m as int];
                assert forall|d: int| 0 <= d < 3 implies #[trigger] fi.min[d] <= fi.max[d] by {
                    if d == 0 {
                    } else if d == 1 {
                    } else {
                        assert(d == 2);
                    }
                }
                assert forall|d: int| 0 <= d < 3 && d != fi.axis implies #[trigger] fi.max[d]
                    < self.n[d] by {
                    if d == 0 {
                    } else if d == 1 {
                    } else {
                        assert(d == 2);
                    }
                }
                assert(self.inflow_ok(fi));
            }
            m += 1;
        }
        if !(1 <= self.render_size[0] && self.render_size[0] <= MAX_N && 1 <= self.render_size[1]
            && self.render_size[1] <= MAX_N && 1 <= self.render_size[2] && self.render_size[2]
            <= MAX_N && self.render_min[0] <= self.render_max[0] && self.render_max[0] < self.n[0]
            && self.render_min[1] <= self.render_max[1] && self.render_max[1] < self.n[1]
            && self.render_min[2] <= self.render_max[2] && self.render_max[2] < self.n[2]) {
            return Err(ConfigError::RenderRegion);
        }
        proof {
            assert forall|d: int|
                0 <= d < 3 implies {
                    &&& 1 <= #[trigger] self.render_size[d] <= MAX_N
                    &&& self.render_min[d] <= self.render_max[d]
                    &&& self.render_max[d] < self.n[d]
                } by {
                if d == 0 {
                } else if d == 1 {
                } else {
                    assert(d == 2);
                }
            }
            assert(self.render_ok());
        }
        let c = crate::fixed::mul_fp(crate::fixed::mul_fp(self.rho, self.h), self.force[2]);
        let ca = crate::fixed::abs_fp(c);
        let pa = crate::fixed::abs_fp(self.p_atm);
        proof {
            assert(0 <= ((self.n[2] + 1) as int) * (ca as int) <= 1001 * (FP_MAX as int))
                by (nonlinear_arith)
                requires
                    0 <= ca as int <= FP_MAX as int,
                    2 <= (self.n[2] + 1) as int <= 1001,
            ;
        }
        if (pa as i128) + (((self.n[2] + 1) as i128) * (ca as i128)) > FP_MAX as i128 {
            return Err(ConfigError::PressureProfile);
        }
        Ok(self)
    }
}

/// Saturated scalars are always acceptable field contents.
pub proof fn lemma_cmax_in_range(x: int)
    requires
        -(CMAX as int) <= x <= CMAX as int,
    ensures
        in_range(x),
{
}

} // verus!
