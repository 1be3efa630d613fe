use finite_difference::config::{ConfigError, Inflow, SimConfig};
use finite_difference::fixed::mul_fp;
use finite_difference::grid::{Field, VelocityGrid};
use finite_difference::solver::{
    calculate_pressure_correction, check_convergence, check_convergence_at_point,
    initialize_pressure_grid, simulation_time_step, StepError,
};

fn water_config(n: usize, inflows: Vec<Inflow>) -> SimConfig {
    SimConfig {
        n: [n, n, n],
        h: 50_000_000,              // 0.05 m
        dt: 500_000,                // 0.0005 s
        rho: 997_000_000_000,       // 997 kg/m^3
        nu: 1_000_000,              // 0.001 Pa s
        force: [0, 0, 0],
        p_atm: 101_325_000_000_000, // 101325 Pa
        relaxation: 1_000_000_000,  // 1.0
        tolerance: 5_000_000,       // 0.005
        max_iterations: 2000,
        inflows,
        render_min: [0, 0, 0],
        render_max: [n - 1, n - 1, n - 1],
        render_size: [2, 2, 2],
    }
}

fn rest_state(cfg: &SimConfig) -> (VelocityGrid, VelocityGrid, VelocityGrid, Field) {
    let n = cfg.n;
    let vx = VelocityGrid::new_filled(n[0], n[1], n[2], 0, 0);
    let vy = VelocityGrid::new_filled(n[0], n[1], n[2], 1, 0);
    let vz = VelocityGrid::new_filled(n[0], n[1], n[2], 2, 0);
    let p = initialize_pressure_grid(cfg);
    (vx, vy, vz, p)
}

#[test]
fn configuration_rejections_in_order() {
    let good = water_config(10, Vec::new());
    assert!(good.validate().is_ok());

    let mut c = water_config(10, Vec::new());
    c.n = [1, 10, 10];
    assert!(matches!(c.validate(), Err(ConfigError::GridResolution)));

    let mut c = water_config(10, Vec::new());
    c.h = 0;
    assert!(matches!(c.validate(), Err(ConfigError::Spacing)));

    let mut c = water_config(10, Vec::new());
    c.dt = 0;
    assert!(matches!(c.validate(), Err(ConfigError::TimeStep)));

    let mut c = water_config(10, Vec::new());
    c.rho = 0;
    assert!(matches!(c.validate(), Err(ConfigError::Density)));

    let mut c = water_config(10, Vec::new());
    c.nu = -1;
    assert!(matches!(c.validate(), Err(ConfigError::Viscosity)));

    let mut c = water_config(10, Vec::new());
    c.force = [0, 0, i64::MAX];
    assert!(matches!(c.validate(), Err(ConfigError::BodyForce)));

    let mut c = water_config(10, Vec::new());
    c.p_atm = i64::MAX;
    assert!(matches!(c.validate(), Err(ConfigError::ReferencePressure)));

    let mut c = water_config(10, Vec::new());
    c.relaxation = 0;
    assert!(matches!(c.validate(), Err(ConfigError::Relaxation)));

    let mut c = water_config(10, Vec::new());
    c.tolerance = -1;
    assert!(matches!(c.validate(), Err(ConfigError::Tolerance)));

    let mut c = water_config(10, Vec::new());
    c.max_iterations = 0;
    assert!(matches!(c.validate(), Err(ConfigError::IterationBudget)));

    let c = water_config(
        10,
        vec![Inflow { axis: 7, min: [0, 2, 2], max: [0, 6, 6], flow: 100_000_000 }],
    );
    assert!(matches!(c.validate(), Err(ConfigError::InflowRegion)));

    // an inflow region must sit on a domain face
    let c = water_config(
        10,
        vec![Inflow { axis: 0, min: [3, 2, 2], max: [3, 6, 6], flow: 100_000_000 }],
    );
    assert!(matches!(c.validate(), Err(ConfigError::InflowRegion)));

    let mut c = water_config(10, Vec::new());
    c.render_max = [10, 10, 10];
    assert!(matches!(c.validate(), Err(ConfigError::RenderRegion)));

    // a hydrostatic column too heavy for the representable band
    let mut c = water_config(10, Vec::new());
    c.h = finite_difference::config::CMAX;
    c.rho = finite_difference::config::CMAX;
    c.force = [0, 0, finite_difference::config::CMAX];
    assert!(matches!(c.validate(), Err(ConfigError::PressureProfile)));
}

#[test]
fn hydrostatic_profile_balances_discretely() {
    let mut cfg = water_config(10, Vec::new());
    cfg.force = [0, 0, -9_810_000_000]; // -9.81 N/kg along z
    let cfg = cfg.validate().unwrap();
    let p = initialize_pressure_grid(&cfg);
    // rho * h == 49.85 exactly
    assert_eq!(mul_fp(cfg.rho, cfg.h), 49_850_000_000);
    // rho * h * force_z == -489.0285 exactly
    let increment = mul_fp(mul_fp(cfg.rho, cfg.h), cfg.force[2]);
    assert_eq!(increment, -489_028_500_000);
    for k in 0..9 {
        assert_eq!(p.get(3, 4, k + 1) - p.get(3, 4, k), -increment);
    }
    // top of the column: reference pressure plus one increment
    assert_eq!(p.get(0, 0, 9), 101_325_000_000_000 - 489_028_500_000);
}

#[test]
fn pressure_correction_has_exact_coefficient() {
    let cfg = water_config(4, Vec::new()).validate().unwrap();
    let mut vx = VelocityGrid::new_filled(4, 4, 4, 0, 0);
    let vy = VelocityGrid::new_filled(4, 4, 4, 1, 0);
    let vz = VelocityGrid::new_filled(4, 4, 4, 2, 0);
    vx.grid.set(1, 1, 1, 1_000_000_000); // one face flows at 1 m/s
    let corr = calculate_pressure_correction(&cfg, &vx, &vy, &vz);
    // C = relaxation * rho * h / (6 dt) = 16616.666666666 (truncated)
    assert_eq!(corr.get(0, 0, 0), -16_616_666_666_666);
    assert_eq!(corr.get(1, 0, 0), 16_616_666_666_666);
    assert_eq!(corr.get(2, 2, 2), 0);
}

#[test]
fn divergence_detects_unbalanced_flow() {
    let cfg = water_config(4, Vec::new()).validate().unwrap();
    let mut vx = VelocityGrid::new_filled(4, 4, 4, 0, 0);
    let vy = VelocityGrid::new_filled(4, 4, 4, 1, 0);
    let vz = VelocityGrid::new_filled(4, 4, 4, 2, 0);
    assert!(check_convergence(&cfg, &vx, &vy, &vz));
    vx.grid.set(2, 2, 2, 1_000_000_000);
    // (1.0 - 0.0) / 0.05 == 20.0
    assert_eq!(check_convergence_at_point(&cfg, &vx, &vy, &vz, 1, 1, 1), 20_000_000_000);
    assert!(!check_convergence(&cfg, &vx, &vy, &vz));
}

#[test]
fn mass_conservation_on_small_grid() {
    // 4x4x4, zero external force, zero boundary flow: the corrector must
    // bring the divergence below tolerance within the iteration budget.
    let cfg = water_config(4, Vec::new()).validate().unwrap();
    let (mut vx, mut vy, mut vz, mut p) = rest_state(&cfg);
    let r = simulation_time_step(&cfg, &mut vx, &mut vy, &mut vz, &mut p, 0);
    assert!(r.is_ok());
}

#[test]
fn rest_state_converges_immediately() {
    // 10x10x10, h=0.05, dt=0.0005, rho=997, no force, no inflow: starting
    // from rest the step converges in exactly one correction iteration and
    // leaves every field unchanged.
    let mut cfg = water_config(10, Vec::new());
    cfg.render_min = [0, 4, 0];
    cfg.render_max = [9, 4, 9];
    cfg.render_size = [9, 1, 9];
    let cfg = cfg.validate().unwrap();
    let (mut vx, mut vy, mut vz, mut p) = rest_state(&cfg);
    let r = simulation_time_step(&cfg, &mut vx, &mut vy, &mut vz, &mut p, 0);
    let (data, iterations) = r.unwrap();
    assert_eq!(iterations, 1);
    assert!(vx.grid.data.iter().all(|v| *v == 0));
    assert!(vy.grid.data.iter().all(|v| *v == 0));
    assert!(vz.grid.data.iter().all(|v| *v == 0));
    assert!(p.data.iter().all(|v| *v == 101_325_000_000_000));
    assert_eq!(data.samples.len(), 81);
    assert!(data.samples.iter().all(|s| s.velocity.x == 0 && s.velocity.y == 0
        && s.velocity.z == 0));
}

#[test]
fn divergence_budget_exhaustion_is_reported() {
    // An impossible tolerance with a tiny budget must fail the step and
    // leave the velocities untouched.
    let mut cfg = water_config(
        6,
        vec![Inflow { axis: 0, min: [0, 2, 2], max: [0, 3, 3], flow: 100_000_000 }],
    );
    cfg.tolerance = 0;
    cfg.max_iterations = 3;
    let cfg = cfg.validate().unwrap();
    let (mut vx, mut vy, mut vz, mut p) = rest_state(&cfg);
    let r = simulation_time_step(&cfg, &mut vx, &mut vy, &mut vz, &mut p, 0);
    assert!(matches!(r, Err(StepError::NumericalDivergence)));
    assert!(vx.grid.data.iter().all(|v| *v == 0));
}

#[test]
fn inflow_propagates_downstream() {
    // A jet on the low-x face must, after a few steps, produce strictly
    // nonzero velocity at interior points downstream of the inflow.
    let cfg = water_config(
        6,
        vec![Inflow { axis: 0, min: [0, 2, 2], max: [0, 3, 3], flow: 100_000_000 }],
    )
    .validate()
    .unwrap();
    let (mut vx, mut vy, mut vz, mut p) = rest_state(&cfg);
    for t in 0..4 {
        let r = simulation_time_step(&cfg, &mut vx, &mut vy, &mut vz, &mut p, t);
        assert!(r.is_ok());
    }
    assert_ne!(vx.grid.get(1, 3, 3), 0);
    assert_ne!(vx.grid.get(2, 3, 3), 0);
}
