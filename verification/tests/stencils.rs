use finite_difference::config::SimConfig;
use finite_difference::grid::{Field, VelocityGrid};
use finite_difference::operators::{
    central_first_derivative, forward_first_derivative, laplacian, pressure_gradient_component,
    second_derivative,
};
use finite_difference::solver::{initialize_pressure_grid, predict_velocity};

fn stencil_config() -> SimConfig {
    SimConfig {
        n: [4, 4, 4],
        h: 50_000_000,
        dt: 500_000,
        rho: 997_000_000_000,
        nu: 1_000_000,
        force: [0, 0, 0],
        p_atm: 101_325_000_000_000,
        relaxation: 1_000_000_000,
        tolerance: 5_000_000,
        max_iterations: 2000,
        inflows: Vec::new(),
        render_min: [0, 0, 0],
        render_max: [3, 3, 3],
        render_size: [2, 2, 2],
    }
}

#[test]
fn first_derivatives_have_exact_values() {
    let h: i64 = 50_000_000; // 0.05
    let mut vx = VelocityGrid::new_filled(4, 4, 4, 0, 0);
    vx.grid.set(0, 1, 1, 1_000_000_000);
    vx.grid.set(2, 1, 1, 3_000_000_000);
    // (3.0 - 1.0) / (2 * 0.05) == 20.0
    assert_eq!(central_first_derivative(&vx, 1, 1, 1, 0, h), 20_000_000_000);
    // forward difference at pressure coordinates (0, 0, 0):
    // (vx[1][1][1] - vx[0][1][1]) / 0.05 == (0.0 - 1.0) / 0.05 == -20.0
    assert_eq!(forward_first_derivative(&vx, 0, 0, 0, h), -20_000_000_000);
}

#[test]
fn second_derivative_and_laplacian_have_exact_values() {
    let h: i64 = 50_000_000;
    let mut vx = VelocityGrid::new_filled(4, 4, 4, 0, 0);
    vx.grid.set(2, 2, 2, 1_000_000_000);
    // (0 - 2*1.0 + 0) / 0.0025 == -800.0
    assert_eq!(second_derivative(&vx, 2, 2, 2, 0, h), -800_000_000_000);
    // one spike contributes -800 on each of the three axes
    assert_eq!(laplacian(&vx, 2, 2, 2, h), -2_400_000_000_000);
    // and +400 one cell to the side
    assert_eq!(second_derivative(&vx, 1, 2, 2, 0, h), 400_000_000_000);
}

#[test]
fn pressure_gradient_has_exact_values() {
    let h: i64 = 50_000_000;
    let mut p = Field::new_filled(4, 4, 4, 101_325_000_000_000);
    p.set(2, 1, 1, 101_330_000_000_000); // 5 Pa above reference
    // (101330 - 101325) / 0.05 == 100.0
    assert_eq!(pressure_gradient_component(&p, 1, 1, 1, 0, h), 100_000_000_000);
    assert_eq!(pressure_gradient_component(&p, 1, 1, 1, 1, h), 0);
}

#[test]
fn predictor_diffuses_a_single_spike() {
    // From rest with one 1 m/s face sample and uniform pressure, only the
    // diffusion term acts; the provisional velocities follow the explicit
    // Euler formula exactly, truncation included.
    let cfg = stencil_config().validate().unwrap();
    let p = initialize_pressure_grid(&cfg);
    let mut vx = VelocityGrid::new_filled(4, 4, 4, 0, 0);
    let vy = VelocityGrid::new_filled(4, 4, 4, 1, 0);
    let vz = VelocityGrid::new_filled(4, 4, 4, 2, 0);
    vx.grid.set(2, 2, 2, 1_000_000_000);
    let mut prov = VelocityGrid::new_filled(4, 4, 4, 0, 0);
    predict_velocity(&cfg, &mut prov, &vx, &vy, &vz, &p);
    // dt/rho truncates to 501e-9; nu * laplacian = 0.4 at the neighbours
    // and -2.4 at the spike.
    assert_eq!(prov.grid.get(1, 2, 2), 200);
    assert_eq!(prov.grid.get(3, 2, 2), 200);
    assert_eq!(prov.grid.get(2, 2, 2), 999_998_798);
    // far from the spike nothing moves
    assert_eq!(prov.grid.get(1, 1, 1), 0);
}
