use finite_difference::config::SimConfig;
use finite_difference::grid::VelocityGrid;
use finite_difference::render::{
    convert_velocities_to_collocated_grid_and_visualise, get_velocity_at_pressure_point,
    RenderResult,
};

fn sample_config(n: usize) -> SimConfig {
    SimConfig {
        n: [n, n, n],
        h: 50_000_000,
        dt: 500_000,
        rho: 997_000_000_000,
        nu: 1_000_000,
        force: [0, 0, 0],
        p_atm: 101_325_000_000_000,
        relaxation: 1_000_000_000,
        tolerance: 5_000_000,
        max_iterations: 2000,
        inflows: Vec::new(),
        render_min: [0, 0, 0],
        render_max: [n - 1, n - 1, n - 1],
        render_size: [2, 2, 2],
    }
}

#[test]
fn sampling_averages_the_two_faces() {
    let mut vx = VelocityGrid::new_filled(4, 4, 4, 0, 0);
    vx.grid.set(1, 2, 2, 3_000_000_000);
    vx.grid.set(2, 2, 2, 1_000_000_000);
    // mean of the faces at pressure point (1, 1, 1)
    assert_eq!(get_velocity_at_pressure_point(&vx, 1, 1, 1), 2_000_000_000);
}

#[test]
fn resampling_covers_the_output_grid() {
    let cfg = sample_config(4).validate().unwrap();
    let mut vx = VelocityGrid::new_filled(4, 4, 4, 0, 0);
    let vy = VelocityGrid::new_filled(4, 4, 4, 1, 0);
    let vz = VelocityGrid::new_filled(4, 4, 4, 2, 0);
    vx.grid.set(1, 2, 2, 4_000_000_000);
    vx.grid.set(2, 2, 2, 4_000_000_000);
    let data = convert_velocities_to_collocated_grid_and_visualise(
        &cfg,
        [0, 0, 0],
        [3, 3, 3],
        [2, 2, 2],
        &vx,
        &vy,
        &vz,
    );
    assert_eq!(data.size, [2, 2, 2]);
    assert_eq!(data.samples.len(), 8);
    // stride is (3 - 0) / 2 == 1; output point (1,1,1) samples pressure
    // point (1,1,1), whose x faces hold 4.0 and 4.0
    let s = &data.samples[1 * 4 + 1 * 2 + 1];
    assert_eq!(s.velocity.x, 4_000_000_000);
    assert_eq!(s.velocity.y, 0);
    assert_eq!(s.color.x, 0);
    // the colour channel is reserved for the renderer and stays black
    assert!(data.samples.iter().all(|s| s.color.x == 0 && s.color.y == 0 && s.color.z == 0));
}

#[test]
fn resampling_honours_the_sub_region() {
    // With a sub-region away from the origin, the single output sample
    // reads the pressure point at the region's lower corner, not (0,0,0).
    let cfg = sample_config(4).validate().unwrap();
    let mut vx = VelocityGrid::new_filled(4, 4, 4, 0, 0);
    let vy = VelocityGrid::new_filled(4, 4, 4, 1, 0);
    let vz = VelocityGrid::new_filled(4, 4, 4, 2, 0);
    // faces of pressure point (1, 1, 1)
    vx.grid.set(1, 2, 2, 6_000_000_000);
    vx.grid.set(2, 2, 2, 6_000_000_000);
    let data = convert_velocities_to_collocated_grid_and_visualise(
        &cfg,
        [1, 1, 1],
        [2, 2, 2],
        [1, 1, 1],
        &vx,
        &vy,
        &vz,
    );
    assert_eq!(data.samples.len(), 1);
    assert_eq!(data.samples[0].velocity.x, 6_000_000_000);
}

#[test]
fn render_control_signals_are_distinct() {
    assert_ne!(RenderResult::NextStep, RenderResult::Shutdown);
    let keep_going = RenderResult::NextStep;
    assert!(matches!(keep_going, RenderResult::NextStep));
}
