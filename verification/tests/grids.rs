use finite_difference::grid::{get_dimension, Field, VelocityGrid};
use finite_difference::render::calc_step_size;

#[test]
fn unit_offsets_per_axis() {
    assert_eq!(get_dimension(0), [1, 0, 0]);
    assert_eq!(get_dimension(1), [0, 1, 0]);
    assert_eq!(get_dimension(2), [0, 0, 1]);
}

#[test]
fn step_size_is_floor_division() {
    assert_eq!(calc_step_size(9, 9), 1);
    assert_eq!(calc_step_size(5, 2), 2);
    assert_eq!(calc_step_size(0, 3), 0);
}

#[test]
fn field_stores_and_reads_back() {
    let mut f = Field::new_filled(3, 4, 5, 7);
    assert_eq!(f.get(0, 0, 0), 7);
    assert_eq!(f.get(2, 3, 4), 7);
    f.set(1, 2, 3, -11);
    assert_eq!(f.get(1, 2, 3), -11);
    assert_eq!(f.get(1, 2, 2), 7);
    assert_eq!(f.data.len(), 3 * 4 * 5);
}

#[test]
fn velocity_grid_shapes_are_staggered() {
    let gx = VelocityGrid::new_filled(10, 10, 10, 0, 0);
    assert_eq!((gx.grid.nx, gx.grid.ny, gx.grid.nz), (11, 12, 12));
    let gy = VelocityGrid::new_filled(10, 10, 10, 1, 0);
    assert_eq!((gy.grid.nx, gy.grid.ny, gy.grid.nz), (12, 11, 12));
    let gz = VelocityGrid::new_filled(10, 10, 10, 2, 0);
    assert_eq!((gz.grid.nx, gz.grid.ny, gz.grid.nz), (12, 12, 11));
    assert_eq!(gz.dimension, 2);
}
