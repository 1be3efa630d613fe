use finite_difference::config::{Inflow, SimConfig};
use finite_difference::grid::VelocityGrid;
use finite_difference::boundary::set_wall_boundary_conditions;
use finite_difference::operators::orthogonal_average;

fn patterned(n: usize, axis: usize) -> VelocityGrid {
    let mut g = VelocityGrid::new_filled(n, n, n, axis, 0);
    for i in 0..g.grid.nx {
        for j in 0..g.grid.ny {
            for k in 0..g.grid.nz {
                let v = ((i * 7 + j * 13 + k * 29 + axis) % 100) as i64 - 50;
                g.grid.set(i, j, k, v * 1_000_000);
            }
        }
    }
    g
}

fn bc_config(n: usize) -> SimConfig {
    SimConfig {
        n: [n, n, n],
        h: 50_000_000,
        dt: 500_000,
        rho: 997_000_000_000,
        nu: 1_000_000,
        force: [0, 0, 0],
        p_atm: 101_325_000_000_000,
        relaxation: 1_000_000_000,
        tolerance: 5_000_000,
        max_iterations: 2000,
        inflows: vec![
            Inflow { axis: 0, min: [0, 2, 2], max: [0, 3, 3], flow: -100_000_000 },
            Inflow { axis: 2, min: [2, 2, 0], max: [3, 3, 0], flow: 100_000_000 },
        ],
        render_min: [0, 0, 0],
        render_max: [n - 1, n - 1, n - 1],
        render_size: [2, 2, 2],
    }
}

#[test]
fn boundary_pass_is_idempotent() {
    // Applying the boundary-condition pass twice yields the same fields as
    // applying it once — except on the two ghost edges of each component
    // where an upper mirror plane meets a lower one: there the earlier
    // mirror copied a value that a later sub-pass then rewrote, so only a
    // third pass sees the settled value.  Every other sample, walls,
    // mirrors and inflow regions included, is a fixed point.
    let n = 6usize;
    let cfg = bc_config(n).validate().unwrap();
    let mut vx = patterned(n, 0);
    let mut vy = patterned(n, 1);
    let mut vz = patterned(n, 2);
    set_wall_boundary_conditions(&cfg, &mut vx, &mut vy, &mut vz, 0);
    let sx = vx.grid.data.clone();
    let sy = vy.grid.data.clone();
    let sz = vz.grid.data.clone();
    set_wall_boundary_conditions(&cfg, &mut vx, &mut vy, &mut vz, 0);
    let mut t = 0usize;
    for i in 0..vx.grid.nx {
        for j in 0..vx.grid.ny {
            for k in 0..vx.grid.nz {
                if !(j == n + 1 && k == 0) {
                    assert_eq!(vx.grid.data[t], sx[t], "vx at ({}, {}, {})", i, j, k);
                }
                t += 1;
            }
        }
    }
    t = 0;
    for i in 0..vy.grid.nx {
        for j in 0..vy.grid.ny {
            for k in 0..vy.grid.nz {
                if !(i == n + 1 && k == 0) {
                    assert_eq!(vy.grid.data[t], sy[t], "vy at ({}, {}, {})", i, j, k);
                }
                t += 1;
            }
        }
    }
    t = 0;
    for i in 0..vz.grid.nx {
        for j in 0..vz.grid.ny {
            for k in 0..vz.grid.nz {
                if !(i == n + 1 && j == 0) {
                    assert_eq!(vz.grid.data[t], sz[t], "vz at ({}, {}, {})", i, j, k);
                }
                t += 1;
            }
        }
    }
}

#[test]
fn walls_mirror_and_block() {
    let cfg = bc_config(6).validate().unwrap();
    let mut vx = patterned(6, 0);
    let mut vy = patterned(6, 1);
    let mut vz = patterned(6, 2);
    set_wall_boundary_conditions(&cfg, &mut vx, &mut vy, &mut vz, 0);
    // no-penetration: the x component vanishes on both x wall faces
    // (outside the inflow region)
    assert_eq!(vx.grid.get(0, 1, 1), 0);
    assert_eq!(vx.grid.get(6, 5, 5), 0);
    // inflow: the prescribed flow overrides the low-x face region
    assert_eq!(vx.grid.get(0, 2, 2), -100_000_000);
    assert_eq!(vx.grid.get(0, 3, 3), -100_000_000);
    // no-slip mirroring: the y component is the negated neighbour across
    // the x walls
    assert_eq!(vy.grid.get(0, 3, 5), -vy.grid.get(1, 3, 5));
    assert_eq!(vy.grid.get(7, 3, 5), -vy.grid.get(6, 3, 5));
    // parallel components are zeroed on the inflow collar
    assert_eq!(vy.grid.get(0, 2, 2), 0);
    assert_eq!(vy.grid.get(1, 4, 4), 0);
}

#[test]
fn orthogonal_average_is_antisymmetric_on_linear_fields() {
    // On a field linear in x and centred in the allocation, the 4-point
    // interpolation at a point and at its x-mirror are exact opposites.
    let mut vy = VelocityGrid::new_filled(4, 4, 4, 1, 0);
    let c: i64 = 4_000_000;
    for i in 0..vy.grid.nx {
        for j in 0..vy.grid.ny {
            for k in 0..vy.grid.nz {
                vy.grid.set(i, j, k, c * (2 * i as i64 - 5));
            }
        }
    }
    let a1 = orthogonal_average(&vy, 1, 2, 2, 0);
    let a3 = orthogonal_average(&vy, 3, 2, 2, 0);
    assert_eq!(a1, -a3);
    assert_eq!(a1, -8_000_000);
    // and on a constant field the interpolation reproduces the constant
    let vc = VelocityGrid::new_filled(4, 4, 4, 1, 9_000_000);
    assert_eq!(orthogonal_average(&vc, 1, 2, 2, 0), 9_000_000);
}
