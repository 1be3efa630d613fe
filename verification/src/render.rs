//! Visualization bridge.
//!
//! Once per time step the staggered fields are resampled onto a coarser
//! collocated output grid covering a configured sub-region of the pressure
//! domain: at each output location the three components are averaged onto
//! the corresponding pressure point, producing a flat 3-dimensional array
//! of (velocity, colour) samples.  That array is the only data handed to the
//! external renderer, which answers with a [`RenderResult`] control signal.

use vstd::prelude::*;

use crate::config::SimConfig;
use crate::fixed::{avg_fp, fp_avg, in_range};
use crate::grid::{flat3, get_dimension, lemma_flat3, lex3, unit, VelocityGrid};
use crate::operators::sq_at;

verus! {

/// Control signal from the renderer: go on with the next time step, or shut
/// the simulation down.
#[derive(Clone, Copy, Debug, PartialEq, Eq, Structural)]
pub enum RenderResult {
    NextStep,
    Shutdown,
}

/// A fixed-point 3-vector.
#[derive(Clone, Copy, Debug, PartialEq, Eq, Structural)]
pub struct Vec3 {
    pub x: i64,
    pub y: i64,
    pub z: i64,
}

/// One output sample: interpolated velocity and a colour channel that the
/// core leaves black (reserved for the visualization side).
#[derive(Clone, Copy, Debug, PartialEq, Eq, Structural)]
pub struct RenderSample {
    pub velocity: Vec3,
    pub color: Vec3,
}

/// The per-time-step payload: a dense `size[0] x size[1] x size[2]` array
/// of samples, stored row-major.
pub struct RenderData {
    pub samples: Vec<RenderSample>,
    pub size: [usize; 3],
}

impl RenderData {
    pub open spec fn wf(self) -> bool {
        &&& 1 <= self.size[0]
        &&& 1 <= self.size[1]
        &&& 1 <= self.size[2]
        &&& self.samples.len() == self.size[0] * ((self.size[1] * self.size[2]) as int)
    }

    pub open spec fn at(self, x: int, y: int, z: int) -> RenderSample {
        self.samples[flat3(x, y, z, self.size[1] as int, self.size[2] as int)]
    }
}

/// Interval between sampled pressure points in one dimension, so that
/// `to_dimension` output samples cover a span of `from_dimension` cells.
pub fn calc_step_size(from_dimension: usize, to_dimension: usize) -> (r: usize)
    requires
        to_dimension > 0,
    ensures
        r == from_dimension as int / to_dimension as int,
{
    from_dimension / to_dimension
}

/// Velocity component of `velocity_grid` averaged onto pressure point
/// `(x, y, z)`: the mean of the two face samples enclosing the cell centre
/// along the component's own axis.
pub open spec fn sample_spec(s: Seq<i64>, ny: int, nz: int, a: int, x: int, y: int, z: int) -> int {
    fp_avg(
        sq_at(s, ny, nz, x + 1, y + 1, z + 1),
        sq_at(s, ny, nz, x + 1 - unit(a, 0), y + 1 - unit(a, 1), z + 1 - unit(a, 2)),
    )
}

pub fn get_velocity_at_pressure_point(velocity_grid: &VelocityGrid, x: usize, y: usize, z: usize) -> (r:
    i64)
    requires
        velocity_grid.grid.wf(),
        velocity_grid.dimension < 3,
        x as int + 1 < velocity_grid.grid.nx,
        y as int + 1 < velocity_grid.grid.ny,
        z as int + 1 < velocity_grid.grid.nz,
    ensures
        r as int == sample_spec(
            velocity_grid.grid.data@,
            velocity_grid.grid.ny as int,
            velocity_grid.grid.nz as int,
            velocity_grid.dimension as int,
            x as int,
            y as int,
            z as int,
        ),
        in_range(r as int),
{
    let dim = get_dimension(velocity_grid.dimension);
    let a = velocity_grid.grid.get(x + 1, y + 1, z + 1);
    let b = velocity_grid.grid.get(x + 1 - dim[0], y + 1 - dim[1], z + 1 - dim[2]);
    avg_fp(a, b)
}

/// The sample the bridge emits at output location `(x, y, z)`: the three
/// components averaged onto the pressure point `min_coords` plus the
/// output location scaled by the per-axis stride.
pub open spec fn render_point(
    cfg: SimConfig,
    sx: Seq<i64>,
    sy: Seq<i64>,
    sz: Seq<i64>,
    min_coords: [usize; 3],
    max_coords: [usize; 3],
    data_grid_point_size: [usize; 3],
    x: int,
    y: int,
    z: int,
) -> RenderSample {
    let st0 = (max_coords[0] - min_coords[0]) as int / data_grid_point_size[0] as int;
    let st1 = (max_coords[1] - min_coords[1]) as int / data_grid_point_size[1] as int;
    let st2 = (max_coords[2] - min_coords[2]) as int / data_grid_point_size[2] as int;
    let cx = min_coords[0] + x * st0;
    let cy = min_coords[1] + y * st1;
    let cz = min_coords[2] + z * st2;
    RenderSample {
        velocity: Vec3 {
            x: sample_spec(
                sx,
                crate::boundary::vny(cfg, 0),
                crate::boundary::vnz(cfg, 0),
                0,
                cx,
                cy,
                cz,
            ) as i64,
            y: sample_spec(
                sy,
                crate::boundary::vny(cfg, 1),
                crate::boundary::vnz(cfg, 1),
                1,
                cx,
                cy,
                cz,
            ) as i64,
            z: sample_spec(
                sz,
                crate::boundary::vny(cfg, 2),
                crate::boundary::vnz(cfg, 2),
                2,
                cx,
                cy,
                cz,
            ) as i64,
        },
        color: Vec3 { x: 0, y: 0, z: 0 },
    }
}

/// Resample the three staggered fields onto a collocated output grid over
/// the pressure sub-region `[min_coords, max_coords]`, with one sample per
/// output grid point.
pub fn convert_velocities_to_collocated_grid_and_visualise(
    cfg: &SimConfig,
    min_coords: [usize; 3],
    max_coords: [usize; 3],
    data_grid_point_size: [usize; 3],
    velocity_grid_x: &VelocityGrid,
    velocity_grid_y: &VelocityGrid,
    velocity_grid_z: &VelocityGrid,
) -> (r: RenderData)
    requires
        cfg.grid_ok(),
        velocity_grid_x.wf_for(cfg.n[0] as int, cfg.n[1] as int, cfg.n[2] as int),
        velocity_grid_y.wf_for(cfg.n[0] as int, cfg.n[1] as int, cfg.n[2] as int),
        velocity_grid_z.wf_for(cfg.n[0] as int, cfg.n[1] as int, cfg.n[2] as int),
        velocity_grid_x.dimension == 0,
        velocity_grid_y.dimension == 1,
        velocity_grid_z.dimension == 2,
        forall|d: int|
            0 <= d < 3 ==> {
                &&& 1 <= #[trigger] data_grid_point_size[d] <= crate::grid::MAX_N
                &&& min_coords[d] <= max_coords[d]
                &&& max_coords[d] < cfg.n[d]
            },
    ensures
        r.wf(),
        r.size[0] == data_grid_point_size[0],
        r.size[1] == data_grid_point_size[1],
        r.size[2] == data_grid_point_size[2],
        forall|x: int, y: int, z: int|
            0 <= x < data_grid_point_size[0] && 0 <= y < data_grid_point_size[1] && 0 <= z
                < data_grid_point_size[2] ==> #[trigger] r.at(x, y, z) == render_point(
                *cfg,
                velocity_grid_x.grid.data@,
                velocity_grid_y.grid.data@,
                velocity_grid_z.grid.data@,
                min_coords,
                max_coords,
                data_grid_point_size,
                x,
                y,
                z,
            ),
{
    proof {
        assert(1 <= data_grid_point_size[0]);
        assert(1 <= data_grid_point_size[1]);
        assert(1 <= data_grid_point_size[2]);
    }
    let step_size: [usize; 3] = [
        calc_step_size(max_coords[0] - min_coords[0], data_grid_point_size[0]),
        calc_step_size(max_coords[1] - min_coords[1], data_grid_point_size[1]),
        calc_step_size(max_coords[2] - min_coords[2], data_grid_point_size[2]),
    ];
    proof {
        lemma_stride_in_bounds(
            (max_coords[0] - min_coords[0]) as int,
            data_grid_point_size[0] as int,
        );
        lemma_stride_in_bounds(
            (max_coords[1] - min_coords[1]) as int,
            data_grid_point_size[1] as int,
        );
        lemma_stride_in_bounds(
            (max_coords[2] - min_coords[2]) as int,
            data_grid_point_size[2] as int,
        );
    }
    let mut samples: Vec<RenderSample> = Vec::new();
    let ghost sz1 = data_grid_point_size[1] as int;
    let ghost sz2 = data_grid_point_size[2] as int;
    let mut x: usize = 0;
    while x < data_grid_point_size[0]
        invariant
            valid_sampling(*cfg, min_coords, max_coords, data_grid_point_size, *velocity_grid_x,
                *velocity_grid_y, *velocity_grid_z),
            step_size[0] == (max_coords[0] - min_coords[0]) as int / data_grid_point_size[0] as int,
            step_size[1] == (max_coords[1] - min_coords[1]) as int / data_grid_point_size[1] as int,
            step_size[2] == (max_coords[2] - min_coords[2]) as int / data_grid_point_size[2] as int,
            x <= data_grid_point_size[0],
            samples.len() == x as int * (sz1 * sz2),
            sz1 == data_grid_point_size[1] as int,
            sz2 == data_grid_point_size[2] as int,
            forall|t: int|
                0 <= t < samples.len() ==> #[trigger] samples@[t] == render_point(*cfg,
                velocity_grid_x.grid.data@, velocity_grid_y.grid.data@, velocity_grid_z.grid.data@,
                min_coords, max_coords, data_grid_point_size, t / (sz1 * sz2), (t / sz2) % sz1,
                t % sz2),
        decreases data_grid_point_size[0] - x,
    {
        let mut y: usize = 0;
        while y < data_grid_point_size[1]
            invariant
                valid_sampling(*cfg, min_coords, max_coords, data_grid_point_size,
                    *velocity_grid_x, *velocity_grid_y, *velocity_grid_z),
                step_size[0] == (max_coords[0] - min_coords[0]) as int
                    / data_grid_point_size[0] as int,
                step_size[1] == (max_coords[1] - min_coords[1]) as int
                    / data_grid_point_size[1] as int,
                step_size[2] == (max_coords[2] - min_coords[2]) as int
                    / data_grid_point_size[2] as int,
                x < data_grid_point_size[0],
                y <= data_grid_point_size[1],
                samples.len() == x as int * (sz1 * sz2) + y as int * sz2,
                sz1 == data_grid_point_size[1] as int,
                sz2 == data_grid_point_size[2] as int,
                forall|t: int|
                    0 <= t < samples.len() ==> #[trigger] samples@[t] == render_point(*cfg,
                    velocity_grid_x.grid.data@, velocity_grid_y.grid.data@,
                    velocity_grid_z.grid.data@, min_coords, max_coords, data_grid_point_size,
                    t / (sz1 * sz2), (t / sz2) % sz1, t % sz2),
            decreases data_grid_point_size[1] - y,
        {
            let mut z: usize = 0;
            while z < data_grid_point_size[2]
                invariant
                    valid_sampling(*cfg, min_coords, max_coords, data_grid_point_size,
                        *velocity_grid_x, *velocity_grid_y, *velocity_grid_z),
                    step_size[0] == (max_coords[0] - min_coords[0]) as int
                        / data_grid_point_size[0] as int,
                    step_size[1] == (max_coords[1] - min_coords[1]) as int
                        / data_grid_point_size[1] as int,
                    step_size[2] == (max_coords[2] - min_coords[2]) as int
                        / data_grid_point_size[2] as int,
                    x < data_grid_point_size[0],
                    y < data_grid_point_size[1],
                    z <= data_grid_point_size[2],
                    samples.len() == x as int * (sz1 * sz2) + y as int * sz2 + z as int,
                    sz1 == data_grid_point_size[1] as int,
                    sz2 == data_grid_point_size[2] as int,
                    forall|t: int|
                        0 <= t < samples.len() ==> #[trigger] samples@[t] == render_point(*cfg,
                        velocity_grid_x.grid.data@, velocity_grid_y.grid.data@,
                        velocity_grid_z.grid.data@, min_coords, max_coords, data_grid_point_size,
                        t / (sz1 * sz2), (t / sz2) % sz1, t % sz2),
                decreases data_grid_point_size[2] - z,
            {
                proof {
                    lemma_sample_coord(
                        (max_coords[0] - min_coords[0]) as int,
                        data_grid_point_size[0] as int,
                        x as int,
                    );
                    lemma_sample_coord(
                        (max_coords[1] - min_coords[1]) as int,
                        data_grid_point_size[1] as int,
                        y as int,
                    );
                    lemma_sample_coord(
                        (max_coords[2] - min_coords[2]) as int,
                        data_grid_point_size[2] as int,
                        z as int,
                    );
                    lemma_flat3(
                        x as int,
                        y as int,
                        z as int,
                        data_grid_point_size[0] as int,
                        data_grid_point_size[1] as int,
                        data_grid_point_size[2] as int,
                    );
                }
                let cx = min_coords[0] + x * step_size[0];
                let cy = min_coords[1] + y * step_size[1];
                let cz = min_coords[2] + z * step_size[2];
                let vx = get_velocity_at_pressure_point(velocity_grid_x, cx, cy, cz);
                let vy = get_velocity_at_pressure_point(velocity_grid_y, cx, cy, cz);
                let vz = get_velocity_at_pressure_point(velocity_grid_z, cx, cy, cz);
                let sample = RenderSample {
                    velocity: Vec3 { x: vx, y: vy, z: vz },
                    color: Vec3 { x: 0, y: 0, z: 0 },
                };
                samples.push(sample);
                z += 1;
            }
            proof {
                assert((y as int + 1) * sz2 == y as int * sz2 + sz2) by (nonlinear_arith);
            }
            y += 1;
        }
        proof {
            assert((x as int + 1) * (sz1 * sz2) == x as int * (sz1 * sz2) + sz1 * sz2)
                by (nonlinear_arith);
        }
        x += 1;
    }
    let r = RenderData { samples, size: data_grid_point_size };
    proof {
        assert forall|x2: int, y2: int, z2: int|
            0 <= x2 < data_grid_point_size[0] && 0 <= y2 < data_grid_point_size[1] && 0 <= z2
                < data_grid_point_size[2] implies #[trigger] r.at(x2, y2, z2) == render_point(
            *cfg,
            velocity_grid_x.grid.data@,
            velocity_grid_y.grid.data@,
            velocity_grid_z.grid.data@,
            min_coords,
            max_coords,
            data_grid_point_size,
            x2,
            y2,
            z2,
        ) by {
            lemma_flat3(x2, y2, z2, data_grid_point_size[0] as int, data_grid_point_size[1] as int,
                data_grid_point_size[2] as int);
        }
    }
    r
}

/// The sampling-related preconditions, bundled for the loop invariants.
pub open spec fn valid_sampling(
    cfg: SimConfig,
    min_coords: [usize; 3],
    max_coords: [usize; 3],
    data_grid_point_size: [usize; 3],
    gx: VelocityGrid,
    gy: VelocityGrid,
    gz: VelocityGrid,
) -> bool {
    &&& cfg.grid_ok()
    &&& gx.wf_for(cfg.n[0] as int, cfg.n[1] as int, cfg.n[2] as int)
    &&& gy.wf_for(cfg.n[0] as int, cfg.n[1] as int, cfg.n[2] as int)
    &&& gz.wf_for(cfg.n[0] as int, cfg.n[1] as int, cfg.n[2] as int)
    &&& gx.dimension == 0
    &&& gy.dimension == 1
    &&& gz.dimension == 2
    &&& (forall|d: int|
        0 <= d < 3 ==> {
            &&& 1 <= #[trigger] data_grid_point_size[d] <= crate::grid::MAX_N
            &&& min_coords[d] <= max_coords[d]
            &&& max_coords[d] < cfg.n[d]
        })
}

/// A stride computed by floor division keeps every sample inside the span.
proof fn lemma_stride_in_bounds(m: int, s: int)
    requires
        0 <= m,
        1 <= s,
    ensures
        0 <= m / s <= m,
{
    let q = m / s;
    vstd::arithmetic::div_mod::lemma_fundamental_div_mod(m, s);
    vstd::arithmetic::div_mod::lemma_mod_bound(m, s);
    assert(0 <= q <= m) by (nonlinear_arith)
        requires
            m == s * q + (m % s),
            0 <= m % s < s,
            0 <= m,
            1 <= s,
    ;
}

/// `c * (m / s) <= m` for every output index `c < s`.
proof fn lemma_sample_coord(m: int, s: int, c: int)
    requires
        0 <= m,
        1 <= s,
        0 <= c < s,
    ensures
        0 <= c * (m / s) <= m,
{
    let q = m / s;
    vstd::arithmetic::div_mod::lemma_fundamental_div_mod(m, s);
    vstd::arithmetic::div_mod::lemma_mod_bound(m, s);
    assert(0 <= q) by (nonlinear_arith)
        requires
            m == s * q + (m % s),
            0 <= m % s < s,
            0 <= m,
            1 <= s,
    ;
    assert(0 <= c * q <= m) by (nonlinear_arith)
        requires
            m == s * q + (m % s),
            0 <= m % s,
            0 <= q,
            0 <= c < s,
    ;
}

} // verus!
