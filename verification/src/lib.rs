//! A transient, incompressible Navier-Stokes solver on a fixed
//! three-dimensional staggered (MAC) grid.
//!
//! Velocity components live on cell faces, pressure at cell centres.  Each
//! time step first predicts provisional velocities explicitly (convection,
//! diffusion, pressure gradient, body force), then iteratively applies a
//! pressure correction until the discrete divergence at every interior
//! pressure point falls below a configured tolerance.  Wall and inflow
//! boundary conditions are re-imposed after every field update, and the
//! converged fields are resampled onto a coarser collocated grid for the
//! external renderer.
//!
//! All samples are saturating fixed-point numbers ([`fixed::SCALE`] steps
//! per unit), so every arithmetic step has an exact, machine-checked
//! meaning: each sweep's contract states the value of every sample it
//! leaves behind, and the time-step routine promises precisely how many
//! correction iterations ran and what fields they produced.

pub mod allocator;
pub mod boundary;
pub mod config;
pub mod fixed;
pub mod grid;
pub mod operators;
pub mod render;
pub mod solver;
