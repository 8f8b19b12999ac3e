//! Incompressible 2D fluid flow on a staggered (MAC) grid.
//!
//! The simulation keeps horizontal velocities on vertical cell faces,
//! vertical velocities on horizontal cell faces and pressures at cell
//! centers. One `step` enforces the no-flow boundary, advects the velocity
//! field through itself (semi-Lagrangian), enforces the boundary again, and
//! projects the field to remove divergence (Jacobi-relaxed pressure solve).
//! All scalars are saturating fixed-point numbers, with `fixed::SCALE`
//! standing for one, so every phase has an exact mathematical
//! specification.

pub mod field;
pub mod fixed;
pub mod grid;
pub mod laws;
pub mod model;
pub mod simulation;
pub mod solver;
