//! A mass-spring cloth simulator on a rectangular particle grid.
//!
//! The solver advances particle positions and velocities by many small
//! semi-implicit Euler substeps per rendered frame, accumulating gravity,
//! elastic and damping spring forces, and resolving collisions with a static
//! sphere. All quantities are fixed-point values (see [`math::SCALE`]), so
//! every step of the simulation is exact integer arithmetic with a precise
//! mathematical specification.

pub mod math;
pub mod types;
pub mod grid;
pub mod topology;
pub mod forces;
pub mod integrate;
pub mod solver;
pub mod runner;
