//! Core of a small path-tracing renderer.
//!
//! The crate verifies the renderer's discrete backbone: the dense
//! N-dimensional grid that carries the image between passes, and the
//! bounce-accounting state machine that drives the Monte-Carlo path
//! integrator.  The floating-point geometry (vectors, intersections,
//! materials) lives with the unverified front end, which feeds its
//! outcomes into the verified state machine and writes its pixels
//! through the verified grid.

pub mod grid;
pub mod path;
pub mod ppm;
