//! A first-person "fly" camera held in fixed-point arithmetic.
//!
//! Angles are kept in nanodegrees, basis vectors in billionths of a unit,
//! and positions in units of 1e-17 world units. Elapsed time is counted in
//! microseconds and handed in by the caller, so every update is exact and
//! deterministic.
pub mod camera;
pub mod geometry;
pub mod input;
