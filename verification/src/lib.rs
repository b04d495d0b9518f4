//! Simulation core of a lane-constrained survival runner: a player character
//! runs along a road while a wave advances from behind; obstacles and other
//! runners populate the road ahead.
//!
//! All world quantities (distances, velocities, times, animation phases) are
//! fixed-point integers counted in thousandths of a world unit, so the whole
//! per-frame step is exact and free of rounding surprises.

pub mod assets;
pub mod character;
pub mod fixed;
pub mod game;
pub mod geometry;
pub mod render;
pub mod rng;
