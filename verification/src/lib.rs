//! A verified particle-swarm simulation: falling and rising square particles
//! above a fixed "sea level" boundary on a 2D drawing surface.
//!
//! All quantities are exact fixed-point integers: one drawing-surface unit is
//! `SCALE` (6400) internal units. Every value the simulation produces is an
//! exact multiple of 1/6400 of a drawing unit, so integer arithmetic models
//! the simulation without rounding. The host glue (canvas drawing, secure
//! random bytes, frame scheduling) lives outside this library and exchanges
//! plain values with it.

pub mod animation;
pub mod particle;
pub mod rng;
pub mod system;
