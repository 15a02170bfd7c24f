//! A Whitted-style recursive ray tracer over saturating fixed-point
//! arithmetic, together with a few small standalone verified algorithms.
//!
//! Scalars are `i64` values scaled by `fix::SCALE` (1024 units stand for
//! 1.0). The geometry model lives in [`raycast`], the pixel loop in
//! [`render`], and the global laws of the renderer in [`laws`].

pub mod algs;
pub mod fix;
pub mod laws;
pub mod raycast;
pub mod render;
pub mod rng;
pub mod vec3;
