//! Verified core of a small visible-light ray tracer: reflective primitives,
//! bounce tracing, arc-length parameterized polylines, and the animation
//! state that sweeps a highlighted window along a traced path.
//!
//! All geometry is carried in fixed-point scalars (`1/SCALE` units held in
//! `i64`), so every operation has an exact, verifiable meaning.

pub mod animation;
pub mod engine;
pub mod math;
pub mod path;
pub mod plane;
pub mod ray;
pub mod sphere;
