//! The integer side of a sphere path tracer: 8-bit pixel colors and the
//! per-ray state machine that bounds how often a path may scatter.

pub mod color;
pub mod path;
