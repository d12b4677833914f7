//! Arrow shapes for plotters: the arrowhead geometry, the primitives that
//! draw it, and the arrow descriptors that callers build.

pub mod surd;
pub mod geometry;
pub mod emit;
pub mod arrow;
pub mod laws;
