//! Verified skeleton of a small ray tracer: nearest-hit resolution over a scene,
//! per-ray control decisions of the two tracers, band scheduling, frame buffers
//! and progressive accumulation.
//!
//! Numeric kernels (vector algebra, intersection roots, shading arithmetic) are
//! supplied by the caller as closures; everything here is stated over the values
//! those closures return.

pub mod drawing;
pub mod entities;
pub mod shading;
pub mod trace;
pub mod world;
