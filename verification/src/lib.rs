//! A small ray tracer with verified geometry and light transport.
//!
//! Scalars are fixed-point integers (see `fixed`), so every routine — the
//! vector algebra, the sphere intersection, the scene aggregation, the
//! material scattering rules, the camera derivation and the render loop —
//! carries an exact integer contract. Randomness enters only through a
//! trusted draw from the `rand` crate; progress logging and timing sit
//! behind trusted wrappers around the standard library.

pub mod camera;
pub mod fixed;
pub mod material;
pub mod object;
pub mod render;
pub mod sphere;
pub mod types;
pub mod utils;
