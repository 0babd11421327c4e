//! A path tracer over fixed-point arithmetic.
//!
//! Rays are intersected with a tree of spheres, scattered by diffuse,
//! metallic and refracting materials, and followed for a bounded number
//! of bounces; the samples of each pixel are averaged, gamma-corrected and
//! packed into eight bits per channel. Every scalar is a fixed-point
//! number that saturates, so no operation overflows or fails, and what
//! each function returns is stated over the integers.
pub mod materials;
pub mod model;
pub mod render;
pub mod sampling;
pub mod scalar;
pub mod vec3;
