//! Radiance-estimation core of an offline stochastic ray tracer.
//!
//! All geometry and light transport is computed over an exact fixed-point
//! scalar type, so every function of the core carries a verified contract.
//! Randomness is supplied by the caller as plain sample values, which makes
//! each ray evaluation a deterministic, fully specified computation.

pub mod camera;
pub mod environment;
pub mod fixed;
pub mod hittable;
pub mod material;
pub mod noise;
pub mod ray;
pub mod sphere;
pub mod texture;
pub mod trig;
pub mod vec3;
