//! A recursive Monte Carlo path tracer over fixed-point arithmetic.
//!
//! Scenes are made of analytic spheres with Lambertian, metallic and
//! dielectric materials. All scalars are fixed-point numbers: an `i64`
//! holding `value * fixed::SCALE`, so every geometric computation is exact
//! integer arithmetic with truncating division, and every public operation
//! carries a verified contract.

pub mod fixed;
pub mod vec3;
pub mod color;
pub mod ray;
pub mod hittable;
pub mod sphere;
pub mod rng;
pub mod rtweekend;
pub mod material;
pub mod world;
pub mod camera;
pub mod render;
pub mod ppm;
