//! An offline Monte Carlo path tracer over exact fixed-point arithmetic.
//!
//! Scalars (coordinates, colors, ray parameters) are stored as `i64`
//! multiples of one millionth, so every arithmetic step has an exact
//! integer meaning that contracts can state and proofs can track.
//! Results of every operation saturate at the representable range
//! instead of wrapping, which keeps all operations total.

pub mod camera;
pub mod color;
pub mod fixed;
pub mod hittable;
pub mod hittable_list;
pub mod material;
pub mod ray;
pub mod render;
pub mod rng;
pub mod sphere;
pub mod vec3;

pub use fixed::ONE;
