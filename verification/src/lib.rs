//! A small ray tracer whose geometric core works on fixed-point scalars.
//!
//! Scalars are `i64` values carrying `SCALE` (= 10_000) fractional steps per
//! unit, so that the geometry (intersection tests, bounding boxes, the BVH and
//! the shading pipeline) is exact integer arithmetic with proved contracts.
//! Anything that needs floating point (reading mesh files, trigonometry for
//! camera rotations, pushing pixels to a window or an image file) lives outside
//! this crate and exchanges plain scaled integers with it.

pub mod alighned_box;
pub mod bounded;
pub mod bvh;
pub mod camera;
pub mod color;
pub mod disk;
pub mod fixed;
pub mod geometry;
pub mod light;
pub mod material;
pub mod matrix;
pub mod normal;
pub mod obj_file;
pub mod object;
pub mod plane;
pub mod point;
pub mod ppm;
pub mod ray;
pub mod scene;
pub mod sphere;
pub mod texture_loader;
pub mod tracer;
pub mod triangle;
pub mod vector;
pub mod viewframe;
