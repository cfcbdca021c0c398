//! A minimal offline ray tracer core: fixed-point vector math, ray/primitive
//! intersection, axis-aligned bounding boxes, materials, and the recursive
//! shading evaluation, all with verified contracts.
//!
//! Coordinates and colors are fixed-point numbers (see [`fx`]): the kernel's
//! arithmetic is exact integer arithmetic with floor rounding and saturation
//! at the rails, which stand in for IEEE infinities.

pub mod aabb;
pub mod camera;
pub mod fx;
pub mod hit;
pub mod material;
pub mod packed;
pub mod planes;
pub mod ray;
pub mod sphere;
pub mod vec3;

