//! A small ray-casting core: exact rational scalars, 3-D vector algebra,
//! rays, a fixed pinhole camera, a sphere intersection test, and the
//! mapping from colors to display bytes.

pub mod rat;
pub mod vec3;
pub mod point;
pub mod color;
pub mod ray;
pub mod camera;
pub mod sphere;
pub mod render;
