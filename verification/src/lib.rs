//! A ray-casting renderer for scenes of opaque spheres under one point
//! light, computed entirely in fixed-point arithmetic: camera-ray
//! generation, ray--sphere intersection, nearest-hit resolution, and
//! Lambertian shading with an ambient/diffuse blend.

pub mod fixed;
pub mod light;
pub mod ppm;
pub mod ray;
pub mod ray_tracer;
pub mod sphere3d;
pub mod utility;
pub mod vector_library;
