//! The decision core of a small ray tracer.
//!
//! The arithmetic of a renderer is floating point and is done by the caller.
//! This library holds what the renderer decides with the numbers it is handed:
//! which root of the sphere equation is the hit, which object is nearest, how
//! much of a light is blocked, whether a ray is reflected once more, where in
//! the picture a sample lies, and which byte a colour channel becomes.

pub mod aa;
pub mod camera;
pub mod color;
pub mod light;
pub mod plane;
pub mod ratio;
pub mod render;
pub mod scalar;
pub mod scene;
pub mod shading;
pub mod shadow;
pub mod sphere;
pub mod vec3;
