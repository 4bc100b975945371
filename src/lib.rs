//! Integer-valued core of a diorama ray tracer: texture storage and texel
//! lookup, the texture catalog with its fallback colors, the pixel
//! framebuffer, the all-or-nothing cubemap rule, the recursion bound of the
//! shading evaluator, and the face records of the mesh loader.

pub mod pixel;
pub mod material;
pub mod texture;
pub mod framebuffer;
pub mod skybox;
pub mod shading;
pub mod obj;
