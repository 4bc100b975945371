use vstd::prelude::*;

verus! {

/// Descriptive tag of a material. Shading never branches on it: what a
/// surface does is decided by the material's numeric parameters alone.
#[derive(Clone, Copy, Debug, PartialEq, Eq, Structural)]
pub enum MaterialType {
    Diffuse,
    Reflective,
    Refractive,
    Emissive,
}

} // verus!
