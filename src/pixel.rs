use vstd::prelude::*;

verus! {

/// An 8-bit RGBA pixel, as stored in textures and in the framebuffer.
#[derive(Clone, Copy, Debug, PartialEq, Eq, Structural)]
pub struct Rgba8 {
    pub r: u8,
    pub g: u8,
    pub b: u8,
    pub a: u8,
}

impl Rgba8 {
    pub open spec fn spec_new(r: u8, g: u8, b: u8, a: u8) -> Rgba8 {
        Rgba8 { r, g, b, a }
    }

    /// The pixel with the four given channels.
    pub fn new(r: u8, g: u8, b: u8, a: u8) -> (p: Rgba8)
        ensures
            p == Rgba8::spec_new(r, g, b, a),
    {
        Rgba8 { r, g, b, a }
    }

    /// The channels as a tuple `(r, g, b, a)`.
    pub open spec fn channels(self) -> (u8, u8, u8, u8) {
        (self.r, self.g, self.b, self.a)
    }
}

/// Cell `(x, y)` of a `w` by `h` grid stored row by row lies inside the
/// storage.
pub proof fn lemma_cell_in_grid(x: int, y: int, w: int, h: int)
    requires
        0 <= x < w,
        0 <= y < h,
    ensures
        0 <= y * w + x < w * h,
{
    assert(0 <= y * w) by (nonlinear_arith) requires 0 <= y, 0 < w;
    assert(y * w <= (h - 1) * w) by (nonlinear_arith) requires y <= h - 1, 0 < w;
    assert((h - 1) * w + w == w * h) by (nonlinear_arith);
}

} // verus!
