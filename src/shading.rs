use vstd::prelude::*;

verus! {

/// The deepest bounce that is still traced: the camera ray is depth 0, and
/// each reflected or refracted ray is one deeper.
pub const MAX_DEPTH: u32 = 2;

/// Whether a ray at `depth` is past the bounce budget. Such a ray is not
/// traced: its color is black, whatever the scene holds.
pub fn depth_exhausted(depth: u32) -> (r: bool)
    ensures
        r == (depth > MAX_DEPTH),
{
    depth > MAX_DEPTH
}

} // verus!
