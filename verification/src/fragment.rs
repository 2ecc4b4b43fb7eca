//! The fragment structure produced by the rasterizer.

use vstd::prelude::*;

verus! {

/// One candidate pixel of a rasterized triangle: an integer pixel position
/// and the depth interpolated barycentrically at the pixel center.
#[derive(Clone, Copy, PartialEq, Eq, Structural, Debug)]
pub struct Fragment {
    pub x: i64,
    pub y: i64,
    pub depth: i64,
}

} // verus!
