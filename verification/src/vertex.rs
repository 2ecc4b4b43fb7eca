//! The vertex attribute structure flowing through the pipeline.

use vstd::prelude::*;

verus! {

/// Largest coordinate magnitude a mesh vertex may carry into the pipeline.
pub const LIM_MESH: i64 = 0x1_0000;

/// A point with fixed-point coordinates. Before the vertex stage these are
/// model-space coordinates; after it, screen-space x and y, with z kept
/// purely as a depth value for shading.
#[derive(Clone, Copy, PartialEq, Eq, Structural, Debug)]
pub struct Vertex {
    pub x: i64,
    pub y: i64,
    pub z: i64,
}

impl Vertex {
    /// Packs three coordinates into a vertex.
    pub fn new(x: i64, y: i64, z: i64) -> (v: Vertex)
        ensures
            v == (Vertex { x, y, z }),
    {
        Vertex { x, y, z }
    }
}

} // verus!
