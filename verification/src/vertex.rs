//! Mesh vertices.

use vstd::prelude::*;

verus! {

/// A position: easting `x`, northing `y` and elevation `z`, in hundredths.
#[derive(Clone, Copy, Debug, PartialEq, Eq, Structural)]
pub struct Vertex {
    pub x: i32,
    pub y: i32,
    pub z: i32,
}

impl Vertex {
    pub fn new(x: i32, y: i32, z: i32) -> (v: Vertex)
        ensures
            v == (Vertex { x, y, z }),
    {
        Vertex { x, y, z }
    }
}

impl Default for Vertex {
    /// The origin.
    fn default() -> (v: Vertex)
        ensures
            v == (Vertex { x: 0, y: 0, z: 0 }),
    {
        Vertex { x: 0, y: 0, z: 0 }
    }
}

} // verus!
