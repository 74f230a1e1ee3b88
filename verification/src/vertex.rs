//! The records that carry a mesh vertex into and out of the vertex stage.

use vstd::prelude::*;
use crate::color::Color;
use crate::fixed::Vector3;

verus! {

/// A mesh vertex in object space.
#[derive(Clone, Copy, Debug, PartialEq, Eq, Structural)]
pub struct Vertex {
    pub position: Vector3,
    pub normal: Vector3,
    pub tex_u: i32,
    pub tex_v: i32,
    pub color: Color,
}

/// A vertex after the vertex stage.
///
/// `screen_position` holds `x` and `y` in pixels (fixed point, so one pixel
/// is `UNIT`) and the depth in `z`, in any unit that grows with distance.
/// `defined` is false where the transform had no finite result, as for a
/// homogeneous `w` of zero; a triangle with such a vertex is not drawn.
#[derive(Clone, Copy, Debug, PartialEq, Eq, Structural)]
pub struct TransformedVertex {
    pub vertex: Vertex,
    pub screen_position: Vector3,
    pub world_normal: Vector3,
    pub intensity: i32,
    pub defined: bool,
}

impl Vertex {
    /// A vertex with the given position, normal and texture coordinates, in
    /// black.
    pub fn new(position: Vector3, normal: Vector3, tex_u: i32, tex_v: i32) -> (v: Vertex)
        ensures
            v == (Vertex { position, normal, tex_u, tex_v, color: Color { r: 0, g: 0, b: 0 } }),
    {
        Vertex { position, normal, tex_u, tex_v, color: Color::black() }
    }
}

} // verus!
