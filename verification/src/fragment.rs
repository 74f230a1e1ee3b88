//! The record that the rasterizer emits for one covered pixel.

use vstd::prelude::*;
use crate::color::Color;
use crate::fixed::Vector3;

verus! {

/// One candidate pixel of one triangle, with the attributes interpolated at
/// its center. `normal` is not normalized; shaders normalize on use.
#[derive(Clone, Copy, Debug, PartialEq, Eq, Structural)]
pub struct Fragment {
    pub x: usize,
    pub y: usize,
    pub depth: i32,
    pub world_position: Vector3,
    pub normal: Vector3,
    pub intensity: i32,
    pub base_color: Color,
}

} // verus!
