//! The state that every fragment of one mesh is shaded with.

use vstd::prelude::*;
use crate::noise::NoiseConfig;

verus! {

/// Per-frame state shared by the shading of one mesh.
///
/// `time` is the simulation clock in milliseconds. `pulse` is the slow
/// oscillation that the cloud opacity follows, `|sin(0.3 t)|` with `t` in
/// seconds, as a fixed-point real; values outside the unit interval are
/// limited to it. The three noise configurations say which generators the
/// noise samples of a fragment come from. `current_shader` selects the
/// shader.
#[derive(Clone, Copy, Debug, PartialEq, Eq, Structural)]
pub struct Uniforms {
    pub time: u32,
    pub pulse: i32,
    pub noise: NoiseConfig,
    pub cloud_noise: NoiseConfig,
    pub band_noise: NoiseConfig,
    pub current_shader: u8,
}

} // verus!
