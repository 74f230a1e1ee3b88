//! A software rendering core for procedurally shaded celestial bodies.
//!
//! Every quantity that the pipeline computes with is an integer: real numbers
//! are held in fixed point, in ten-thousandths (see [`fixed::UNIT`]). The
//! triangle rasterizer, the shading model and the framebuffer are stated over
//! mathematical integers and proved against those statements.
//!
//! The vertex stage and the noise generators work in floating point and stay
//! outside: the pipeline takes vertices that are already in screen space, and
//! asks for noise through [`render::NoiseField`].

pub mod color;
pub mod fixed;
pub mod fragment;
pub mod framebuffer;
pub mod noise;
pub mod render;
pub mod shaders;
pub mod triangle;
pub mod uniforms;
pub mod vertex;

pub use uniforms::Uniforms;
