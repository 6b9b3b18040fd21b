//! Animated fractal gradient noise, rendered into an RGBA frame buffer.
//!
//! All noise arithmetic is carried out exactly on integers in a fixed-point
//! format whose unit is [`fade::ONE`].
use vstd::prelude::*;

pub mod color;
pub mod fade;
pub mod scene;

verus! {

} // verus!
