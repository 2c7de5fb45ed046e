//! Colors as vectors.

use vstd::prelude::*;
use crate::vec3::Vec3;

verus! {

/// RGB color, each channel a fixed-point value ranging from 0 to
/// `fixed::SCALE` raw steps (0.0 to 1.0 units).
pub type Color = Vec3;

} // verus!
