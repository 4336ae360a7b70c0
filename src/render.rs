//! Values handed to the shaders with each draw.

use vstd::prelude::*;

verus! {

/// The frame being drawn and the frame rate, pushed to the shaders as constants.
#[derive(PartialEq, Eq, Structural, Debug, Copy, Clone)]
pub struct PushConstants {
    pub time: u32,
    pub fps: u32,
}

} // verus!
