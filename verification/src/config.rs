//! Values that both devices report in their configuration.

use vstd::prelude::*;

verus! {

/// The size of the picture that each eye is rendered at, in pixels.
#[derive(Clone, Copy, Debug, PartialEq, Eq, Structural)]
pub struct ConfigDevice {
    pub eye_target_height_in_pixels: u32,
    pub eye_target_width_in_pixels: u32,
}

} // verus!
