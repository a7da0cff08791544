//! The extra channels of an image.

use vstd::prelude::*;

verus! {

/// What the frame header needs to know of an extra channel of the image.
#[derive(Clone, Copy, Debug, PartialEq, Eq, Structural)]
pub struct ExtraChannelInfo {
    pub dim_shift: u32,
}

impl ExtraChannelInfo {
    /// By how many powers of two the channel is smaller than the image.
    pub fn dim_shift(&self) -> (shift: u32)
        ensures
            shift == self.dim_shift,
    {
        self.dim_shift
    }
}

} // verus!
