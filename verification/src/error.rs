//! The failures of a decode.

use vstd::prelude::*;

verus! {

/// The closed tag enumerations of the frame header.
#[derive(Clone, Copy, Debug, PartialEq, Eq, Structural)]
pub enum Tag {
    FrameType,
    Encoding,
    BlendingMode,
}

/// Why a decode was abandoned.
///
/// `OutOfBounds` is the only recoverable kind: the buffer ended before the
/// record did, and the same decode may succeed from the start once more bytes
/// are there. Every other kind says that the stream itself is malformed.
#[derive(Clone, Copy, Debug, PartialEq, Eq, Structural)]
pub enum Error {
    /// Fewer bits were left in the buffer than a read asked for.
    OutOfBounds,
    /// The code read for a tag field names no variant of that tag.
    InvalidEnum(u32, Tag),
    /// An extra channel's upsampling does not fit the frame's: the frame's
    /// upsampling, the channel's dimension shift, the channel's upsampling.
    InvalidEcUpsampling(u32, u32, u32),
    /// The downsampling count is not below the pass count: the downsampling
    /// count, the pass count.
    NumPassesTooLarge(u32, u32),
    /// The code names no predictor.
    InvalidPredictor(u32),
}

} // verus!
