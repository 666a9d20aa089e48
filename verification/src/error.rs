//! The ways in which decoding an image can fail.

use vstd::prelude::*;

verus! {

/// Why a decode was abandoned. Every error is fatal to the decode in which
/// it occurs: nothing is retried and no partial image is produced.
#[derive(Clone, Copy, Debug, PartialEq, Eq, Structural)]
pub enum DecodeError {
    /// The input does not start with the eight signature bytes.
    MalformedSignature,
    /// A chunk claims more bytes than the input still holds.
    TruncatedChunk,
    /// The header chunk is absent, misplaced, repeated, too short, or
    /// describes an image that is not supported.
    InvalidHeader,
    /// A text chunk has no separator or is not UTF-8.
    InvalidText,
    /// A timestamp chunk is shorter than seven bytes.
    InvalidTimestamp,
    /// The compressed payload could not be inflated, or inflated to fewer
    /// bytes than the image needs.
    DecompressionFailed,
    /// A scanline starts with a filter code above four.
    InvalidFilterType,
    /// The color type is unknown, or is the indexed one, for which no
    /// palette is applied.
    UnsupportedColorType,
}

} // verus!
