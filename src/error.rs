use vstd::prelude::*;

verus! {

/// The fatal conditions of an extraction.
#[derive(Clone, Copy, Debug, PartialEq, Eq)]
pub enum ExtractError {
    /// The file's division counts SMPTE frames, not quarter notes.
    UnsupportedDivision,
    /// An SMPTE offset names a frame-rate code outside 0..=3.
    InvalidFrameRateCode(u8),
}

} // verus!
