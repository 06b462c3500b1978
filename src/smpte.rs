use vstd::prelude::*;
use crate::error::ExtractError;
use crate::source::SmpteOffsetValue;

verus! {

/// The frame rate selected by the two high bits of an SMPTE offset's hour byte.
#[derive(Clone, Copy, Debug, PartialEq, Eq)]
pub enum SmpteFrameSpec {
    F24,
    F25,
    F2997,
    F30,
}

/// The frame rate of each code, in hundredths of a frame per second.
pub open spec fn rate_of_code(code: u8) -> u32 {
    if code == 0 {
        2400
    } else if code == 1 {
        2500
    } else if code == 2 {
        2997
    } else {
        3000
    }
}

impl SmpteFrameSpec {
    pub open spec fn code(self) -> u8 {
        match self {
            SmpteFrameSpec::F24 => 0,
            SmpteFrameSpec::F25 => 1,
            SmpteFrameSpec::F2997 => 2,
            SmpteFrameSpec::F30 => 3,
        }
    }

    /// Frames per second, in hundredths (29.97 fps is 2997).
    pub fn frame_rate(&self) -> (r: u32)
        ensures
            r == rate_of_code(self.code()),
    {
        match self {
            SmpteFrameSpec::F24 => 2400,
            SmpteFrameSpec::F25 => 2500,
            SmpteFrameSpec::F2997 => 2997,
            SmpteFrameSpec::F30 => 3000,
        }
    }

    /// The frame rate for a two-bit code; any other value is refused.
    pub fn from_code(val: u8) -> (r: Result<SmpteFrameSpec, ExtractError>)
        ensures
            val <= 3 ==> (r matches Ok(s) && s.code() == val),
            val > 3 ==> r == Err::<SmpteFrameSpec, ExtractError>(
                ExtractError::InvalidFrameRateCode(val),
            ),
    {
        match val {
            0 => Ok(SmpteFrameSpec::F24),
            1 => Ok(SmpteFrameSpec::F25),
            2 => Ok(SmpteFrameSpec::F2997),
            3 => Ok(SmpteFrameSpec::F30),
            _ => Err(ExtractError::InvalidFrameRateCode(val)),
        }
    }
}

/// The frame-rate code of an hour byte: its two high bits.
pub open spec fn frame_code_of(hr: u8) -> u8 {
    (hr / 64) as u8
}

/// The hour of an hour byte: its five low bits.
pub open spec fn hour_of(hr: u8) -> u8 {
    (hr % 32) as u8
}

/// Decodes the frame rate (hundredths of a frame per second) and the hour of
/// an SMPTE offset.
pub fn extract_frame_rate_hrs(smpte_offset: &SmpteOffsetValue) -> (r: Result<(u32, u8), ExtractError>)
    ensures
        r == Ok::<(u32, u8), ExtractError>(
            (rate_of_code(frame_code_of(smpte_offset.hr)), hour_of(smpte_offset.hr)),
        ),
{
    let hr = smpte_offset.hr;
    let frame_mask: u8 = 0b0000_0011;
    let frame_rate_spec = (hr >> 6) & frame_mask;
    assert(frame_rate_spec == hr / 64) by (bit_vector)
        requires
            frame_rate_spec == (hr >> 6) & 3u8,
    ;
    let hr_mask: u8 = 0b0001_1111;
    let hour = hr & hr_mask;
    assert(hour == hr % 32) by (bit_vector)
        requires
            hour == hr & 31u8,
    ;
    match SmpteFrameSpec::from_code(frame_rate_spec) {
        Ok(spec) => Ok((spec.frame_rate(), hour)),
        Err(e) => Err(e),
    }
}

} // verus!
