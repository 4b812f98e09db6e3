use vstd::prelude::*;

verus! {

/// Sample format codes shared with the modem engine.
pub const SAMPLE_FORMAT_UNDEFINED: i32 = 0;
pub const SAMPLE_FORMAT_U8: i32 = 1;
pub const SAMPLE_FORMAT_I8: i32 = 2;
pub const SAMPLE_FORMAT_U16: i32 = 3;
pub const SAMPLE_FORMAT_I16: i32 = 4;
pub const SAMPLE_FORMAT_F32: i32 = 5;

/// WAV `fmt ` format tags.
pub const WAV_FORMAT_PCM: u16 = 1;
pub const WAV_FORMAT_IEEE_FLOAT: u16 = 3;

/// Bits per sample written for a sample format; an unknown format falls back to 16.
pub open spec fn spec_bits_for_format(sample_format: i32) -> u16 {
    if sample_format == SAMPLE_FORMAT_U8 || sample_format == SAMPLE_FORMAT_I8 {
        8
    } else if sample_format == SAMPLE_FORMAT_F32 {
        32
    } else {
        16
    }
}

pub fn bits_for_format(sample_format: i32) -> (r: u16)
    ensures
        r == spec_bits_for_format(sample_format),
{
    if sample_format == SAMPLE_FORMAT_I16 {
        16
    } else if sample_format == SAMPLE_FORMAT_U8 {
        8
    } else if sample_format == SAMPLE_FORMAT_F32 {
        32
    } else if sample_format == SAMPLE_FORMAT_I8 {
        8
    } else if sample_format == SAMPLE_FORMAT_U16 {
        16
    } else {
        16
    }
}

} // verus!
