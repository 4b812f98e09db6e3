use vstd::prelude::*;
use crate::format::{
    SAMPLE_FORMAT_F32, SAMPLE_FORMAT_I16, SAMPLE_FORMAT_U8, WAV_FORMAT_IEEE_FLOAT, WAV_FORMAT_PCM,
};
use crate::le::{le16_at, le16_bytes, push_le16};
use crate::wav::{WavData, WavError};

verus! {

/// The sample format of audio with this format tag and bit depth, if it can be reduced.
pub open spec fn sample_format_of(format_tag: u16, bits_per_sample: u16) -> Option<i32> {
    if format_tag == WAV_FORMAT_PCM && bits_per_sample == 8 {
        Some(SAMPLE_FORMAT_U8)
    } else if format_tag == WAV_FORMAT_PCM && bits_per_sample == 16 {
        Some(SAMPLE_FORMAT_I16)
    } else if format_tag == WAV_FORMAT_IEEE_FLOAT && bits_per_sample == 32 {
        Some(SAMPLE_FORMAT_F32)
    } else {
        None
    }
}

/// Number of whole frames of `channels` samples of `width` bytes in `len` bytes.
pub open spec fn frame_count(len: int, width: int, channels: int) -> int {
    len / (width * channels)
}

/// The signed 16-bit sample with index `j` (bytes `2j`, `2j + 1`).
pub open spec fn sample_i16(d: Seq<u8>, j: int) -> int {
    let u = le16_at(d, 2 * j) as int;
    if u >= 32768 {
        u - 65536
    } else {
        u
    }
}

/// Sum of the first `n` channel samples of frame `k`, 16-bit signed.
pub open spec fn frame_sum_i16(d: Seq<u8>, channels: int, k: int, n: int) -> int
    decreases n,
{
    if n <= 0 {
        0
    } else {
        frame_sum_i16(d, channels, k, n - 1) + sample_i16(d, k * channels + n - 1)
    }
}

/// Sum of the first `n` channel samples of frame `k`, 8-bit unsigned.
pub open spec fn frame_sum_u8(d: Seq<u8>, channels: int, k: int, n: int) -> int
    decreases n,
{
    if n <= 0 {
        0
    } else {
        frame_sum_u8(d, channels, k, n - 1) + d[k * channels + n - 1] as int
    }
}

/// Integer division rounding toward zero.
pub open spec fn div_toward_zero(a: int, d: int) -> int {
    if a >= 0 {
        a / d
    } else {
        -((-a) / d)
    }
}

pub open spec fn clamp(v: int, lo: int, hi: int) -> int {
    if v < lo {
        lo
    } else if v > hi {
        hi
    } else {
        v
    }
}

/// The mono sample of frame `k` of 16-bit signed audio: the mean of its channels,
/// rounded toward zero and clamped to the 16-bit range.
pub open spec fn mean_i16(d: Seq<u8>, channels: int, k: int) -> int {
    clamp(div_toward_zero(frame_sum_i16(d, channels, k, channels), channels), -32768, 32767)
}

/// The mono sample of frame `k` of 8-bit unsigned audio: the mean of its channels,
/// rounded toward zero and clamped to `0..=255`.
pub open spec fn mean_u8(d: Seq<u8>, channels: int, k: int) -> int {
    clamp(div_toward_zero(frame_sum_u8(d, channels, k, channels), channels), 0, 255)
}

/// `out` holds one 16-bit sample per whole frame of `d`, each the mean of its frame.
pub open spec fn is_mono_i16(out: Seq<u8>, d: Seq<u8>, channels: int) -> bool {
    &&& out.len() == 2 * frame_count(d.len() as int, 2, channels)
    &&& forall|k: int|
        0 <= k < frame_count(d.len() as int, 2, channels) ==> #[trigger] sample_i16(out, k)
            == mean_i16(d, channels, k)
}

/// `out` holds one 8-bit sample per whole frame of `d`, each the mean of its frame.
pub open spec fn is_mono_u8(out: Seq<u8>, d: Seq<u8>, channels: int) -> bool {
    &&& out.len() == frame_count(d.len() as int, 1, channels)
    &&& forall|k: int|
        0 <= k < frame_count(d.len() as int, 1, channels) ==> #[trigger] out[k] as int
            == mean_u8(d, channels, k)
}

/// Whole frames of `d`: the bytes that remain once a trailing partial frame is dropped.
pub open spec fn whole_frames(d: Seq<u8>, width: int, channels: int) -> Seq<u8> {
    d.subrange(0, frame_count(d.len() as int, width, channels) * width * channels)
}

/// Audio reduced to one channel.
#[derive(Debug)]
pub enum Mono {
    /// Mono samples in the given sample format.
    Samples { sample_format: i32, data: Vec<u8> },
    /// Whole frames of interleaved 32-bit IEEE float samples, `channels` per frame,
    /// whose per-frame mean is taken in floating point by the caller.
    FloatFrames { channels: u16, data: Vec<u8> },
}

/// The sample at index `(k * channels + c)` of `width` bytes lies within `len` bytes
/// when `k` is a whole frame and `c` a channel.
proof fn lemma_sample_in_bounds(len: int, width: int, channels: int, k: int, c: int)
    requires
        width > 0,
        channels > 0,
        len >= 0,
        0 <= k < frame_count(len, width, channels),
        0 <= c < channels,
    ensures
        0 <= k * channels + c < len,
        0 <= (k * channels + c) * width,
        (k * channels + c) * width + width <= len,
        (k * channels + c) * width + width <= frame_count(len, width, channels) * width * channels,
{
    let f = frame_count(len, width, channels);
    assert(width * channels > 0) by (nonlinear_arith)
        requires
            width > 0,
            channels > 0,
    {
    }
    vstd::arithmetic::div_mod::lemma_fundamental_div_mod(len, width * channels);
    assert(f * (width * channels) <= len) by (nonlinear_arith)
        requires
            len == (width * channels) * f + len % (width * channels),
            len % (width * channels) >= 0,
    {
    }
    assert((k * channels + c) * width + width <= f * width * channels) by (nonlinear_arith)
        requires
            k + 1 <= f,
            c + 1 <= channels,
            width > 0,
            channels > 0,
            k >= 0,
    {
    }
    assert(0 <= (k * channels + c) * width) by (nonlinear_arith)
        requires
            k >= 0,
            c >= 0,
            width > 0,
            channels > 0,
    {
    }
    assert(f * width * channels == f * (width * channels)) by (nonlinear_arith);
    assert(k * channels + c <= (k * channels + c) * width) by (nonlinear_arith)
        requires
            k * channels + c >= 0,
            width > 0,
    {
    }
}

proof fn lemma_sample_i16_range(d: Seq<u8>, j: int)
    requires
        0 <= 2 * j,
        2 * j + 1 < d.len(),
    ensures
        -32768 <= sample_i16(d, j) <= 32767,
{
}

/// Sum of the samples of frame `k` of 16-bit signed audio, in an `i32`.
fn frame_sum_i16_exec(d: &[u8], channels: u16, k: usize) -> (r: i32)
    requires
        channels > 0,
        k < frame_count(d@.len() as int, 2, channels as int),
    ensures
        r == frame_sum_i16(d@, channels as int, k as int, channels as int),
        -32768 * channels <= r <= 32767 * channels,
{
    let ch = channels as usize;
    let n = d.len();
    let mut acc: i32 = 0;
    let mut c: usize = 0;
    while c < ch
        invariant
            ch == channels,
            n == d@.len(),
            channels > 0,
            k < frame_count(d@.len() as int, 2, channels as int),
            c <= ch,
            acc == frame_sum_i16(d@, ch as int, k as int, c as int),
            -32768 * c <= acc <= 32767 * c,
        decreases ch - c,
    {
        proof {
            lemma_sample_in_bounds(d@.len() as int, 2, ch as int, k as int, c as int);
        }
        let j = k * ch + c;
        let idx = j * 2;
        let lo = d[idx] as i32;
        let hi = d[idx + 1] as i32;
        let u = lo + 256 * hi;
        let s = if u >= 32768 {
            u - 65536
        } else {
            u
        };
        proof {
            lemma_sample_i16_range(d@, j as int);
        }
        assert(s == sample_i16(d@, j as int));
        acc = acc + s;
        c = c + 1;
    }
    acc
}

/// Sum of the samples of frame `k` of 8-bit unsigned audio, in an `i32`.
fn frame_sum_u8_exec(d: &[u8], channels: u16, k: usize) -> (r: i32)
    requires
        channels > 0,
        k < frame_count(d@.len() as int, 1, channels as int),
    ensures
        r == frame_sum_u8(d@, channels as int, k as int, channels as int),
        0 <= r <= 255 * channels,
{
    let ch = channels as usize;
    let n = d.len();
    let mut acc: i32 = 0;
    let mut c: usize = 0;
    while c < ch
        invariant
            ch == channels,
            n == d@.len(),
            channels > 0,
            k < frame_count(d@.len() as int, 1, channels as int),
            c <= ch,
            acc == frame_sum_u8(d@, ch as int, k as int, c as int),
            0 <= acc <= 255 * c,
        decreases ch - c,
    {
        proof {
            lemma_sample_in_bounds(d@.len() as int, 1, ch as int, k as int, c as int);
        }
        let idx = k * ch + c;
        acc = acc + d[idx] as i32;
        c = c + 1;
    }
    acc
}

/// Divides a frame sum by the channel count, rounding toward zero.
fn div_toward_zero_exec(a: i32, channels: u16) -> (r: i32)
    requires
        channels > 0,
        a > i32::MIN,
    ensures
        r == div_toward_zero(a as int, channels as int),
{
    let d = channels as i32;
    if a >= 0 {
        a / d
    } else {
        -((-a) / d)
    }
}

proof fn lemma_frame_sum_i16_bounds(d: Seq<u8>, channels: int, k: int, n: int)
    requires
        channels > 0,
        0 <= k < frame_count(d.len() as int, 2, channels),
        0 <= n <= channels,
    ensures
        -32768 * n <= frame_sum_i16(d, channels, k, n) <= 32767 * n,
    decreases n,
{
    if n > 0 {
        lemma_frame_sum_i16_bounds(d, channels, k, n - 1);
        lemma_sample_in_bounds(d.len() as int, 2, channels, k, n - 1);
        lemma_sample_i16_range(d, k * channels + n - 1);
    }
}

proof fn lemma_frame_sum_u8_bounds(d: Seq<u8>, channels: int, k: int, n: int)
    requires
        channels > 0,
        0 <= k < frame_count(d.len() as int, 1, channels),
        0 <= n <= channels,
    ensures
        0 <= frame_sum_u8(d, channels, k, n) <= 255 * n,
    decreases n,
{
    if n > 0 {
        lemma_frame_sum_u8_bounds(d, channels, k, n - 1);
        lemma_sample_in_bounds(d.len() as int, 1, channels, k, n - 1);
    }
}

/// A sum of `channels` values in `lo..=hi`, divided toward zero by `channels`,
/// stays in `lo..=hi` (for `lo <= 0 <= hi`).
proof fn lemma_mean_within(sum: int, channels: int, lo: int, hi: int)
    requires
        channels > 0,
        lo <= 0 <= hi,
        lo * channels <= sum <= hi * channels,
    ensures
        lo <= div_toward_zero(sum, channels) <= hi,
{
    if sum >= 0 {
        vstd::arithmetic::div_mod::lemma_div_is_ordered(sum, hi * channels, channels);
        vstd::arithmetic::div_mod::lemma_div_multiples_vanish(hi, channels);
        vstd::arithmetic::div_mod::lemma_div_is_ordered(0, sum, channels);
        assert(hi * channels == channels * hi) by (nonlinear_arith);
    } else {
        assert(-(lo * channels) == -lo * channels) by (nonlinear_arith);
        vstd::arithmetic::div_mod::lemma_div_is_ordered(-sum, -lo * channels, channels);
        vstd::arithmetic::div_mod::lemma_div_multiples_vanish(-lo, channels);
        vstd::arithmetic::div_mod::lemma_div_is_ordered(0, -sum, channels);
        assert(-lo * channels == channels * (-lo)) by (nonlinear_arith);
    }
}

/// The mean of a frame of 16-bit signed samples, rounded toward zero, already lies
/// in `-32768..=32767`: clamping never changes it, and every reduced sample is the
/// frame's truncated mean.
pub proof fn lemma_mean_i16_in_range(d: Seq<u8>, channels: int, k: int)
    requires
        channels > 0,
        0 <= k < frame_count(d.len() as int, 2, channels),
    ensures
        -32768 <= div_toward_zero(frame_sum_i16(d, channels, k, channels), channels) <= 32767,
        mean_i16(d, channels, k) == div_toward_zero(frame_sum_i16(d, channels, k, channels), channels),
{
    lemma_frame_sum_i16_bounds(d, channels, k, channels);
    lemma_mean_within(frame_sum_i16(d, channels, k, channels), channels, -32768, 32767);
}

/// The mean of a frame of 8-bit unsigned samples, rounded toward zero, already lies
/// in `0..=255`: clamping never changes it, and every reduced sample is the frame's
/// truncated mean.
pub proof fn lemma_mean_u8_in_range(d: Seq<u8>, channels: int, k: int)
    requires
        channels > 0,
        0 <= k < frame_count(d.len() as int, 1, channels),
    ensures
        0 <= div_toward_zero(frame_sum_u8(d, channels, k, channels), channels) <= 255,
        mean_u8(d, channels, k) == div_toward_zero(frame_sum_u8(d, channels, k, channels), channels),
{
    lemma_frame_sum_u8_bounds(d, channels, k, channels);
    lemma_mean_within(frame_sum_u8(d, channels, k, channels), channels, 0, 255);
}

/// Whole frames fit in the buffer.
proof fn lemma_whole_frames_fit(len: int, width: int, channels: int)
    requires
        width > 0,
        channels > 0,
        len >= 0,
    ensures
        0 <= frame_count(len, width, channels),
        frame_count(len, width, channels) * width <= frame_count(len, width, channels) * width * channels,
        frame_count(len, width, channels) * width * channels <= len,
{
    let f = frame_count(len, width, channels);
    assert(width * channels > 0) by (nonlinear_arith)
        requires
            width > 0,
            channels > 0,
    {
    }
    vstd::arithmetic::div_mod::lemma_fundamental_div_mod(len, width * channels);
    vstd::arithmetic::div_mod::lemma_div_is_ordered(0, len, width * channels);
    assert(f * width * channels <= len) by (nonlinear_arith)
        requires
            len == (width * channels) * f + len % (width * channels),
            len % (width * channels) >= 0,
    {
    }
    assert(f * width <= f * width * channels) by (nonlinear_arith)
        requires
            f >= 0,
            width > 0,
            channels > 0,
    {
    }
}

/// Reduces 16-bit signed audio to one channel, frame by frame.
fn reduce_i16(d: &[u8], channels: u16) -> (out: Vec<u8>)
    requires
        channels > 0,
    ensures
        is_mono_i16(out@, d@, channels as int),
{
    let ch = channels as usize;
    let frames = d.len() / (2 * ch);
    proof {
        lemma_whole_frames_fit(d@.len() as int, 2, ch as int);
    }
    let mut out: Vec<u8> = Vec::with_capacity(frames * 2);
    let mut k: usize = 0;
    while k < frames
        invariant
            ch == channels,
            channels > 0,
            frames == frame_count(d@.len() as int, 2, ch as int),
            frames * 2 <= d@.len(),
            k <= frames,
            out@.len() == 2 * k,
            forall|j: int| 0 <= j < k ==> #[trigger] sample_i16(out@, j) == mean_i16(d@, ch as int, j),
        decreases frames - k,
    {
        let acc = frame_sum_i16_exec(d, channels, k);
        let avg = div_toward_zero_exec(acc, channels);
        let clamped: i32 = if avg < -32768 {
            -32768
        } else if avg > 32767 {
            32767
        } else {
            avg
        };
        let u: u16 = if clamped < 0 {
            (clamped + 65536) as u16
        } else {
            clamped as u16
        };
        let ghost prev = out@;
        push_le16(&mut out, u);
        proof {
            crate::le::lemma_le16_round_trip(u);
            assert(out@[2 * k as int] == le16_bytes(u)[0]);
            assert(out@[2 * k + 1] == le16_bytes(u)[1]);
            assert(sample_i16(out@, k as int) == clamped);
            assert forall|j: int| 0 <= j < k + 1 implies #[trigger] sample_i16(out@, j) == mean_i16(
                d@,
                ch as int,
                j,
            ) by {
                if j < k {
                    assert(out@[2 * j] == prev[2 * j]);
                    assert(out@[2 * j + 1] == prev[2 * j + 1]);
                    assert(sample_i16(out@, j) == sample_i16(prev, j));
                }
            }
        }
        k = k + 1;
    }
    out
}

/// Reduces 8-bit unsigned audio to one channel, frame by frame.
fn reduce_u8(d: &[u8], channels: u16) -> (out: Vec<u8>)
    requires
        channels > 0,
    ensures
        is_mono_u8(out@, d@, channels as int),
{
    let ch = channels as usize;
    let frames = d.len() / ch;
    proof {
        lemma_whole_frames_fit(d@.len() as int, 1, ch as int);
    }
    let mut out: Vec<u8> = Vec::with_capacity(frames);
    let mut k: usize = 0;
    while k < frames
        invariant
            ch == channels,
            channels > 0,
            frames == frame_count(d@.len() as int, 1, ch as int),
            k <= frames,
            out@.len() == k,
            forall|j: int| 0 <= j < k ==> #[trigger] out@[j] as int == mean_u8(d@, ch as int, j),
        decreases frames - k,
    {
        let acc = frame_sum_u8_exec(d, channels, k);
        let avg = div_toward_zero_exec(acc, channels);
        let clamped: i32 = if avg < 0 {
            0
        } else if avg > 255 {
            255
        } else {
            avg
        };
        out.push(clamped as u8);
        k = k + 1;
    }
    out
}

/// Reduces audio to one channel by averaging each frame.
///
/// Mono audio passes through unchanged. 16-bit signed and 8-bit unsigned PCM give
/// one sample per whole frame: the mean of its channels, rounded toward zero and
/// clamped to the sample range. 32-bit float audio gives its whole frames, whose
/// floating-point means are left to the caller. A trailing partial frame is dropped.
pub fn downmix_to_mono(w: &WavData) -> (r: Result<Mono, WavError>)
    requires
        w.channels >= 1,
    ensures
        sample_format_of(w.format_tag, w.bits_per_sample) is None ==> r == Err::<Mono, WavError>(
            WavError::UnsupportedSampleFormat {
                format_tag: w.format_tag,
                bits_per_sample: w.bits_per_sample,
            },
        ),
        sample_format_of(w.format_tag, w.bits_per_sample) is Some && w.channels == 1 ==> (r matches Ok(
            Mono::Samples { sample_format, data },
        ) && Some(sample_format) == sample_format_of(w.format_tag, w.bits_per_sample) && data@
            == w.data@),
        sample_format_of(w.format_tag, w.bits_per_sample) == Some(SAMPLE_FORMAT_I16) && w.channels > 1
            ==> (r matches Ok(Mono::Samples { sample_format, data }) && sample_format
            == SAMPLE_FORMAT_I16 && is_mono_i16(data@, w.data@, w.channels as int)),
        sample_format_of(w.format_tag, w.bits_per_sample) == Some(SAMPLE_FORMAT_U8) && w.channels > 1
            ==> (r matches Ok(Mono::Samples { sample_format, data }) && sample_format
            == SAMPLE_FORMAT_U8 && is_mono_u8(data@, w.data@, w.channels as int)),
        sample_format_of(w.format_tag, w.bits_per_sample) == Some(SAMPLE_FORMAT_F32) && w.channels > 1
            ==> (r matches Ok(Mono::FloatFrames { channels, data }) && channels == w.channels && data@
            == whole_frames(w.data@, 4, w.channels as int)),
{
    let sample_format = if w.format_tag == WAV_FORMAT_PCM && w.bits_per_sample == 8 {
        SAMPLE_FORMAT_U8
    } else if w.format_tag == WAV_FORMAT_PCM && w.bits_per_sample == 16 {
        SAMPLE_FORMAT_I16
    } else if w.format_tag == WAV_FORMAT_IEEE_FLOAT && w.bits_per_sample == 32 {
        SAMPLE_FORMAT_F32
    } else {
        return Err(
            WavError::UnsupportedSampleFormat {
                format_tag: w.format_tag,
                bits_per_sample: w.bits_per_sample,
            },
        );
    };
    let d = w.data.as_slice();
    if w.channels == 1 {
        return Ok(Mono::Samples { sample_format, data: vstd::slice::slice_to_vec(d) });
    }
    if sample_format == SAMPLE_FORMAT_I16 {
        Ok(Mono::Samples { sample_format, data: reduce_i16(d, w.channels) })
    } else if sample_format == SAMPLE_FORMAT_U8 {
        Ok(Mono::Samples { sample_format, data: reduce_u8(d, w.channels) })
    } else {
        let ch = w.channels as usize;
        let frames = d.len() / (4 * ch);
        proof {
            lemma_whole_frames_fit(d@.len() as int, 4, ch as int);
        }
        let end = frames * 4 * ch;
        Ok(Mono::FloatFrames { channels: w.channels, data: vstd::slice::slice_to_vec(&d[0..end]) })
    }
}

} // verus!
