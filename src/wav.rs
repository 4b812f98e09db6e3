use vstd::prelude::*;
use crate::format::{spec_bits_for_format, bits_for_format, WAV_FORMAT_PCM};
use crate::le::{le16_at, le32_at, le16_bytes, le32_bytes, push_le16, push_le32, read_le_u16, read_le_u32};

verus! {

/// Why a byte stream could not be read as audio.
#[derive(Debug, Clone, Copy, PartialEq, Eq, Structural)]
pub enum WavError {
    /// The stream does not start with a `RIFF` ... `WAVE` header.
    NotARiffFile,
    /// The `fmt ` chunk is shorter than 16 bytes.
    MalformedFmtChunk,
    /// The stream ended before both a `fmt ` and a `data` chunk were seen.
    MissingRequiredChunk,
    /// The stream ended inside the 12-byte header or inside a chunk's payload.
    Truncated,
    /// The encoding and bit depth are not ones that can be reduced to mono.
    UnsupportedSampleFormat { format_tag: u16, bits_per_sample: u16 },
}

/// The fields that are read from a `fmt ` chunk.
#[derive(Debug, Clone, Copy, PartialEq, Eq, Structural)]
pub struct FmtChunk {
    pub format_tag: u16,
    pub channels: u16,
    pub sample_rate: u32,
    pub bits_per_sample: u16,
}

/// Decoded audio: format fields and the raw interleaved sample bytes.
#[derive(Debug)]
pub struct WavData {
    pub sample_rate: u32,
    pub channels: u16,
    pub bits_per_sample: u16,
    /// 1 for integer PCM, 3 for IEEE float.
    pub format_tag: u16,
    pub data: Vec<u8>,
}

impl WavData {
    pub open spec fn fmt_chunk(&self) -> FmtChunk {
        FmtChunk {
            format_tag: self.format_tag,
            channels: self.channels,
            sample_rate: self.sample_rate,
            bits_per_sample: self.bits_per_sample,
        }
    }
}

pub open spec fn riff_tag() -> Seq<u8> {
    seq![82u8, 73u8, 70u8, 70u8]
}

pub open spec fn wave_tag() -> Seq<u8> {
    seq![87u8, 65u8, 86u8, 69u8]
}

pub open spec fn fmt_tag() -> Seq<u8> {
    seq![102u8, 109u8, 116u8, 32u8]
}

pub open spec fn data_tag() -> Seq<u8> {
    seq![100u8, 97u8, 116u8, 97u8]
}

/// The fields of a `fmt ` chunk whose payload starts at `start`.
pub open spec fn fmt_fields(b: Seq<u8>, start: int) -> FmtChunk {
    FmtChunk {
        format_tag: le16_at(b, start),
        channels: le16_at(b, start + 2),
        sample_rate: le32_at(b, start + 4),
        bits_per_sample: le16_at(b, start + 14),
    }
}

/// Where the chunk at `pos`, of payload length `len`, is followed by the next one:
/// after its payload, and after one pad byte when `len` is odd and a byte is left.
pub open spec fn next_chunk(b: Seq<u8>, pos: int, len: int) -> int {
    let end = pos + 8 + len;
    if len % 2 == 1 && end < b.len() {
        end + 1
    } else {
        end
    }
}

/// Scans the chunks from `pos` on, given the `fmt ` fields and `data` payload seen so far.
/// Scanning stops once both were seen, or when fewer than 8 bytes are left.
pub open spec fn scan_chunks(
    b: Seq<u8>,
    pos: int,
    fmt: Option<FmtChunk>,
    data: Option<Seq<u8>>,
) -> Result<(FmtChunk, Seq<u8>), WavError>
    decreases b.len() - pos,
{
    if fmt is Some && data is Some {
        Ok((fmt->0, data->0))
    } else if pos + 8 > b.len() {
        Err(WavError::MissingRequiredChunk)
    } else {
        let len = le32_at(b, pos + 4) as int;
        let start = pos + 8;
        if start + len > b.len() {
            Err(WavError::Truncated)
        } else {
            let id = b.subrange(pos, pos + 4);
            let next = next_chunk(b, pos, len);
            if id == fmt_tag() {
                if len < 16 {
                    Err(WavError::MalformedFmtChunk)
                } else {
                    scan_chunks(b, next, Some(fmt_fields(b, start)), data)
                }
            } else if id == data_tag() {
                scan_chunks(b, next, fmt, Some(b.subrange(start, start + len)))
            } else {
                scan_chunks(b, next, fmt, data)
            }
        }
    }
}

/// What a RIFF/WAVE byte stream decodes to: the `fmt ` fields and the `data` payload.
pub open spec fn wav_of(b: Seq<u8>) -> Result<(FmtChunk, Seq<u8>), WavError> {
    if b.len() < 12 {
        Err(WavError::Truncated)
    } else if b.subrange(0, 4) != riff_tag() || b.subrange(8, 12) != wave_tag() {
        Err(WavError::NotARiffFile)
    } else {
        scan_chunks(b, 12, None, None)
    }
}

pub open spec fn bytes_of(o: Option<Vec<u8>>) -> Option<Seq<u8>> {
    match o {
        Some(v) => Some(v@),
        None => None,
    }
}

/// Whether the four bytes at `at` are `t0 t1 t2 t3`.
fn has_tag(b: &[u8], at: usize, t0: u8, t1: u8, t2: u8, t3: u8) -> (r: bool)
    requires
        at + 4 <= b@.len(),
    ensures
        r == (b@.subrange(at as int, at + 4) == seq![t0, t1, t2, t3]),
{
    let r = b[at] == t0 && b[at + 1] == t1 && b[at + 2] == t2 && b[at + 3] == t3;
    if r {
        assert(b@.subrange(at as int, at + 4) =~= seq![t0, t1, t2, t3]);
    } else {
        assert(b@.subrange(at as int, at + 4)[0] != t0 || b@.subrange(at as int, at + 4)[1] != t1
            || b@.subrange(at as int, at + 4)[2] != t2 || b@.subrange(at as int, at + 4)[3] != t3);
    }
    r
}

/// Reads a RIFF/WAVE byte stream into its format fields and sample bytes.
pub fn parse_wav(bytes: &[u8]) -> (r: Result<WavData, WavError>)
    ensures
        match wav_of(bytes@) {
            Ok((f, d)) => r matches Ok(w) && w.fmt_chunk() == f && w.data@ == d,
            Err(e) => r == Err::<WavData, WavError>(e),
        },
{
    let n = bytes.len();
    if n < 12 {
        return Err(WavError::Truncated);
    }
    if !has_tag(bytes, 0, 82, 73, 70, 70) || !has_tag(bytes, 8, 87, 65, 86, 69) {
        return Err(WavError::NotARiffFile);
    }
    let mut pos: usize = 12;
    let mut fmt: Option<FmtChunk> = None;
    let mut data: Option<Vec<u8>> = None;
    while !(fmt.is_some() && data.is_some()) && n - pos >= 8
        invariant
            n == bytes@.len(),
            12 <= pos <= n,
            wav_of(bytes@) == scan_chunks(bytes@, pos as int, fmt, bytes_of(data)),
        decreases n - pos,
    {
        let len = read_le_u32(&bytes[pos + 4..pos + 8]) as usize;
        assert(bytes@.subrange(pos + 4, pos + 8 as int) =~= bytes@.subrange(pos + 4, pos + 8 as int));
        assert(le32_at(bytes@.subrange(pos + 4, pos + 8 as int), 0) == le32_at(bytes@, pos + 4));
        let start = pos + 8;
        if len > n - start {
            return Err(WavError::Truncated);
        }
        let end = start + len;
        let next = if len % 2 == 1 && end < n {
            end + 1
        } else {
            end
        };
        if has_tag(bytes, pos, 102, 109, 116, 32) {
            if len < 16 {
                return Err(WavError::MalformedFmtChunk);
            }
            let chunk = &bytes[start..end];
            let f = FmtChunk {
                format_tag: read_le_u16(&chunk[0..2]),
                channels: read_le_u16(&chunk[2..4]),
                sample_rate: read_le_u32(&chunk[4..8]),
                bits_per_sample: read_le_u16(&chunk[14..16]),
            };
            assert(f == fmt_fields(bytes@, start as int));
            fmt = Some(f);
        } else if has_tag(bytes, pos, 100, 97, 116, 97) {
            data = Some(vstd::slice::slice_to_vec(&bytes[start..end]));
        }
        pos = next;
    }
    match (fmt, data) {
        (Some(f), Some(d)) => Ok(
            WavData {
                sample_rate: f.sample_rate,
                channels: f.channels,
                bits_per_sample: f.bits_per_sample,
                format_tag: f.format_tag,
                data: d,
            },
        ),
        _ => Err(WavError::MissingRequiredChunk),
    }
}

/// The 44-byte header of a mono PCM file holding `data_len` bytes of samples.
pub open spec fn wav_header(sample_rate: u32, sample_format: i32, data_len: u32) -> Seq<u8> {
    let bits = spec_bits_for_format(sample_format);
    let block_align = (bits / 8) as u16;
    let byte_rate = (sample_rate * (bits / 8)) as u32;
    riff_tag() + le32_bytes((36 + data_len) as u32) + wave_tag() + fmt_tag() + le32_bytes(16)
        + le16_bytes(1) + le16_bytes(1) + le32_bytes(sample_rate) + le32_bytes(byte_rate)
        + le16_bytes(block_align) + le16_bytes(bits) + data_tag() + le32_bytes(data_len)
}

/// The bytes of a mono PCM RIFF/WAVE file holding `data`.
pub open spec fn wav_image(sample_rate: u32, sample_format: i32, data: Seq<u8>) -> Seq<u8> {
    wav_header(sample_rate, sample_format, data.len() as u32) + data
}

/// What a writer may be given: a payload whose size fits the header's 32-bit
/// fields, and a byte rate that fits 32 bits.
pub open spec fn writable(sample_rate: u32, sample_format: i32, data_len: int) -> bool {
    &&& data_len + 36 <= u32::MAX
    &&& sample_rate * (spec_bits_for_format(sample_format) / 8) <= u32::MAX
}

fn push_tag(out: &mut Vec<u8>, t0: u8, t1: u8, t2: u8, t3: u8)
    ensures
        final(out)@ == old(out)@ + seq![t0, t1, t2, t3],
{
    out.push(t0);
    out.push(t1);
    out.push(t2);
    out.push(t3);
    assert(final(out)@ =~= old(out)@ + seq![t0, t1, t2, t3]);
}

/// Serialises mono samples of the given sample format as a canonical PCM RIFF/WAVE file.
pub fn encode_wav(sample_rate: u32, sample_format: i32, data: &[u8]) -> (r: Vec<u8>)
    requires
        writable(sample_rate, sample_format, data@.len() as int),
    ensures
        r@ == wav_image(sample_rate, sample_format, data@),
{
    let num_channels: u16 = 1;
    let bits_per_sample = bits_for_format(sample_format);
    let byte_rate: u32 = sample_rate * (bits_per_sample as u32 / 8);
    let block_align: u16 = num_channels * (bits_per_sample / 8);
    let data_len = data.len() as u32;
    let mut out: Vec<u8> = Vec::new();
    push_tag(&mut out, 82, 73, 70, 70);
    push_le32(&mut out, 36 + data_len);
    push_tag(&mut out, 87, 65, 86, 69);
    push_tag(&mut out, 102, 109, 116, 32);
    push_le32(&mut out, 16);
    push_le16(&mut out, WAV_FORMAT_PCM);
    push_le16(&mut out, num_channels);
    push_le32(&mut out, sample_rate);
    push_le32(&mut out, byte_rate);
    push_le16(&mut out, block_align);
    push_le16(&mut out, bits_per_sample);
    push_tag(&mut out, 100, 97, 116, 97);
    push_le32(&mut out, data_len);
    assert(out@ =~= wav_header(sample_rate, sample_format, data_len));
    out.extend_from_slice(data);
    out
}

/// The little-endian value of four bytes read inside a longer sequence.
proof fn lemma_le32_in(b: Seq<u8>, i: int, v: u32)
    requires
        0 <= i,
        i + 4 <= b.len(),
        b.subrange(i, i + 4) == le32_bytes(v),
    ensures
        le32_at(b, i) == v,
{
    crate::le::lemma_le32_round_trip(v);
    assert(b[i] == b.subrange(i, i + 4)[0]);
    assert(b[i + 1] == b.subrange(i, i + 4)[1]);
    assert(b[i + 2] == b.subrange(i, i + 4)[2]);
    assert(b[i + 3] == b.subrange(i, i + 4)[3]);
}

/// The little-endian value of two bytes read inside a longer sequence.
proof fn lemma_le16_in(b: Seq<u8>, i: int, v: u16)
    requires
        0 <= i,
        i + 2 <= b.len(),
        b.subrange(i, i + 2) == le16_bytes(v),
    ensures
        le16_at(b, i) == v,
{
    crate::le::lemma_le16_round_trip(v);
    assert(b[i] == b.subrange(i, i + 2)[0]);
    assert(b[i + 1] == b.subrange(i, i + 2)[1]);
}

/// Reading back what the writer produced gives one channel of PCM at the same
/// sample rate, the bit depth of the sample format, and the same sample bytes.
pub proof fn lemma_wav_round_trip(sample_rate: u32, sample_format: i32, data: Seq<u8>)
    requires
        writable(sample_rate, sample_format, data.len() as int),
    ensures
        wav_of(wav_image(sample_rate, sample_format, data)) == Ok::<(FmtChunk, Seq<u8>), WavError>(
            (
                FmtChunk {
                    format_tag: WAV_FORMAT_PCM,
                    channels: 1,
                    sample_rate,
                    bits_per_sample: spec_bits_for_format(sample_format),
                },
                data,
            ),
        ),
{
    let bits = spec_bits_for_format(sample_format);
    let len = data.len() as u32;
    let b = wav_image(sample_rate, sample_format, data);
    let h = wav_header(sample_rate, sample_format, len);
    assert(h.len() == 44);
    assert(b.len() == 44 + data.len());
    assert(b.subrange(0, 4) =~= riff_tag());
    assert(b.subrange(8, 12) =~= wave_tag());
    assert(b.subrange(12, 16) =~= fmt_tag());
    assert(b.subrange(16, 20) =~= le32_bytes(16));
    lemma_le32_in(b, 16, 16);
    assert(b.subrange(20, 22) =~= le16_bytes(1));
    lemma_le16_in(b, 20, 1);
    assert(b.subrange(22, 24) =~= le16_bytes(1));
    lemma_le16_in(b, 22, 1);
    assert(b.subrange(24, 28) =~= le32_bytes(sample_rate));
    lemma_le32_in(b, 24, sample_rate);
    assert(b.subrange(34, 36) =~= le16_bytes(bits));
    lemma_le16_in(b, 34, bits);
    assert(b.subrange(36, 40) =~= data_tag());
    assert(b.subrange(40, 44) =~= le32_bytes(len));
    lemma_le32_in(b, 40, len);
    assert(b.subrange(44, 44 + len) =~= data);
    let f = fmt_fields(b, 20);
    assert(next_chunk(b, 12, 16) == 36);
    assert(next_chunk(b, 36, len as int) == b.len());
    assert(scan_chunks(b, b.len() as int, Some(f), Some(data)) == Ok::<(FmtChunk, Seq<u8>), WavError>((f, data)));
    assert(scan_chunks(b, 36, Some(f), None) == scan_chunks(b, b.len() as int, Some(f), Some(data)));
    assert(scan_chunks(b, 12, None, None) == scan_chunks(b, 36, Some(f), None));
}

/// A chunk other than `fmt ` whose declared length is odd is followed by exactly
/// one pad byte: the next chunk header is read one byte past its payload. A `data`
/// chunk's payload is its declared length, without the pad byte.
pub proof fn lemma_odd_chunk_padding(
    b: Seq<u8>,
    pos: int,
    fmt: Option<FmtChunk>,
    data: Option<Seq<u8>>,
)
    requires
        0 <= pos,
        pos + 8 <= b.len(),
        !(fmt is Some && data is Some),
        le32_at(b, pos + 4) % 2 == 1,
        pos + 8 + le32_at(b, pos + 4) < b.len(),
        b.subrange(pos, pos + 4) != fmt_tag(),
    ensures
        ({
            let len = le32_at(b, pos + 4) as int;
            let payload = b.subrange(pos + 8, pos + 8 + len);
            scan_chunks(b, pos, fmt, data) == scan_chunks(
                b,
                pos + 8 + len + 1,
                fmt,
                if b.subrange(pos, pos + 4) == data_tag() {
                    Some(payload)
                } else {
                    data
                },
            )
        }),
{
}

} // verus!
