use gibberlink_tx::format::{bits_for_format, SAMPLE_FORMAT_F32, SAMPLE_FORMAT_I16, SAMPLE_FORMAT_I8, SAMPLE_FORMAT_U16, SAMPLE_FORMAT_U8};
use gibberlink_tx::le::{read_le_u16, read_le_u32};
use gibberlink_tx::wav::{encode_wav, parse_wav, WavError};

fn chunk(id: &[u8; 4], payload: &[u8]) -> Vec<u8> {
    let mut v = id.to_vec();
    v.extend_from_slice(&(payload.len() as u32).to_le_bytes());
    v.extend_from_slice(payload);
    v
}

fn fmt_payload(tag: u16, channels: u16, rate: u32, bits: u16) -> Vec<u8> {
    let mut v = Vec::new();
    v.extend_from_slice(&tag.to_le_bytes());
    v.extend_from_slice(&channels.to_le_bytes());
    v.extend_from_slice(&rate.to_le_bytes());
    v.extend_from_slice(&(rate * channels as u32 * bits as u32 / 8).to_le_bytes());
    v.extend_from_slice(&(channels * bits / 8).to_le_bytes());
    v.extend_from_slice(&bits.to_le_bytes());
    v
}

fn riff(chunks: &[Vec<u8>]) -> Vec<u8> {
    let body: Vec<u8> = chunks.concat();
    let mut v = b"RIFF".to_vec();
    v.extend_from_slice(&((body.len() + 4) as u32).to_le_bytes());
    v.extend_from_slice(b"WAVE");
    v.extend_from_slice(&body);
    v
}

#[test]
fn reads_little_endian_integers() {
    assert_eq!(read_le_u16(&[0x34, 0x12]), 0x1234);
    assert_eq!(read_le_u32(&[0x78, 0x56, 0x34, 0x12, 0xff]), 0x1234_5678);
}

#[test]
fn bits_follow_sample_format() {
    assert_eq!(bits_for_format(SAMPLE_FORMAT_I16), 16);
    assert_eq!(bits_for_format(SAMPLE_FORMAT_U8), 8);
    assert_eq!(bits_for_format(SAMPLE_FORMAT_I8), 8);
    assert_eq!(bits_for_format(SAMPLE_FORMAT_F32), 32);
    assert_eq!(bits_for_format(SAMPLE_FORMAT_U16), 16);
    assert_eq!(bits_for_format(42), 16);
}

#[test]
fn header_of_two_bytes_at_48000() {
    let out = encode_wav(48000, SAMPLE_FORMAT_I16, &[0x01, 0x02]);
    assert_eq!(out.len(), 46);
    assert_eq!(&out[0..4], b"RIFF");
    assert_eq!(&out[4..8], &38u32.to_le_bytes());
    assert_eq!(&out[8..12], b"WAVE");
    assert_eq!(&out[12..16], b"fmt ");
    assert_eq!(&out[16..20], &16u32.to_le_bytes());
    assert_eq!(&out[20..22], &1u16.to_le_bytes());
    assert_eq!(&out[22..24], &1u16.to_le_bytes());
    assert_eq!(&out[24..28], &48000u32.to_le_bytes());
    assert_eq!(&out[28..32], &96000u32.to_le_bytes());
    assert_eq!(&out[32..34], &2u16.to_le_bytes());
    assert_eq!(&out[34..36], &16u16.to_le_bytes());
    assert_eq!(&out[36..40], b"data");
    assert_eq!(&out[40..44], &2u32.to_le_bytes());
    assert_eq!(&out[44..46], &[0x01, 0x02]);
}

#[test]
fn unknown_format_is_written_as_16_bit() {
    let out = encode_wav(8000, 99, &[]);
    assert_eq!(out.len(), 44);
    assert_eq!(&out[28..32], &16000u32.to_le_bytes());
    assert_eq!(&out[34..36], &16u16.to_le_bytes());
}

#[test]
fn round_trip_of_each_supported_format() {
    for (fmt, bits) in [(SAMPLE_FORMAT_I16, 16u16), (SAMPLE_FORMAT_U8, 8), (SAMPLE_FORMAT_F32, 32)] {
        let data: Vec<u8> = (0..13u8).collect();
        let w = parse_wav(&encode_wav(22050, fmt, &data)).unwrap();
        assert_eq!(w.sample_rate, 22050);
        assert_eq!(w.channels, 1);
        assert_eq!(w.bits_per_sample, bits);
        assert_eq!(w.format_tag, 1);
        assert_eq!(w.data, data);
    }
}

#[test]
fn rifg_is_not_a_riff_file() {
    let mut bytes = encode_wav(48000, SAMPLE_FORMAT_I16, &[1, 2]);
    bytes[3] = b'G';
    assert_eq!(parse_wav(&bytes).unwrap_err(), WavError::NotARiffFile);
}

#[test]
fn wrong_form_type_is_not_a_riff_file() {
    let mut bytes = encode_wav(48000, SAMPLE_FORMAT_I16, &[1, 2]);
    bytes[8..12].copy_from_slice(b"AVI ");
    assert_eq!(parse_wav(&bytes).unwrap_err(), WavError::NotARiffFile);
}

#[test]
fn fmt_without_data_is_missing_a_chunk() {
    let bytes = riff(&[chunk(b"fmt ", &fmt_payload(1, 1, 8000, 16))]);
    assert_eq!(parse_wav(&bytes).unwrap_err(), WavError::MissingRequiredChunk);
}

#[test]
fn data_without_fmt_is_missing_a_chunk() {
    let bytes = riff(&[chunk(b"data", &[1, 2, 3, 4])]);
    assert_eq!(parse_wav(&bytes).unwrap_err(), WavError::MissingRequiredChunk);
}

#[test]
fn short_fmt_chunk_is_malformed() {
    let bytes = riff(&[chunk(b"fmt ", &[1, 0, 1, 0, 0x40, 0x1f, 0, 0]), chunk(b"data", &[0, 0])]);
    assert_eq!(parse_wav(&bytes).unwrap_err(), WavError::MalformedFmtChunk);
}

#[test]
fn short_stream_is_truncated() {
    assert_eq!(parse_wav(b"RIFF\x00\x00").unwrap_err(), WavError::Truncated);
    let mut bytes = riff(&[chunk(b"fmt ", &fmt_payload(1, 1, 8000, 16))]);
    bytes.extend_from_slice(b"data");
    bytes.extend_from_slice(&100u32.to_le_bytes());
    bytes.extend_from_slice(&[1, 2, 3]);
    assert_eq!(parse_wav(&bytes).unwrap_err(), WavError::Truncated);
}

#[test]
fn odd_chunk_is_followed_by_one_pad_byte() {
    let mut list = chunk(b"LIST", &[9, 9, 9]);
    list.push(0xAA);
    let bytes = riff(&[list, chunk(b"fmt ", &fmt_payload(1, 2, 44100, 16)), chunk(b"data", &[5, 6, 7, 8])]);
    let w = parse_wav(&bytes).unwrap();
    assert_eq!(w.channels, 2);
    assert_eq!(w.sample_rate, 44100);
    assert_eq!(w.data, vec![5, 6, 7, 8]);
}

#[test]
fn odd_data_chunk_keeps_its_declared_length() {
    let mut data = chunk(b"data", &[1, 2, 3]);
    data.push(0);
    let bytes = riff(&[chunk(b"fmt ", &fmt_payload(1, 1, 8000, 8)), data]);
    let w = parse_wav(&bytes).unwrap();
    assert_eq!(w.data, vec![1, 2, 3]);
    assert_eq!(w.bits_per_sample, 8);
}

#[test]
fn chunks_after_fmt_and_data_are_not_read() {
    let mut bytes = riff(&[
        chunk(b"data", &[4, 3, 2, 1]),
        chunk(b"fact", &[0, 0, 0, 0]),
        chunk(b"fmt ", &fmt_payload(3, 2, 16000, 32)),
    ]);
    bytes.extend_from_slice(b"junk");
    bytes.extend_from_slice(&1000u32.to_le_bytes());
    let w = parse_wav(&bytes).unwrap();
    assert_eq!(w.format_tag, 3);
    assert_eq!(w.bits_per_sample, 32);
    assert_eq!(w.data, vec![4, 3, 2, 1]);
}
