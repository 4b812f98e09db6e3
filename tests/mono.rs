use gibberlink_tx::format::{SAMPLE_FORMAT_F32, SAMPLE_FORMAT_I16, SAMPLE_FORMAT_U8};
use gibberlink_tx::mono::{downmix_to_mono, Mono};
use gibberlink_tx::wav::{WavData, WavError};

fn wav(format_tag: u16, bits: u16, channels: u16, data: Vec<u8>) -> WavData {
    WavData { sample_rate: 48000, channels, bits_per_sample: bits, format_tag, data }
}

fn i16_bytes(samples: &[i16]) -> Vec<u8> {
    samples.iter().flat_map(|s| s.to_le_bytes()).collect()
}

fn samples(m: Mono) -> (i32, Vec<u8>) {
    match m {
        Mono::Samples { sample_format, data } => (sample_format, data),
        Mono::FloatFrames { .. } => panic!("expected samples"),
    }
}

#[test]
fn mono_passes_through_unchanged() {
    let data = vec![1, 2, 3, 4, 5];
    assert_eq!(samples(downmix_to_mono(&wav(1, 16, 1, data.clone())).unwrap()), (SAMPLE_FORMAT_I16, data.clone()));
    assert_eq!(samples(downmix_to_mono(&wav(1, 8, 1, data.clone())).unwrap()), (SAMPLE_FORMAT_U8, data.clone()));
    assert_eq!(samples(downmix_to_mono(&wav(3, 32, 1, data.clone())).unwrap()), (SAMPLE_FORMAT_F32, data));
}

#[test]
fn stereo_100_200_gives_150() {
    let (fmt, out) = samples(downmix_to_mono(&wav(1, 16, 2, i16_bytes(&[100, 200]))).unwrap());
    assert_eq!(fmt, SAMPLE_FORMAT_I16);
    assert_eq!(out, i16_bytes(&[150]));
}

#[test]
fn extreme_stereo_frame_rounds_toward_zero() {
    let (_, out) = samples(downmix_to_mono(&wav(1, 16, 2, i16_bytes(&[-32768, 32767]))).unwrap());
    assert_eq!(out, i16_bytes(&[0]));
    let (_, out) = samples(downmix_to_mono(&wav(1, 16, 2, i16_bytes(&[-3, 0, -32768, -32768, 32767, 32767]))).unwrap());
    assert_eq!(out, i16_bytes(&[-1, -32768, 32767]));
}

#[test]
fn three_channels_and_a_partial_frame() {
    let (_, out) = samples(downmix_to_mono(&wav(1, 16, 3, {
        let mut d = i16_bytes(&[1, 2, 4, -7, -7, -8, 5]);
        d.push(9);
        d
    }))
    .unwrap());
    assert_eq!(out, i16_bytes(&[2, -7]));
}

#[test]
fn eight_bit_frames_average_and_stay_in_range() {
    let (fmt, out) = samples(downmix_to_mono(&wav(1, 8, 2, vec![0, 255, 255, 255, 10, 13, 7])).unwrap());
    assert_eq!(fmt, SAMPLE_FORMAT_U8);
    assert_eq!(out, vec![127, 255, 11]);
}

#[test]
fn float_frames_are_cut_to_whole_frames() {
    let mut data: Vec<u8> = [1.0f32, 3.0, -2.0, 4.0].iter().flat_map(|f| f.to_le_bytes()).collect();
    data.extend_from_slice(&[1, 2, 3]);
    match downmix_to_mono(&wav(3, 32, 2, data.clone())).unwrap() {
        Mono::FloatFrames { channels, data: frames } => {
            assert_eq!(channels, 2);
            assert_eq!(frames, data[0..16].to_vec());
        }
        Mono::Samples { .. } => panic!("expected float frames"),
    }
}

#[test]
fn unsupported_formats_are_refused() {
    for (tag, bits, ch) in [(1u16, 24u16, 2u16), (3, 64, 1), (2, 16, 1), (1, 32, 2)] {
        assert_eq!(
            downmix_to_mono(&wav(tag, bits, ch, vec![0; 12])).unwrap_err(),
            WavError::UnsupportedSampleFormat { format_tag: tag, bits_per_sample: bits }
        );
    }
}
