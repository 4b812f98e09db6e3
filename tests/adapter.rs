use gibberlink_tx::hex::hex_dump;
use gibberlink_tx::modem::{
    check_encode_written, clamp_volume, decode_step, encode_buffer_len, DecodeStep, ModemError,
    DECODE_BUFFER_TOO_SMALL, DECODE_INITIAL_CAPACITY, DECODE_MAX_CAPACITY,
};
use gibberlink_tx::protocol::{
    parse_protocol, PROTOCOL_AUDIBLE_FAST, PROTOCOL_AUDIBLE_NORMAL, PROTOCOL_DT_FASTEST,
    PROTOCOL_MT_FAST, PROTOCOL_ULTRASOUND_NORMAL,
};

#[test]
fn protocols_are_parsed_ignoring_case() {
    assert_eq!(parse_protocol("audible:fast"), PROTOCOL_AUDIBLE_FAST);
    assert_eq!(parse_protocol("dt:fastest"), PROTOCOL_DT_FASTEST);
    assert_eq!(parse_protocol("MT:Fast"), PROTOCOL_MT_FAST);
    assert_eq!(parse_protocol("Ultrasound"), PROTOCOL_ULTRASOUND_NORMAL);
    assert_eq!(parse_protocol("audible"), PROTOCOL_AUDIBLE_NORMAL);
    for s in 0..12 {
        let family = ["audible", "ultrasound", "dt", "mt"][s / 3];
        let speed = ["normal", "fast", "fastest"][s % 3];
        assert_eq!(parse_protocol(&format!("{}:{}", family, speed)), s as i32);
    }
}

#[test]
fn unknown_protocols_fall_back_to_audible_fast() {
    for s in ["", "bogus", "audible:", "dt:slow", ":fast", "mt:fast:x", "ultrasoundnormal", "dt :fast", "é:fast"] {
        assert_eq!(parse_protocol(s), PROTOCOL_AUDIBLE_FAST, "{}", s);
    }
}

#[test]
fn encode_sizes_are_checked() {
    assert_eq!(encode_buffer_len(4096), Ok(4096));
    assert_eq!(encode_buffer_len(0), Err(ModemError::EncodeQueryFailed));
    assert_eq!(encode_buffer_len(-5), Err(ModemError::EncodeQueryFailed));
    assert_eq!(check_encode_written(10, 10), Ok(()));
    assert_eq!(check_encode_written(10, 8), Err(ModemError::EncodeSizeMismatch { expected: 10, written: 8 }));
}

#[test]
fn decode_capacity_doubles_up_to_the_ceiling() {
    let mut cap = DECODE_INITIAL_CAPACITY;
    let mut tries = 1;
    loop {
        match decode_step(cap, DECODE_BUFFER_TOO_SMALL) {
            DecodeStep::Retry { capacity } => {
                assert_eq!(capacity, cap * 2);
                assert!(capacity <= DECODE_MAX_CAPACITY);
                cap = capacity;
                tries += 1;
            }
            DecodeStep::Failed(e) => {
                assert_eq!(e, ModemError::DecodedPayloadTooLarge);
                break;
            }
            DecodeStep::Done { .. } => panic!("no payload was decoded"),
        }
    }
    assert_eq!(cap, 65536);
    assert_eq!(tries, 9);
}

#[test]
fn decode_results_are_classified() {
    assert_eq!(decode_step(256, 12), DecodeStep::Done { len: 12 });
    assert_eq!(decode_step(256, 300), DecodeStep::Done { len: 256 });
    assert_eq!(decode_step(256, 0), DecodeStep::Failed(ModemError::NoPayloadDecoded));
    assert_eq!(decode_step(256, -1), DecodeStep::Failed(ModemError::NoPayloadDecoded));
    assert_eq!(decode_step(512, -2), DecodeStep::Retry { capacity: 1024 });
}

#[test]
fn volume_is_clamped() {
    assert_eq!(clamp_volume(-3), 0);
    assert_eq!(clamp_volume(25), 25);
    assert_eq!(clamp_volume(100), 100);
    assert_eq!(clamp_volume(250), 100);
}

#[test]
fn hex_dump_is_lower_case_with_prefix() {
    assert_eq!(hex_dump(&[0xde, 0xad, 0x01, 0xf0]), b"0xdead01f0".to_vec());
    assert_eq!(hex_dump(&[]), b"0x".to_vec());
}
