use vstd::prelude::*;

verus! {

/// Failures of an encode or decode call on the modem engine.
#[derive(Debug, Clone, Copy, PartialEq, Eq, Structural)]
pub enum ModemError {
    /// The engine could not be initialised.
    InitFailed,
    /// The size query of an encode returned no positive length.
    EncodeQueryFailed,
    /// An encode wrote another number of bytes than its size query announced.
    EncodeSizeMismatch { expected: i32, written: i32 },
    /// No payload was found in the samples.
    NoPayloadDecoded,
    /// The payload did not fit in the largest output buffer allowed.
    DecodedPayloadTooLarge,
}

/// Output capacity of the first decode attempt.
pub const DECODE_INITIAL_CAPACITY: usize = 256;
/// Largest output capacity a decode is retried with.
pub const DECODE_MAX_CAPACITY: usize = 65536;
/// What the engine's decode returns when the output buffer is too small.
pub const DECODE_BUFFER_TOO_SMALL: i32 = -2;

/// The buffer length for an encode, from the result of its size query.
pub fn encode_buffer_len(query: i32) -> (r: Result<usize, ModemError>)
    ensures
        query > 0 ==> r == Ok::<usize, ModemError>(query as usize),
        query <= 0 ==> r == Err::<usize, ModemError>(ModemError::EncodeQueryFailed),
{
    if query <= 0 {
        Err(ModemError::EncodeQueryFailed)
    } else {
        Ok(query as usize)
    }
}

/// Checks that an encode wrote as many bytes as its size query announced.
pub fn check_encode_written(expected: i32, written: i32) -> (r: Result<(), ModemError>)
    ensures
        written == expected ==> r is Ok,
        written != expected ==> r == Err::<(), ModemError>(
            ModemError::EncodeSizeMismatch { expected, written },
        ),
{
    if written != expected {
        Err(ModemError::EncodeSizeMismatch { expected, written })
    } else {
        Ok(())
    }
}

/// What to do after one decode attempt.
#[derive(Debug, Clone, Copy, PartialEq, Eq, Structural)]
pub enum DecodeStep {
    /// Decode again into a buffer of this capacity.
    Retry { capacity: usize },
    /// The payload is the first `len` bytes of the output buffer.
    Done { len: usize },
    /// Stop with this error.
    Failed(ModemError),
}

/// Decides the next step from the capacity of the buffer that was decoded into and
/// the engine's result: a too-small buffer is doubled up to the largest capacity
/// allowed, a positive result is the payload length (at most the capacity), and
/// any other result means that no payload was found.
pub fn decode_step(capacity: usize, result: i32) -> (r: DecodeStep)
    requires
        capacity <= DECODE_MAX_CAPACITY,
    ensures
        result == DECODE_BUFFER_TOO_SMALL && 2 * capacity <= DECODE_MAX_CAPACITY ==> r
            == (DecodeStep::Retry { capacity: (2 * capacity) as usize }),
        result == DECODE_BUFFER_TOO_SMALL && 2 * capacity > DECODE_MAX_CAPACITY ==> r
            == DecodeStep::Failed(ModemError::DecodedPayloadTooLarge),
        result != DECODE_BUFFER_TOO_SMALL && result <= 0 ==> r == DecodeStep::Failed(
            ModemError::NoPayloadDecoded,
        ),
        result > 0 && result <= capacity ==> r == (DecodeStep::Done { len: result as usize }),
        result > 0 && result > capacity ==> r == (DecodeStep::Done { len: capacity }),
{
    if result == DECODE_BUFFER_TOO_SMALL {
        let doubled = capacity * 2;
        if doubled > DECODE_MAX_CAPACITY {
            DecodeStep::Failed(ModemError::DecodedPayloadTooLarge)
        } else {
            DecodeStep::Retry { capacity: doubled }
        }
    } else if result <= 0 {
        DecodeStep::Failed(ModemError::NoPayloadDecoded)
    } else if result as usize > capacity {
        DecodeStep::Done { len: capacity }
    } else {
        DecodeStep::Done { len: result as usize }
    }
}

/// The transmit volume: `volume` clamped to `0..=100`.
pub fn clamp_volume(volume: i32) -> (r: i32)
    ensures
        volume < 0 ==> r == 0,
        volume > 100 ==> r == 100,
        0 <= volume <= 100 ==> r == volume,
{
    if volume < 0 {
        0
    } else if volume > 100 {
        100
    } else {
        volume
    }
}

} // verus!
