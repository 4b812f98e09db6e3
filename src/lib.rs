//! Audio container and signal logic for an acoustic data modem: reading and
//! writing RIFF/WAVE files, reducing multi-channel audio to mono, selecting a
//! modem protocol, and the decisions taken around the modem engine's encode and
//! decode calls.
use vstd::prelude::*;

pub mod format;
pub mod hex;
pub mod le;
pub mod modem;
pub mod mono;
pub mod protocol;
pub mod wav;

verus! {

} // verus!
