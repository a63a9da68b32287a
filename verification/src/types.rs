use vstd::prelude::*;

use crate::errors::Failure;

verus! {

/// An opaque run of bytes: a key, a value, a payload or a whole frame.
pub type Bytes = Vec<u8>;

/// The 128-bit identifier that ties a request frame to its response frame.
/// On the wire it takes sixteen bytes, most significant first.
pub type CorrelationId = u128;

/// What a call ends with: the payload of a successful response, or the reason
/// there is none.
pub type Outcome = Result<Bytes, Failure>;

/// The largest datagram the transport carries.
pub const BUF_SIZE: usize = 65536;

/// Bytes of a correlation id on the wire.
pub const UUID_LEN: usize = 16;

/// Bytes of a frame header: one opcode byte and the correlation id.
pub const HEADER_LEN: usize = 17;

/// Bytes of the key length prefix in a request frame.
pub const PREFIX_LEN: usize = 2;

/// The longest key whose length the prefix can hold.
pub const MAX_KEY_LEN: usize = 65535;

/// Request opcode: is the peer there?
pub const OP_PING: u8 = 0x01;

/// Request opcode: read the value stored under a key.
pub const OP_GET: u8 = 0x02;

/// Request opcode: store a value under a key.
pub const OP_SET: u8 = 0x03;

/// Request opcode: forget a key.
pub const OP_UNSET: u8 = 0x04;

/// Response opcode: the command succeeded; the payload follows the header.
pub const OP_SUCCESS: u8 = 0x01;

/// Response opcode: the command failed.
pub const OP_FAILURE: u8 = 0x02;

/// The mathematical content of an [`Outcome`].
pub open spec fn outcome_view(o: Outcome) -> Result<Seq<u8>, Failure> {
    match o {
        Ok(payload) => Ok(payload@),
        Err(failure) => Err(failure),
    }
}

} // verus!
