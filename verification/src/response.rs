use vstd::prelude::*;
use vstd::slice::{slice_subrange, slice_to_vec};

use crate::errors::{Failure, FrameError};
use crate::ident::from_slice;
use crate::request::Command;
use crate::types::{CorrelationId, Outcome, HEADER_LEN, OP_SUCCESS, UUID_LEN, outcome_view};
use crate::wire::{be_bytes, be_value, lemma_be_bytes_len, lemma_span_values, lemma_value_of_bytes};

verus! {

/// What a run of bytes says when read as a response frame.
///
/// Fewer than seventeen bytes are no frame. Otherwise bytes 1 to 16 are the
/// correlation id, and the first byte tells success, with everything after
/// the header as payload, from failure, for which any other value stands.
pub open spec fn decoded(b: Seq<u8>) -> Result<
    (CorrelationId, Result<Seq<u8>, Failure>),
    FrameError,
> {
    if b.len() < HEADER_LEN {
        Err(FrameError::Truncated)
    } else {
        let id = be_value(b.subrange(1, HEADER_LEN as int)) as CorrelationId;
        if b[0] == OP_SUCCESS {
            Ok((id, Ok(b.subrange(HEADER_LEN as int, b.len() as int))))
        } else {
            Ok((id, Err(Failure::CommandFailed)))
        }
    }
}

/// The mathematical content of what [`decode`] returns.
pub open spec fn decode_view(r: Result<(CorrelationId, Outcome), FrameError>) -> Result<
    (CorrelationId, Result<Seq<u8>, Failure>),
    FrameError,
> {
    match r {
        Ok((id, outcome)) => Ok((id, outcome_view(outcome))),
        Err(e) => Err(e),
    }
}

/// Reads an inbound datagram as a response frame.
///
/// Returns `Truncated` exactly when the datagram is shorter than the
/// seventeen-byte header. `Malformed` is what a rejected id field maps to; a
/// field of sixteen bytes is never rejected, so every datagram that holds a
/// header decodes.
pub fn decode(bytes: &[u8]) -> (r: Result<(CorrelationId, Outcome), FrameError>)
    ensures
        decode_view(r) == decoded(bytes@),
{
    let n = bytes.len();
    if n < HEADER_LEN {
        return Err(FrameError::Truncated);
    }
    let id = match from_slice(slice_subrange(bytes, 1, HEADER_LEN)) {
        Ok(id) => id,
        Err(_) => {
            return Err(FrameError::Malformed);
        },
    };
    if bytes[0] == OP_SUCCESS {
        Ok((id, Ok(slice_to_vec(slice_subrange(bytes, HEADER_LEN, n)))))
    } else {
        Ok((id, Err(Failure::CommandFailed)))
    }
}

/// The response frame that a peer builds: the opcode, the correlation id of
/// the request it answers in sixteen bytes, and the payload.
pub open spec fn answer(opcode: u8, id: CorrelationId, payload: Seq<u8>) -> Seq<u8> {
    seq![opcode] + be_bytes(id as nat, UUID_LEN as nat) + payload
}

/// Decoding undoes what the peer built: a response frame shows the id it
/// echoes, and its payload if it reports success, `CommandFailed` if not.
pub proof fn lemma_decode_answer(opcode: u8, id: CorrelationId, payload: Seq<u8>)
    ensures
        decoded(answer(opcode, id, payload)) == Ok::<
            (CorrelationId, Result<Seq<u8>, Failure>),
            FrameError,
        >(
            (
                id,
                if opcode == OP_SUCCESS {
                    Ok(payload)
                } else {
                    Err(Failure::CommandFailed)
                },
            ),
        ),
{
    let f = answer(opcode, id, payload);
    lemma_span_values();
    lemma_be_bytes_len(id as nat, UUID_LEN as nat);
    lemma_value_of_bytes(id as nat, UUID_LEN as nat);
    assert(f.subrange(1, HEADER_LEN as int) =~= be_bytes(id as nat, UUID_LEN as nat));
    assert(f.subrange(HEADER_LEN as int, f.len() as int) =~= payload);
}

/// A request frame and its response share the header: read as a response,
/// the frame of any command shows the correlation id it was encoded under.
pub proof fn lemma_decode_frame_id(c: Command, id: CorrelationId)
    ensures
        decoded(c.frame(id)) matches Ok((got, _)) && got == id,
{
    assert(c.frame(id) =~= answer(c.opcode(), id, c.body()));
    lemma_decode_answer(c.opcode(), id, c.body());
}

} // verus!
