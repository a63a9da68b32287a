use vstd::prelude::*;

use crate::errors::{Failure, FrameError};
use crate::response::{answer, decode, decoded, lemma_decode_answer};
use crate::table::Table;
use crate::types::{CorrelationId, Outcome, OP_SUCCESS, outcome_view};

verus! {

/// The demultiplexer: decides, for each inbound datagram, which waiter gets
/// what. The caller owns the socket's read half and does the receiving and the
/// handing over.
pub struct Listener {}

/// What to do with one inbound datagram.
#[derive(Debug)]
pub enum Delivery<W> {
    /// Hand the outcome to this waiter, without blocking; if its consumer is
    /// gone, drop it. The waiter's entry has left the table.
    Deliver(W, Outcome),
    /// Not a frame: discard it and go on.
    Noise(FrameError),
    /// A well-formed response that nobody waits for, late or duplicate:
    /// discard it and go on.
    Unmatched(CorrelationId),
}

/// The mathematical content of a [`Delivery`].
pub enum Routing<W> {
    Deliver(W, Result<Seq<u8>, Failure>),
    Noise(FrameError),
    Unmatched(CorrelationId),
}

impl<W> View for Delivery<W> {
    type V = Routing<W>;

    open spec fn view(&self) -> Routing<W> {
        match *self {
            Delivery::Deliver(waiter, outcome) => Routing::Deliver(waiter, outcome_view(outcome)),
            Delivery::Noise(e) => Routing::Noise(e),
            Delivery::Unmatched(id) => Routing::Unmatched(id),
        }
    }
}

impl Listener {
    /// Where a datagram goes, given the table as it stands.
    pub open spec fn route<W>(table: Map<CorrelationId, W>, datagram: Seq<u8>) -> Routing<W> {
        match decoded(datagram) {
            Err(e) => Routing::Noise(e),
            Ok((id, outcome)) => if table.contains_key(id) {
                Routing::Deliver(table[id], outcome)
            } else {
                Routing::Unmatched(id)
            },
        }
    }

    /// The table once a datagram has been routed: a response retires the entry
    /// of its correlation id; nothing else changes.
    pub open spec fn retire<W>(table: Map<CorrelationId, W>, datagram: Seq<u8>) -> Map<
        CorrelationId,
        W,
    > {
        match decoded(datagram) {
            Err(_) => table,
            Ok((id, _)) => table.remove(id),
        }
    }

    /// Handles one inbound datagram.
    ///
    /// A datagram that is no frame is noise. A response takes the entry of
    /// its correlation id out of the table, lookup and removal in one step,
    /// and is owed to the waiter found there: its payload if it reports
    /// success, `CommandFailed` if not. A response without an entry is
    /// unmatched. In no case is this an error of the listener.
    pub fn listen<W>(table: &mut Table<W>, datagram: &[u8]) -> (d: Delivery<W>)
        ensures
            d@ == Self::route(old(table)@, datagram@),
            final(table)@ == Self::retire(old(table)@, datagram@),
    {
        match decode(datagram) {
            Err(e) => Delivery::Noise(e),
            Ok((id, outcome)) => match table.take(id) {
                Some(waiter) => Delivery::Deliver(waiter, outcome),
                None => {
                    assert(table@ =~= old(table)@);
                    Delivery::Unmatched(id)
                },
            },
        }
    }
}

/// No crosstalk: a response whose correlation id has no entry is delivered to
/// nobody and leaves every entry of the table as it was.
pub proof fn lemma_unmatched_is_inert<W>(table: Map<CorrelationId, W>, datagram: Seq<u8>)
    requires
        decoded(datagram) matches Ok((id, _)) && !table.contains_key(id),
    ensures
        Listener::route(table, datagram) is Unmatched,
        Listener::retire(table, datagram) == table,
{
    assert(Listener::retire(table, datagram) =~= table);
}

/// A datagram concerns one correlation id at most: whatever arrives, the
/// entries of all other ids stay as they were.
pub proof fn lemma_others_untouched<W>(
    table: Map<CorrelationId, W>,
    datagram: Seq<u8>,
    other: CorrelationId,
)
    requires
        decoded(datagram) matches Ok((id, _)) ==> id != other,
    ensures
        Listener::retire(table, datagram).contains_key(other) == table.contains_key(other),
        table.contains_key(other) ==> Listener::retire(table, datagram)[other] == table[other],
{
}

/// A peer's answer reaches the waiter of the call it answers: with `waiter`
/// registered behind `id`, the response that echoes `id` is owed to `waiter`,
/// with the payload if it reports success and `CommandFailed` if not, and
/// the entry is retired.
pub proof fn lemma_answer_reaches_waiter<W>(
    table: Map<CorrelationId, W>,
    id: CorrelationId,
    waiter: W,
    opcode: u8,
    payload: Seq<u8>,
)
    ensures
        Listener::route(table.insert(id, waiter), answer(opcode, id, payload)) == Routing::Deliver(
            waiter,
            if opcode == OP_SUCCESS {
                Ok(payload)
            } else {
                Err(Failure::CommandFailed)
            },
        ),
        Listener::retire(table.insert(id, waiter), answer(opcode, id, payload)) == table.remove(id),
{
    lemma_decode_answer(opcode, id, payload);
    assert(Listener::retire(table.insert(id, waiter), answer(opcode, id, payload)) =~= table.remove(
        id,
    ));
}

} // verus!
