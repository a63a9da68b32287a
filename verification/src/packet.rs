use vstd::prelude::*;
use vstd::slice::slice_to_vec;

use crate::listener::{Listener, Routing};
use crate::response::decoded;
use crate::table::Table;
use crate::types::{Bytes, CorrelationId};

verus! {

/// An encoded request, ready to send: the frame and the correlation id that
/// the frame carries.
#[derive(Clone, Debug, PartialEq, Eq)]
pub struct Packet {
    /// The frame, one datagram's worth of bytes.
    pub cont: Bytes,
    /// The correlation id written into the frame.
    pub uuid: CorrelationId,
}

impl Packet {
    /// Opens one attempt at delivery: puts `waiter` behind this packet's
    /// correlation id, in place of the waiter of an earlier attempt if one is
    /// still there, and returns a copy of the frame for the outbound queue.
    ///
    /// The superseded waiter is dropped, which closes its channel.
    pub fn dispatch<W>(&self, table: &mut Table<W>, waiter: W) -> (frame: Bytes)
        ensures
            final(table)@ == old(table)@.insert(self.uuid, waiter),
            frame@ == self.cont@,
    {
        let _ = table.register(self.uuid, waiter);
        slice_to_vec(self.cont.as_slice())
    }
}

/// Late arrival: when a second attempt has put its waiter behind the id of
/// the first, a response to that id, whichever attempt it answers, is owed
/// to the second waiter with the outcome it carries. It retires the entry, so
/// a further copy of the response reaches nobody.
pub proof fn lemma_late_response<W>(
    table: Map<CorrelationId, W>,
    id: CorrelationId,
    first: W,
    second: W,
    response: Seq<u8>,
)
    requires
        decoded(response) matches Ok((got, _)) && got == id,
    ensures
        ({
            let retried = table.insert(id, first).insert(id, second);
            let settled = Listener::retire(retried, response);
            &&& Listener::route(retried, response) == Routing::Deliver(
                second,
                decoded(response)->Ok_0.1,
            )
            &&& !settled.contains_key(id)
            &&& Listener::route(settled, response) == Routing::<W>::Unmatched(id)
            &&& settled == table.remove(id)
        }),
{
    let retried = table.insert(id, first).insert(id, second);
    assert(Listener::retire(retried, response) =~= table.remove(id));
}

} // verus!
