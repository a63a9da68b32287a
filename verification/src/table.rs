use std::collections::HashMap;
use vstd::prelude::*;

use crate::types::CorrelationId;

verus! {

broadcast use vstd::std_specs::hash::group_hash_axioms;

/// The correlation table: which waiter stands behind each correlation id in
/// flight.
///
/// `W` is the producer end of whatever one-shot channel the caller uses; the
/// table only stores it and hands it back. An id has at most one entry.
pub struct Table<W> {
    entries: HashMap<CorrelationId, W>,
}

impl<W> View for Table<W> {
    type V = Map<CorrelationId, W>;

    closed spec fn view(&self) -> Map<CorrelationId, W> {
        self.entries@
    }
}

impl<W> Table<W> {
    /// A table without entries.
    pub fn new() -> (t: Self)
        ensures
            t@ == Map::<CorrelationId, W>::empty(),
    {
        Table { entries: HashMap::new() }
    }

    /// Puts `waiter` behind `id`. An entry already there is replaced and
    /// returned, so that dropping it closes the channel of the waiter it
    /// belonged to.
    pub fn register(&mut self, id: CorrelationId, waiter: W) -> (prev: Option<W>)
        ensures
            final(self)@ == old(self)@.insert(id, waiter),
            prev == if old(self)@.contains_key(id) {
                Some(old(self)@[id])
            } else {
                None
            },
    {
        self.entries.insert(id, waiter)
    }

    /// Looks `id` up and removes its entry in one step.
    pub fn take(&mut self, id: CorrelationId) -> (found: Option<W>)
        ensures
            final(self)@ == old(self)@.remove(id),
            found == if old(self)@.contains_key(id) {
                Some(old(self)@[id])
            } else {
                None
            },
    {
        self.entries.remove(&id)
    }

    /// Whether `id` has an entry.
    pub fn contains(&self, id: CorrelationId) -> (b: bool)
        ensures
            b == self@.contains_key(id),
    {
        self.entries.contains_key(&id)
    }

    /// How many ids have an entry.
    pub fn len(&self) -> (n: usize)
        ensures
            n == self@.len(),
    {
        self.entries.len()
    }
}

} // verus!
