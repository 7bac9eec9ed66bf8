//! The operations of the store on the events table.

use crate::chains::ChainId;
use crate::contracts::{lowercase, to_lowercase};
use crate::events::{
    conflicts, emitted_in, event_views, has_conflict, id_not_in, insert_all, insert_one,
    lemma_filter_keeps_events_wf, survives_reorg, Event,
};
use crate::repos::{Store, StoreView};
use vstd::prelude::*;

verus! {

/// Whether `id` is one of `ids`.
fn contains_id(ids: &Vec<u128>, id: u128) -> (found: bool)
    ensures
        found == ids@.contains(id),
{
    let mut i: usize = 0;
    while i < ids.len()
        invariant
            i <= ids.len(),
            forall|j: int| 0 <= j < i ==> ids@[j] != id,
        decreases ids.len() - i,
    {
        if ids[i] == id {
            return true;
        }
        i += 1;
    }
    false
}

impl Store {
    /// Whether a stored event keeps `event` out.
    fn has_conflicting_event(&self, event: &Event) -> (found: bool)
        ensures
            found == has_conflict(self@.events, event@),
    {
        let mut i: usize = 0;
        while i < self.events.len()
            invariant
                i <= self.events.len(),
                forall|j: int| 0 <= j < i ==> !conflicts(#[trigger] self@.events[j], event@),
            decreases self.events.len() - i,
        {
            let stored = &self.events[i];
            if stored.id == event.id || (stored.transaction_hash == event.transaction_hash
                && stored.log_index == event.log_index && stored.chain_id == event.chain_id) {
                assert(conflicts(self@.events[i as int], event@));
                return true;
            }
            i += 1;
        }
        false
    }

    /// Appends the events of a batch, first to last. An event that shares
    /// its id, or its transaction hash, log index and chain, with a stored
    /// one is dropped.
    pub fn create_events(&mut self, events: &Vec<Event>)
        requires
            old(self).wf(),
        ensures
            final(self).wf(),
            final(self)@ == (StoreView {
                events: insert_all(old(self)@.events, event_views(events@)),
                ..old(self)@
            }),
    {
        let ghost batch = event_views(events@);
        let mut i: usize = 0;
        while i < events.len()
            invariant
                i <= events.len(),
                batch == event_views(events@),
                self.wf(),
                self@ == (StoreView {
                    events: insert_all(old(self)@.events, batch.take(i as int)),
                    ..old(self)@
                }),
            decreases events.len() - i,
        {
            proof {
                assert(batch.take(i + 1).drop_last() =~= batch.take(i as int));
            }
            if !self.has_conflicting_event(&events[i]) {
                let ghost before = self@.events;
                self.events.push(events[i].clone());
                assert(self@.events =~= insert_one(before, batch[i as int]));
            }
            i += 1;
        }
        proof {
            assert(batch.take(i as int) =~= batch);
        }
    }

    /// Every stored event, in insertion order.
    pub fn get_all_events(&self) -> (events: Vec<Event>)
        ensures
            event_views(events@) == self@.events,
    {
        let mut events: Vec<Event> = Vec::new();
        let mut i: usize = 0;
        while i < self.events.len()
            invariant
                i <= self.events.len(),
                events.len() == i,
                event_views(events@) == self@.events.take(i as int),
            decreases self.events.len() - i,
        {
            events.push(self.events[i].clone());
            i += 1;
        }
        events
    }

    /// The stored events of the contract at `address` in the blocks `from`
    /// to `to`, both included, in insertion order. The address is matched
    /// case-folded.
    pub fn get_events(&self, address: &str, from: u64, to: u64) -> (events: Vec<Event>)
        ensures
            event_views(events@) == self@.events.filter(emitted_in(lowercase(address@), from, to)),
    {
        let address = to_lowercase(address);
        let ghost wanted = emitted_in(address@, from, to);
        let mut events: Vec<Event> = Vec::new();
        let mut i: usize = 0;
        while i < self.events.len()
            invariant
                i <= self.events.len(),
                wanted == emitted_in(address@, from, to),
                event_views(events@) == self@.events.take(i as int).filter(wanted),
            decreases self.events.len() - i,
        {
            let stored = &self.events[i];
            proof {
                reveal(Seq::filter);
                assert(self@.events.take(i + 1).drop_last() =~= self@.events.take(i as int));
            }
            if stored.contract_address == address && from <= stored.block_number
                && stored.block_number <= to {
                events.push(stored.clone());
            }
            i += 1;
        }
        assert(self@.events.take(i as int) =~= self@.events);
        events
    }

    /// Removes the stored events whose id is one of `ids`; the others keep
    /// their order.
    pub fn delete_events_by_ids(&mut self, ids: &Vec<u128>)
        requires
            old(self).wf(),
        ensures
            final(self).wf(),
            final(self)@ == (StoreView {
                events: old(self)@.events.filter(id_not_in(ids@)),
                ..old(self)@
            }),
    {
        let ghost wanted = id_not_in(ids@);
        let mut kept: Vec<Event> = Vec::new();
        let mut i: usize = 0;
        while i < self.events.len()
            invariant
                i <= self.events.len(),
                wanted == id_not_in(ids@),
                event_views(kept@) == self@.events.take(i as int).filter(wanted),
            decreases self.events.len() - i,
        {
            let stored = &self.events[i];
            proof {
                reveal(Seq::filter);
                assert(self@.events.take(i + 1).drop_last() =~= self@.events.take(i as int));
            }
            if !contains_id(ids, stored.id) {
                kept.push(stored.clone());
            }
            i += 1;
        }
        proof {
            assert(self@.events.take(i as int) =~= self@.events);
            lemma_filter_keeps_events_wf(self@.events, wanted);
        }
        self.events = kept;
    }

    /// Removes the stored events of `chain_id` in the blocks from
    /// `block_number` on; the others keep their order.
    pub fn delete_events_from(&mut self, chain_id: ChainId, block_number: u64)
        requires
            old(self).wf(),
        ensures
            final(self).wf(),
            final(self)@ == (StoreView {
                events: old(self)@.events.filter(survives_reorg(chain_id, block_number)),
                ..old(self)@
            }),
    {
        let ghost wanted = survives_reorg(chain_id, block_number);
        let mut kept: Vec<Event> = Vec::new();
        let mut i: usize = 0;
        while i < self.events.len()
            invariant
                i <= self.events.len(),
                wanted == survives_reorg(chain_id, block_number),
                event_views(kept@) == self@.events.take(i as int).filter(wanted),
            decreases self.events.len() - i,
        {
            let stored = &self.events[i];
            proof {
                reveal(Seq::filter);
                assert(self@.events.take(i + 1).drop_last() =~= self@.events.take(i as int));
            }
            if !(stored.chain_id == chain_id && stored.block_number >= block_number) {
                kept.push(stored.clone());
            }
            i += 1;
        }
        proof {
            assert(self@.events.take(i as int) =~= self@.events);
            lemma_filter_keeps_events_wf(self@.events, wanted);
        }
        self.events = kept;
    }
}

} // verus!
