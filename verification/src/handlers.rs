//! The handler runner: what the handlers of a chain see next, and how their
//! cursors move.

use crate::chain_reorg::{handled, unhandled_on, ReorgedBlock};
use crate::chains::ChainId;
use crate::contracts::{
    ingests_from_start_on, with_handle_cursor, with_side_effects_cursor, ContractAddress,
    ContractAddressView,
};
use crate::events::{emitted_in, event_views, Event, EventView};
use crate::ingester::precedes;
use crate::repos::{Store, StoreView};
use vstd::prelude::*;

verus! {

/// Whether `block_number` is the lowest block of an unhandled finding on
/// `chain_id`.
pub open spec fn is_lowest_unhandled(
    reorged_blocks: Seq<ReorgedBlock>,
    chain_id: ChainId,
    block_number: u64,
) -> bool {
    &&& exists|i: int|
        0 <= i < reorged_blocks.len() && unhandled_on(chain_id)(#[trigger] reorged_blocks[i])
            && reorged_blocks[i].block_number == block_number
    &&& forall|i: int|
        0 <= i < reorged_blocks.len() && unhandled_on(chain_id)(#[trigger] reorged_blocks[i])
            ==> block_number <= reorged_blocks[i].block_number
}

/// The lowest block of a finding on `chain_id` that the handlers have not
/// rewound to yet; none where every finding on the chain is handled.
pub fn get_lowest_unhandled(reorged_blocks: &Vec<ReorgedBlock>, chain_id: ChainId) -> (lowest:
    Option<u64>)
    ensures
        match lowest {
            Some(block_number) => is_lowest_unhandled(reorged_blocks@, chain_id, block_number),
            None => forall|i: int|
                0 <= i < reorged_blocks@.len() ==> !unhandled_on(chain_id)(
                    #[trigger] reorged_blocks@[i],
                ),
        },
{
    let ghost findings = reorged_blocks@;
    let mut lowest: Option<u64> = None;
    let mut i: usize = 0;
    while i < reorged_blocks.len()
        invariant
            i <= reorged_blocks.len(),
            findings == reorged_blocks@,
            match lowest {
                Some(block_number) => is_lowest_unhandled(
                    findings.take(i as int),
                    chain_id,
                    block_number,
                ),
                None => forall|k: int|
                    0 <= k < i ==> !unhandled_on(chain_id)(#[trigger] findings[k]),
            },
        decreases reorged_blocks.len() - i,
    {
        let finding = reorged_blocks[i];
        if finding.chain_id == chain_id && finding.handled_at.is_none() {
            let lower = match lowest {
                Some(block_number) => finding.block_number < block_number,
                None => true,
            };
            if lower {
                lowest = Some(finding.block_number);
            }
        }
        assert(findings.take(i + 1)[i as int] == findings[i as int]);
        i += 1;
    }
    assert(findings.take(i as int) =~= findings);
    lowest
}

/// The registry once the handlers of `chain_id` are rewound to
/// `block_number`: no handler cursor of the chain stands above it.
pub open spec fn rewound(
    rows: Seq<ContractAddressView>,
    chain_id: ChainId,
    block_number: u64,
) -> Seq<ContractAddressView> {
    rows.map_values(
        |row: ContractAddressView|
            if row.chain_id == chain_id && row.next_block_number_to_handle_from > block_number {
                ContractAddressView { next_block_number_to_handle_from: block_number, ..row }
            } else {
                row
            },
    )
}

/// Whether a list of events is in ascending order of block number and log
/// index.
pub open spec fn in_order(events: Seq<EventView>) -> bool {
    forall|i: int, j: int|
        0 <= i < j < events.len() ==> !precedes(#[trigger] events[j], #[trigger] events[i])
}

/// A list of events in ascending order of block number and log index;
/// events that agree in both keep their order.
pub fn sort_events(events: &Vec<Event>) -> (sorted: Vec<Event>)
    ensures
        in_order(event_views(sorted@)),
        event_views(sorted@).to_multiset() == event_views(events@).to_multiset(),
{
    broadcast use vstd::seq_lib::group_to_multiset_ensures;

    let ghost all = event_views(events@);
    let mut sorted: Vec<Event> = Vec::new();
    let mut i: usize = 0;
    while i < events.len()
        invariant
            i <= events.len(),
            all == event_views(events@),
            sorted.len() == i,
            in_order(event_views(sorted@)),
            event_views(sorted@).to_multiset() == all.take(i as int).to_multiset(),
        decreases events.len() - i,
    {
        let event = &events[i];
        let mut at: usize = sorted.len();
        while at > 0 && (event.block_number < sorted[at - 1].block_number || (event.block_number
            == sorted[at - 1].block_number && event.log_index < sorted[at - 1].log_index))
            invariant
                at <= sorted.len(),
                forall|k: int|
                    at <= k < sorted.len() ==> precedes(event@, #[trigger] event_views(sorted@)[k]),
            decreases at,
        {
            at -= 1;
        }
        let ghost before = event_views(sorted@);
        sorted.insert(at, event.clone());
        proof {
            let after = event_views(sorted@);
            assert(after =~= before.insert(at as int, event@));
            vstd::seq_lib::to_multiset_insert(before, at as int, event@);
            assert(all.take(i + 1) =~= all.take(i as int).push(event@));
            vstd::seq_lib::to_multiset_build(all.take(i as int), event@);
            assert forall|a: int, b: int| 0 <= a < b < after.len() implies !precedes(
                #[trigger] after[b],
                #[trigger] after[a],
            ) by {
                if a < at && b == at {
                    assert(!precedes(event@, before[at - 1]));
                }
            }
        }
        i += 1;
    }
    assert(all.take(i as int) =~= all);
    sorted
}

/// The last block of the range of `window` blocks beyond `from`, cut off
/// at the highest block number.
pub open spec fn window_end(from: u64, window: u64) -> u64 {
    if from + window <= u64::MAX {
        (from + window) as u64
    } else {
        u64::MAX
    }
}

/// The last of the `window` blocks beyond `from`, cut off at the highest
/// block number.
pub fn get_window_end(from: u64, window: u64) -> (to: u64)
    ensures
        to == window_end(from, window),
{
    if window <= u64::MAX - from {
        from + window
    } else {
        u64::MAX
    }
}

/// The block behind the last of a list of handled events, where the cursor
/// of their address moves to; the block behind the highest block is that
/// block itself.
pub open spec fn block_after_last(events: Seq<EventView>) -> u64
    recommends
        events.len() > 0,
{
    if events.last().block_number < u64::MAX {
        (events.last().block_number + 1) as u64
    } else {
        u64::MAX
    }
}

/// Where the cursor of an address moves once its handlers have seen
/// `events`: behind the block of the last of them. With no event the cursor
/// does not move.
pub fn get_block_after_last(events: &Vec<Event>) -> (block_number: Option<u64>)
    ensures
        block_number == if events@.len() == 0 {
            None
        } else {
            Some(block_after_last(event_views(events@)))
        },
{
    if events.len() == 0 {
        return None;
    }
    let last = events[events.len() - 1].block_number;
    if last < u64::MAX {
        Some(last + 1)
    } else {
        Some(u64::MAX)
    }
}

impl Store {
    /// Rewinds the handlers of `chain_id` to the findings of rewrites that
    /// are not handled yet, and marks those as handled at `now`.
    ///
    /// Returns the lowest block of such a finding: no handler cursor of the
    /// chain stands above it afterwards, and none was raised. Where every
    /// finding on the chain is handled already, nothing changes and `None`
    /// is returned.
    pub fn rewind_handlers(&mut self, chain_id: ChainId, now: i64) -> (lowest: Option<u64>)
        requires
            old(self).wf(),
        ensures
            final(self).wf(),
            match lowest {
                Some(block_number) => is_lowest_unhandled(
                    old(self)@.reorged_blocks,
                    chain_id,
                    block_number,
                ) && final(self)@ == (StoreView {
                    contract_addresses: rewound(
                        old(self)@.contract_addresses,
                        chain_id,
                        block_number,
                    ),
                    reorged_blocks: handled(old(self)@.reorged_blocks, chain_id, now),
                    ..old(self)@
                }),
                None => final(self)@ == old(self)@ && forall|i: int|
                    0 <= i < old(self)@.reorged_blocks.len() ==> !unhandled_on(chain_id)(
                        #[trigger] old(self)@.reorged_blocks[i],
                    ),
            },
    {
        let lowest = get_lowest_unhandled(&self.reorged_blocks, chain_id);
        match lowest {
            Some(block_number) => {
                let mut k: usize = 0;
                while k < self.contract_addresses.len()
                    invariant
                        k <= self.contract_addresses.len(),
                        self.contract_addresses.len() == old(self).contract_addresses.len(),
                        forall|j: int|
                            0 <= j < k ==> (#[trigger] self.contract_addresses@[j])@ == rewound(
                                old(self)@.contract_addresses,
                                chain_id,
                                block_number,
                            )[j],
                        forall|j: int|
                            k <= j < self.contract_addresses.len()
                                ==> #[trigger] self.contract_addresses@[j]
                                == old(self).contract_addresses@[j],
                        self@ == (StoreView {
                            contract_addresses: self@.contract_addresses,
                            ..old(self)@
                        }),
                    decreases self.contract_addresses.len() - k,
                {
                    if self.contract_addresses[k].chain_id == chain_id
                        && self.contract_addresses[k].next_block_number_to_handle_from
                        > block_number {
                        self.contract_addresses[k].next_block_number_to_handle_from = block_number;
                    }
                    k += 1;
                }
                assert(self@.contract_addresses =~= rewound(
                    old(self)@.contract_addresses,
                    chain_id,
                    block_number,
                ));
                self.mark_reorged_blocks_as_handled(chain_id, now);
            },
            None => {},
        }
        lowest
    }

    /// The stored events of `contract_address` that its handlers are to see
    /// next: those in the `window` blocks from its handler cursor on, in
    /// ascending order of block number and log index.
    pub fn get_events_to_handle(&self, contract_address: &ContractAddress, window: u64) -> (events:
        Vec<Event>)
        ensures
            in_order(event_views(events@)),
            event_views(events@).to_multiset() == self@.events.filter(
                emitted_in(
                    crate::contracts::lowercase(contract_address.address@),
                    contract_address.next_block_number_to_handle_from,
                    window_end(contract_address.next_block_number_to_handle_from, window),
                ),
            ).to_multiset(),
    {
        let from = contract_address.next_block_number_to_handle_from;
        let to = get_window_end(from, window);
        let events = self.get_events(contract_address.address.as_str(), from, to);
        sort_events(&events)
    }

    /// The stored events of `contract_address` that its side-effect
    /// handlers are to see next: those in the `window` blocks from its
    /// side-effect cursor on, in ascending order of block number and log
    /// index.
    pub fn get_events_for_side_effects(
        &self,
        contract_address: &ContractAddress,
        window: u64,
    ) -> (events: Vec<Event>)
        ensures
            in_order(event_views(events@)),
            event_views(events@).to_multiset() == self@.events.filter(
                emitted_in(
                    crate::contracts::lowercase(contract_address.address@),
                    contract_address.next_block_number_for_side_effects,
                    window_end(contract_address.next_block_number_for_side_effects, window),
                ),
            ).to_multiset(),
    {
        let from = contract_address.next_block_number_for_side_effects;
        let to = get_window_end(from, window);
        let events = self.get_events(contract_address.address.as_str(), from, to);
        sort_events(&events)
    }

    /// Records that the handlers of `contract_address` have seen `events`:
    /// its handler cursor moves behind the block of the last of them. With no
    /// event nothing changes.
    pub fn commit_handled_events(&mut self, contract_address: &ContractAddress, events: &Vec<Event>)
        requires
            old(self).wf(),
        ensures
            final(self).wf(),
            final(self)@ == if events@.len() == 0 {
                old(self)@
            } else {
                StoreView {
                    contract_addresses: with_handle_cursor(
                        old(self)@.contract_addresses,
                        contract_address.id,
                        block_after_last(event_views(events@)),
                    ),
                    ..old(self)@
                }
            },
    {
        match get_block_after_last(events) {
            Some(next) => {
                self.update_next_block_number_to_handle_from(contract_address, next);
            },
            None => {},
        }
    }

    /// Records that the side-effect handlers of `contract_address` have
    /// returned with success for `events`: its side-effect cursor moves
    /// behind the block of the last of them. With no event nothing changes.
    pub fn commit_side_effects(&mut self, contract_address: &ContractAddress, events: &Vec<Event>)
        requires
            old(self).wf(),
        ensures
            final(self).wf(),
            final(self)@ == if events@.len() == 0 {
                old(self)@
            } else {
                StoreView {
                    contract_addresses: with_side_effects_cursor(
                        old(self)@.contract_addresses,
                        contract_address.id,
                        block_after_last(event_views(events@)),
                    ),
                    ..old(self)@
                }
            },
    {
        match get_block_after_last(events) {
            Some(next) => {
                self.update_next_block_number_for_side_effects(contract_address, next);
            },
            None => {},
        }
    }
}

/// What the handlers do to the registry leaves every ingestion cursor at or
/// after its start block: moving a handler cursor, moving a side-effect
/// cursor, and rewinding the handlers of a chain.
pub proof fn lemma_handlers_keep_ingests_from_start_on(
    rows: Seq<ContractAddressView>,
    id: u64,
    chain_id: ChainId,
    block_number: u64,
)
    requires
        ingests_from_start_on(rows),
    ensures
        ingests_from_start_on(with_handle_cursor(rows, id, block_number)),
        ingests_from_start_on(with_side_effects_cursor(rows, id, block_number)),
        ingests_from_start_on(rewound(rows, chain_id, block_number)),
{
}

/// A rewind lowers handler cursors and nothing else: afterwards no handler
/// cursor of the chain stands above the block of the rewind, none stands
/// above where it stood, and every row is otherwise as it was.
pub proof fn lemma_rewound_stands_at_or_before(
    rows: Seq<ContractAddressView>,
    chain_id: ChainId,
    block_number: u64,
)
    ensures
        rewound(rows, chain_id, block_number).len() == rows.len(),
        forall|i: int|
            0 <= i < rows.len() ==> {
                let before = rows[i];
                let after = #[trigger] rewound(rows, chain_id, block_number)[i];
                &&& after.next_block_number_to_handle_from
                    <= before.next_block_number_to_handle_from
                &&& before.chain_id == chain_id ==> after.next_block_number_to_handle_from
                    <= block_number
                &&& before.chain_id != chain_id ==> after == before
                &&& after == (ContractAddressView {
                    next_block_number_to_handle_from: after.next_block_number_to_handle_from,
                    ..before
                })
            },
{
}

/// A cursor that moved behind a list of handled events has passed them all:
/// every event of an ordered list lies before the block behind its last
/// event, unless that event lies in the highest block.
pub proof fn lemma_cursor_passes_handled_events(events: Seq<EventView>)
    requires
        in_order(events),
        events.len() > 0,
        events.last().block_number < u64::MAX,
    ensures
        forall|k: int|
            0 <= k < events.len() ==> (#[trigger] events[k]).block_number < block_after_last(
                events,
            ),
{
}

} // verus!
