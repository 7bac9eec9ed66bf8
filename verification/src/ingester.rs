//! The ingester: which blocks to fetch next, how a rewrite of the chain
//! shows, and what a committed batch leaves in the store.

use crate::chain_reorg::{saved, UnsavedReorgedBlock};
use crate::chains::ChainId;
use crate::contracts::{
    contract_views, ingests_from_start_on, Contract, ContractAddress, ContractAddressView,
};
use crate::events::{
    are_events_of, event_views, fetched_log_views, get, insert_all, survives_reorg, Event,
    EventView, FetchedLog, FetchedLogView,
};
use crate::repos::{contract_address_views, Store, StoreView};
use vstd::prelude::*;

verus! {

/// A range of blocks, both ends included.
#[derive(Clone, Copy, Debug, PartialEq, Eq, Structural)]
pub struct BlockRange {
    pub from: u64,
    pub to: u64,
}

/// Whether `cursor` is the lowest ingestion cursor among `rows`.
pub open spec fn is_lowest_ingest_cursor(rows: Seq<ContractAddressView>, cursor: u64) -> bool {
    &&& exists|i: int|
        0 <= i < rows.len() && (#[trigger] rows[i]).next_block_number_to_ingest_from == cursor
    &&& forall|i: int|
        0 <= i < rows.len() ==> cursor <= (#[trigger] rows[i]).next_block_number_to_ingest_from
}

/// Whether `window` is the range of blocks to fetch next for a page of
/// addresses.
///
/// The range starts at the lowest ingestion cursor of the page and spans at
/// most `blocks_per_batch` blocks, none of them above the safe head. There is
/// nothing to fetch for an empty page, without a safe head, with batches of
/// no block, or while every cursor stands above the safe head.
pub open spec fn is_batch_window(
    window: Option<BlockRange>,
    rows: Seq<ContractAddressView>,
    blocks_per_batch: u64,
    safe_head: Option<u64>,
) -> bool {
    match window {
        Some(range) => {
            &&& blocks_per_batch > 0
            &&& safe_head is Some
            &&& is_lowest_ingest_cursor(rows, range.from)
            &&& range.from <= safe_head->0
            &&& range.to == if range.from + blocks_per_batch - 1 <= safe_head->0 {
                range.from + blocks_per_batch - 1
            } else {
                safe_head->0 as int
            }
        },
        None => {
            ||| rows.len() == 0
            ||| blocks_per_batch == 0
            ||| safe_head is None
            ||| forall|i: int|
                0 <= i < rows.len() ==> (#[trigger] rows[i]).next_block_number_to_ingest_from
                    > safe_head->0
        },
    }
}

/// The range of blocks to fetch next for a page of addresses: from the
/// lowest ingestion cursor of the page, `blocks_per_batch` blocks or up to
/// the safe head, whichever ends first. `None` means that this page is
/// skipped for now.
pub fn get_batch_window(
    page: &Vec<ContractAddress>,
    blocks_per_batch: u64,
    safe_head: Option<u64>,
) -> (window: Option<BlockRange>)
    ensures
        is_batch_window(window, contract_address_views(page@), blocks_per_batch, safe_head),
{
    let ghost rows = contract_address_views(page@);
    if page.len() == 0 || blocks_per_batch == 0 {
        return None;
    }
    let safe_head = match safe_head {
        Some(safe_head) => safe_head,
        None => {
            return None;
        },
    };
    let mut from = page[0].next_block_number_to_ingest_from;
    let mut i: usize = 1;
    assert(rows.take(1)[0].next_block_number_to_ingest_from == from);
    while i < page.len()
        invariant
            1 <= i <= page.len(),
            rows == contract_address_views(page@),
            is_lowest_ingest_cursor(rows.take(i as int), from),
        decreases page.len() - i,
    {
        if page[i].next_block_number_to_ingest_from < from {
            from = page[i].next_block_number_to_ingest_from;
        }
        assert(rows.take(i + 1)[i as int] == rows[i as int]);
        i += 1;
    }
    assert(rows.take(i as int) =~= rows);
    if from > safe_head {
        return None;
    }
    let to = if blocks_per_batch - 1 <= safe_head - from {
        from + (blocks_per_batch - 1)
    } else {
        safe_head
    };
    Some(BlockRange { from, to })
}

/// The addresses whose ingestion cursor stands at `from`.
pub open spec fn ingests_from(from: u64) -> spec_fn(ContractAddressView) -> bool {
    |row: ContractAddressView| row.next_block_number_to_ingest_from == from
}

/// The addresses of a page that share the ingestion cursor `from`: the ones
/// that a batch starting at `from` is fetched for and advances.
pub fn get_batch(page: &Vec<ContractAddress>, from: u64) -> (batch: Vec<ContractAddress>)
    ensures
        contract_address_views(batch@) == contract_address_views(page@).filter(ingests_from(from)),
{
    let ghost rows = contract_address_views(page@);
    let ghost wanted = ingests_from(from);
    let mut batch: Vec<ContractAddress> = Vec::new();
    let mut i: usize = 0;
    while i < page.len()
        invariant
            i <= page.len(),
            rows == contract_address_views(page@),
            wanted == ingests_from(from),
            contract_address_views(batch@) == rows.take(i as int).filter(wanted),
        decreases page.len() - i,
    {
        proof {
            reveal(Seq::filter);
            assert(rows.take(i + 1).drop_last() =~= rows.take(i as int));
        }
        if page[i].next_block_number_to_ingest_from == from {
            batch.push(page[i].clone());
        }
        i += 1;
    }
    assert(rows.take(i as int) =~= rows);
    batch
}

/// Whether a stored event and a log of `chain_id` name the same block under
/// different hashes.
pub open spec fn disagrees(event: EventView, chain_id: ChainId, log: FetchedLogView) -> bool {
    event.chain_id == chain_id && event.block_number == log.log.block_number && event.block_hash
        != log.log.block_hash
}

/// Whether a log shows that its block was rewritten: the provider marks it
/// as removed, or the store holds an event of the same chain and block
/// under another block hash.
pub open spec fn shows_reorg(
    events: Seq<EventView>,
    chain_id: ChainId,
    log: FetchedLogView,
) -> bool {
    log.log.removed || exists|i: int|
        0 <= i < events.len() && disagrees(#[trigger] events[i], chain_id, log)
}

/// Whether `point` is the block from which `logs` show `chain_id` to be
/// rewritten: the lowest block of a log that shows a rewrite, or none where
/// no log does.
pub open spec fn is_reorg_point(
    point: Option<u64>,
    events: Seq<EventView>,
    chain_id: ChainId,
    logs: Seq<FetchedLogView>,
) -> bool {
    match point {
        Some(block_number) => {
            &&& exists|j: int|
                0 <= j < logs.len() && shows_reorg(events, chain_id, #[trigger] logs[j])
                    && logs[j].log.block_number == block_number
            &&& forall|j: int|
                0 <= j < logs.len() && shows_reorg(events, chain_id, #[trigger] logs[j])
                    ==> block_number <= logs[j].log.block_number
        },
        None => forall|j: int|
            0 <= j < logs.len() ==> !shows_reorg(events, chain_id, #[trigger] logs[j]),
    }
}

/// The ids of a list of rows.
pub open spec fn ids_of(rows: Seq<ContractAddressView>) -> Seq<u64> {
    rows.map_values(|row: ContractAddressView| row.id)
}

/// The registry with the ingestion cursor of every row named in `ids` at
/// `cursor`.
pub open spec fn advanced(rows: Seq<ContractAddressView>, ids: Seq<u64>, cursor: u64) -> Seq<
    ContractAddressView,
> {
    rows.map_values(
        |row: ContractAddressView|
            if ids.contains(row.id) {
                ContractAddressView { next_block_number_to_ingest_from: cursor, ..row }
            } else {
                row
            },
    )
}

/// The events that stay once `chain_id` is found rewritten from `point`
/// on.
pub open spec fn kept_events(events: Seq<EventView>, chain_id: ChainId, point: Option<u64>) -> Seq<
    EventView,
> {
    match point {
        Some(block_number) => events.filter(survives_reorg(chain_id, block_number)),
        None => events,
    }
}

/// The store after a batch is committed.
///
/// Where the batch showed a rewrite from `point` on, the finding is stored
/// and the events of the chain from that block on are gone. Then the events
/// of the batch are inserted, and the ingestion cursor of every address of
/// the batch stands behind the last block of the batch.
pub open spec fn ingested(
    before: StoreView,
    chain_id: ChainId,
    batch: Seq<ContractAddressView>,
    to: u64,
    point: Option<u64>,
    events: Seq<EventView>,
) -> StoreView {
    StoreView {
        contract_addresses: advanced(before.contract_addresses, ids_of(batch), (to + 1) as u64),
        events: insert_all(kept_events(before.events, chain_id, point), events),
        reorged_blocks: match point {
            Some(block_number) => before.reorged_blocks.push(
                saved(
                    (before.reorged_blocks.len() + 1) as u64,
                    UnsavedReorgedBlock { block_number, chain_id },
                ),
            ),
            None => before.reorged_blocks,
        },
        ..before
    }
}

impl Store {
    /// Whether `log` shows that its block on `chain_id` was rewritten.
    fn shows_reorg(&self, chain_id: ChainId, log: &FetchedLog) -> (shown: bool)
        ensures
            shown == shows_reorg(self@.events, chain_id, log@),
    {
        if log.log.removed {
            return true;
        }
        let mut i: usize = 0;
        while i < self.events.len()
            invariant
                i <= self.events.len(),
                !log.log.removed,
                forall|k: int|
                    0 <= k < i ==> !disagrees(#[trigger] self@.events[k], chain_id, log@),
            decreases self.events.len() - i,
        {
            let stored = &self.events[i];
            if stored.chain_id == chain_id && stored.block_number == log.log.block_number && !(
            stored.block_hash == log.log.block_hash) {
                assert(disagrees(self@.events[i as int], chain_id, log@));
                return true;
            }
            i += 1;
        }
        false
    }

    /// The block from which `logs` show `chain_id` to be rewritten: the
    /// lowest block of a log that is marked as removed or whose block hash
    /// differs from that of a stored event of the same chain and block.
    /// `None` where no log shows a rewrite.
    pub fn detect_reorg(&self, chain_id: ChainId, logs: &Vec<FetchedLog>) -> (point: Option<u64>)
        ensures
            is_reorg_point(point, self@.events, chain_id, fetched_log_views(logs@)),
    {
        let ghost all = fetched_log_views(logs@);
        let mut point: Option<u64> = None;
        let mut i: usize = 0;
        while i < logs.len()
            invariant
                i <= logs.len(),
                all == fetched_log_views(logs@),
                is_reorg_point(point, self@.events, chain_id, all.take(i as int)),
            decreases logs.len() - i,
        {
            let shown = self.shows_reorg(chain_id, &logs[i]);
            if shown {
                let lower = match point {
                    Some(block_number) => logs[i].log.block_number < block_number,
                    None => true,
                };
                if lower {
                    point = Some(logs[i].log.block_number);
                }
            }
            assert(all.take(i + 1)[i as int] == all[i as int]);
            i += 1;
        }
        assert(all.take(i as int) =~= all);
        point
    }

    /// Commits a batch, all of it at once: the logs that were fetched for
    /// the addresses of `batch` up to the block `to`, and the events they
    /// were decoded to.
    ///
    /// Returns the block from which the logs show the chain to be rewritten,
    /// if they do. In that case the finding is stored and the stored events
    /// of the chain from that block on are removed first. Then `events` are
    /// inserted, and the ingestion cursor of every address of the batch moves
    /// to `to + 1`.
    pub fn ingest_events(
        &mut self,
        chain_id: ChainId,
        batch: &Vec<ContractAddress>,
        to: u64,
        logs: &Vec<FetchedLog>,
        events: &Vec<Event>,
    ) -> (point: Option<u64>)
        requires
            old(self).wf(),
            old(self).reorged_blocks.len() < usize::MAX,
            to < u64::MAX,
        ensures
            final(self).wf(),
            is_reorg_point(point, old(self)@.events, chain_id, fetched_log_views(logs@)),
            final(self)@ == ingested(
                old(self)@,
                chain_id,
                contract_address_views(batch@),
                to,
                point,
                event_views(events@),
            ),
    {
        let point = self.detect_reorg(chain_id, logs);
        match point {
            Some(block_number) => {
                self.create_reorged_block(&UnsavedReorgedBlock::new(block_number, &chain_id));
                self.delete_events_from(chain_id, block_number);
            },
            None => {},
        }
        self.create_events(events);
        let ghost base = self@;
        let ghost ids = ids_of(contract_address_views(batch@));
        assert(advanced(base.contract_addresses, ids.take(0), (to + 1) as u64)
            =~= base.contract_addresses);
        let mut i: usize = 0;
        while i < batch.len()
            invariant
                i <= batch.len(),
                to < u64::MAX,
                self.wf(),
                ids == ids_of(contract_address_views(batch@)),
                self@ == (StoreView {
                    contract_addresses: advanced(
                        base.contract_addresses,
                        ids.take(i as int),
                        (to + 1) as u64,
                    ),
                    ..base
                }),
            decreases batch.len() - i,
        {
            self.update_next_block_number_to_ingest_from(&batch[i], to + 1);
            proof {
                let next = ids.take(i + 1);
                assert(next[i as int] == batch@[i as int].id);
                assert(self@.contract_addresses =~= advanced(
                    base.contract_addresses,
                    next,
                    (to + 1) as u64,
                ));
            }
            i += 1;
        }
        assert(ids.take(i as int) =~= ids);
        point
    }

    /// Commits a batch of fetched logs: decodes them to events under the
    /// ABI of the contracts of the batch's addresses, each event under a
    /// random id, and commits logs and events with `ingest_events`. A log
    /// that cannot be decoded yields no event; the others commit.
    pub fn ingest_logs(
        &mut self,
        chain_id: ChainId,
        batch: &Vec<ContractAddress>,
        to: u64,
        logs: &Vec<FetchedLog>,
        contracts: &Vec<Contract>,
    ) -> (point: Option<u64>)
        requires
            old(self).wf(),
            old(self).reorged_blocks.len() < usize::MAX,
            to < u64::MAX,
        ensures
            final(self).wf(),
            is_reorg_point(point, old(self)@.events, chain_id, fetched_log_views(logs@)),
            exists|events: Seq<EventView>|
                are_events_of(
                    events,
                    fetched_log_views(logs@),
                    chain_id,
                    contract_address_views(batch@),
                    contract_views(contracts@),
                ) && final(self)@ == #[trigger] ingested(
                    old(self)@,
                    chain_id,
                    contract_address_views(batch@),
                    to,
                    point,
                    events,
                ),
    {
        let events = get(logs, &chain_id, batch, contracts);
        self.ingest_events(chain_id, batch, to, logs, &events)
    }
}

/// Whether `earlier` comes before `later` in the order of block number and
/// log index.
pub open spec fn precedes(earlier: EventView, later: EventView) -> bool {
    earlier.block_number < later.block_number || (earlier.block_number == later.block_number
        && earlier.log_index < later.log_index)
}

/// Absent a rewrite, a batch only appends to the events of its chain.
///
/// Take a batch of events of `chain_id` from the block `from` on, committed
/// to a store whose events of that chain all lie before `from`, with no
/// rewrite found. Then every event stored before keeps its place and its
/// id, and every event that the batch adds is one of the chain and comes, in
/// the order of block number and log index, after every event of the chain
/// stored before.
pub proof fn lemma_ingest_appends_in_order(
    before: StoreView,
    chain_id: ChainId,
    batch: Seq<ContractAddressView>,
    from: u64,
    to: u64,
    events: Seq<EventView>,
)
    requires
        forall|j: int|
            0 <= j < events.len() ==> (#[trigger] events[j]).chain_id == chain_id && from
                <= events[j].block_number,
        forall|i: int|
            0 <= i < before.events.len() && (#[trigger] before.events[i]).chain_id == chain_id
                ==> before.events[i].block_number < from,
    ensures
        ({
            let after = ingested(before, chain_id, batch, to, None, events).events;
            &&& before.events.len() <= after.len()
            &&& forall|p: int|
                0 <= p < before.events.len() ==> #[trigger] after[p] == before.events[p]
            &&& forall|i: int, p: int|
                0 <= i < before.events.len() <= p < after.len() && (
                #[trigger] before.events[i]).chain_id == chain_id ==> precedes(
                    before.events[i],
                    #[trigger] after[p],
                ) && after[p].chain_id == chain_id
        }),
{
    crate::events::lemma_insert_all_rows(before.events, events);
}

/// An event above the safe head is stored after a batch only if the batch
/// brought it.
///
/// Take a store in which every event of `chain_id` above `safe_head` lies
/// in the range that the batch found rewritten. After the batch is
/// committed, every stored event of the chain above the safe head is one of
/// the events of the batch.
pub proof fn lemma_ingest_holds_back_unconfirmed(
    before: StoreView,
    chain_id: ChainId,
    batch: Seq<ContractAddressView>,
    to: u64,
    point: Option<u64>,
    events: Seq<EventView>,
    safe_head: u64,
)
    requires
        forall|i: int|
            0 <= i < before.events.len() && (#[trigger] before.events[i]).chain_id == chain_id
                && before.events[i].block_number > safe_head ==> point is Some && point->0
                <= before.events[i].block_number,
    ensures
        ({
            let after = ingested(before, chain_id, batch, to, point, events).events;
            forall|p: int|
                0 <= p < after.len() && (#[trigger] after[p]).chain_id == chain_id
                    && after[p].block_number > safe_head ==> events.contains(after[p])
        }),
{
    let kept = kept_events(before.events, chain_id, point);
    let after = ingested(before, chain_id, batch, to, point, events).events;
    crate::events::lemma_insert_all_rows(kept, events);
    assert forall|p: int|
        0 <= p < after.len() && (#[trigger] after[p]).chain_id == chain_id && after[p].block_number
            > safe_head implies events.contains(after[p]) by {
        if p < kept.len() && point is Some {
            before.events.lemma_filter_contains_rev(survives_reorg(chain_id, point->0), kept[p]);
        }
    }
}

/// Once a batch found its chain rewritten from `point` on, every stored
/// event of the chain from that block on is one of the events of the batch.
pub proof fn lemma_ingest_truncates_from_reorg_point(
    before: StoreView,
    chain_id: ChainId,
    batch: Seq<ContractAddressView>,
    to: u64,
    point: u64,
    events: Seq<EventView>,
)
    ensures
        ({
            let after = ingested(before, chain_id, batch, to, Some(point), events).events;
            forall|p: int|
                0 <= p < after.len() && (#[trigger] after[p]).chain_id == chain_id
                    && after[p].block_number >= point ==> events.contains(after[p])
        }),
{
    let kept = before.events.filter(survives_reorg(chain_id, point));
    let after = ingested(before, chain_id, batch, to, Some(point), events).events;
    crate::events::lemma_insert_all_rows(kept, events);
    assert forall|p: int|
        0 <= p < after.len() && (#[trigger] after[p]).chain_id == chain_id && after[p].block_number
            >= point implies events.contains(after[p]) by {
        if p < kept.len() {
            before.events.lemma_filter_pred(survives_reorg(chain_id, point), p);
        }
    }
}

/// A batch leaves every ingestion cursor at or after its start block, and
/// moves the cursors of its addresses forward.
///
/// Take a batch of the addresses that share the ingestion cursor `from`,
/// with a last block `to` not before `from`. Where every ingestion cursor
/// stood at or after its start block before the batch, it does so after it;
/// the cursor of an address of the batch stands at `to + 1`, above where it
/// stood, and no other cursor has moved.
pub proof fn lemma_ingest_moves_cursors_forward(
    before: StoreView,
    chain_id: ChainId,
    batch: Seq<ContractAddressView>,
    from: u64,
    to: u64,
    point: Option<u64>,
    events: Seq<EventView>,
)
    requires
        ingests_from_start_on(before.contract_addresses),
        from <= to < u64::MAX,
        forall|i: int, j: int|
            0 <= i < before.contract_addresses.len() && 0 <= j < batch.len() && (
            #[trigger] before.contract_addresses[i]).id == (#[trigger] batch[j]).id
                ==> before.contract_addresses[i].next_block_number_to_ingest_from == from,
    ensures
        ({
            let rows = before.contract_addresses;
            let after = ingested(before, chain_id, batch, to, point, events).contract_addresses;
            &&& ingests_from_start_on(after)
            &&& after.len() == rows.len()
            &&& forall|i: int|
                0 <= i < rows.len() ==> (#[trigger] after[i]).next_block_number_to_ingest_from
                    == if ids_of(batch).contains(rows[i].id) {
                    to + 1
                } else {
                    rows[i].next_block_number_to_ingest_from as int
                }
            &&& forall|i: int|
                0 <= i < rows.len() ==> rows[i].next_block_number_to_ingest_from <= (
                #[trigger] after[i]).next_block_number_to_ingest_from
        }),
{
}

} // verus!
