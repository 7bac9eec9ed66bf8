//! Rewrites of a chain: the findings that the ingester leaves for the
//! handlers, and the depth below the head from which a block is final.

use crate::chains::ChainId;
use vstd::prelude::*;

verus! {

/// The finding that the canonical chain was rewritten from `block_number`
/// on, before it enters the store.
#[derive(Clone, Copy, Debug, PartialEq, Eq, Structural)]
pub struct UnsavedReorgedBlock {
    pub block_number: u64,
    pub chain_id: ChainId,
}

impl UnsavedReorgedBlock {
    /// The finding that `chain_id` was rewritten from `block_number` on.
    pub fn new(block_number: u64, chain_id: &ChainId) -> (reorged_block: Self)
        ensures
            reorged_block.block_number == block_number,
            reorged_block.chain_id == *chain_id,
    {
        UnsavedReorgedBlock { block_number, chain_id: *chain_id }
    }
}

/// A stored finding that `chain_id` was rewritten from `block_number` on.
/// `handled_at` is empty until the handlers have rewound to it.
#[derive(Clone, Copy, Debug, PartialEq, Eq, Structural)]
pub struct ReorgedBlock {
    pub id: u64,
    pub block_number: u64,
    pub chain_id: ChainId,
    pub handled_at: Option<i64>,
}

/// The reorged blocks table's invariant: the row at position `i` has id
/// `i + 1`.
pub open spec fn reorged_blocks_wf(reorged_blocks: Seq<ReorgedBlock>) -> bool {
    forall|i: int|
        0 <= i < reorged_blocks.len() ==> (#[trigger] reorged_blocks[i]).id == i + 1
}

/// The row that a finding becomes under `id`.
pub open spec fn saved(id: u64, reorged_block: UnsavedReorgedBlock) -> ReorgedBlock {
    ReorgedBlock {
        id,
        block_number: reorged_block.block_number,
        chain_id: reorged_block.chain_id,
        handled_at: None,
    }
}

/// The findings on `chain_id` that the handlers have not rewound to yet.
pub open spec fn unhandled_on(chain_id: ChainId) -> spec_fn(ReorgedBlock) -> bool {
    |reorged_block: ReorgedBlock|
        reorged_block.chain_id == chain_id && reorged_block.handled_at is None
}

/// The table once the unhandled findings on `chain_id` are marked as
/// handled at `now`.
pub open spec fn handled(reorged_blocks: Seq<ReorgedBlock>, chain_id: ChainId, now: i64) -> Seq<
    ReorgedBlock,
> {
    reorged_blocks.map_values(
        |reorged_block: ReorgedBlock|
            if unhandled_on(chain_id)(reorged_block) {
                ReorgedBlock { handled_at: Some(now), ..reorged_block }
            } else {
                reorged_block
            },
    )
}

/// How many blocks behind the head a block must lie to count as final.
#[derive(Clone, Copy, Debug, PartialEq, Eq, Structural)]
pub struct MinConfirmationCount {
    pub value: u8,
}

impl MinConfirmationCount {
    /// A depth of `value` blocks.
    pub fn new(value: u8) -> (count: Self)
        ensures
            count.value == value,
    {
        MinConfirmationCount { value }
    }

    /// The safe head under the head `head`: the highest block that lies
    /// deep enough, where the chain is long enough to have one.
    pub open spec fn safe_head_of(self, head: u64) -> Option<u64> {
        if head >= self.value {
            Some((head - self.value) as u64)
        } else {
            None
        }
    }

    /// The safe head under the head `head`: `head` less the confirmation
    /// depth. A chain shorter than the depth has no safe head.
    pub fn safe_head(&self, head: u64) -> (safe_head: Option<u64>)
        ensures
            safe_head == self.safe_head_of(head),
    {
        if head >= self.value as u64 {
            Some(head - self.value as u64)
        } else {
            None
        }
    }
}

} // verus!
