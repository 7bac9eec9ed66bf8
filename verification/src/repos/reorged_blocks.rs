//! The operations of the store on the reorged blocks table.

use crate::chain_reorg::{handled, saved, unhandled_on, ReorgedBlock, UnsavedReorgedBlock};
use crate::chains::ChainId;
use crate::repos::{Store, StoreView};
use vstd::prelude::*;

verus! {

impl Store {
    /// Stores the finding of a rewrite, not yet handled.
    pub fn create_reorged_block(&mut self, reorged_block: &UnsavedReorgedBlock)
        requires
            old(self).wf(),
            old(self).reorged_blocks.len() < usize::MAX,
        ensures
            final(self).wf(),
            final(self)@ == (StoreView {
                reorged_blocks: old(self)@.reorged_blocks.push(
                    saved((old(self)@.reorged_blocks.len() + 1) as u64, *reorged_block),
                ),
                ..old(self)@
            }),
    {
        let id = (self.reorged_blocks.len() + 1) as u64;
        self.reorged_blocks.push(
            ReorgedBlock {
                id,
                block_number: reorged_block.block_number,
                chain_id: reorged_block.chain_id,
                handled_at: None,
            },
        );
    }

    /// The findings on `chain_id` that the handlers have not rewound to
    /// yet, in id order.
    pub fn get_unhandled_reorged_blocks(&self, chain_id: ChainId) -> (reorged_blocks: Vec<
        ReorgedBlock,
    >)
        ensures
            reorged_blocks@ == self@.reorged_blocks.filter(unhandled_on(chain_id)),
    {
        let ghost wanted = unhandled_on(chain_id);
        let mut reorged_blocks: Vec<ReorgedBlock> = Vec::new();
        let mut i: usize = 0;
        while i < self.reorged_blocks.len()
            invariant
                i <= self.reorged_blocks.len(),
                wanted == unhandled_on(chain_id),
                reorged_blocks@ == self@.reorged_blocks.take(i as int).filter(wanted),
            decreases self.reorged_blocks.len() - i,
        {
            let reorged_block = self.reorged_blocks[i];
            proof {
                reveal(Seq::filter);
                assert(self@.reorged_blocks.take(i + 1).drop_last() =~= self@.reorged_blocks.take(
                    i as int,
                ));
            }
            if reorged_block.chain_id == chain_id && reorged_block.handled_at.is_none() {
                reorged_blocks.push(reorged_block);
            }
            i += 1;
        }
        assert(self@.reorged_blocks.take(i as int) =~= self@.reorged_blocks);
        reorged_blocks
    }

    /// Marks every unhandled finding on `chain_id` as handled at `now`.
    pub fn mark_reorged_blocks_as_handled(&mut self, chain_id: ChainId, now: i64)
        requires
            old(self).wf(),
        ensures
            final(self).wf(),
            final(self)@ == (StoreView {
                reorged_blocks: handled(old(self)@.reorged_blocks, chain_id, now),
                ..old(self)@
            }),
    {
        let mut i: usize = 0;
        while i < self.reorged_blocks.len()
            invariant
                i <= self.reorged_blocks.len(),
                self.reorged_blocks.len() == old(self).reorged_blocks.len(),
                forall|j: int|
                    0 <= j < i ==> #[trigger] self@.reorged_blocks[j] == handled(
                        old(self)@.reorged_blocks,
                        chain_id,
                        now,
                    )[j],
                forall|j: int|
                    i <= j < self.reorged_blocks.len() ==> #[trigger] self@.reorged_blocks[j]
                        == old(self)@.reorged_blocks[j],
                self@ == (StoreView { reorged_blocks: self@.reorged_blocks, ..old(self)@ }),
            decreases self.reorged_blocks.len() - i,
        {
            let reorged_block = self.reorged_blocks[i];
            if reorged_block.chain_id == chain_id && reorged_block.handled_at.is_none() {
                self.reorged_blocks[i].handled_at = Some(now);
            }
            i += 1;
        }
        assert(self@.reorged_blocks =~= handled(old(self)@.reorged_blocks, chain_id, now));
    }
}

} // verus!
