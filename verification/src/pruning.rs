//! How much history the indexer keeps.

use vstd::prelude::*;

verus! {

/// How much history the indexer keeps behind the current block.
#[derive(Clone, Copy, Debug)]
pub struct PruningConfig {
    /// Events older than this many blocks behind the current block are stale.
    pub prune_n_blocks_away: u64,
    /// How often stale data gets pruned, in seconds.
    pub prune_interval: u64,
}

impl Default for PruningConfig {
    fn default() -> (config: Self)
        ensures
            config.prune_n_blocks_away == 1_000,
            config.prune_interval == 12 * 60 * 60,
    {
        Self { prune_n_blocks_away: 1_000, prune_interval: 12 * 60 * 60 }
    }
}

impl PruningConfig {
    /// The lowest block number whose events are retained when the chain is at
    /// `current_block_number`.
    pub open spec fn min_block_number(self, current_block_number: u64) -> int {
        if current_block_number < self.prune_n_blocks_away {
            current_block_number as int
        } else {
            current_block_number - self.prune_n_blocks_away
        }
    }

    /// The lowest retained block: `prune_n_blocks_away` behind the current
    /// block, or the current block itself while the chain is shorter than
    /// that distance.
    pub fn get_min_block_number(&self, current_block_number: u64) -> (min_block_number: u64)
        ensures
            min_block_number == self.min_block_number(current_block_number),
            min_block_number <= current_block_number,
    {
        if current_block_number < self.prune_n_blocks_away {
            current_block_number
        } else {
            current_block_number - self.prune_n_blocks_away
        }
    }
}

} // verus!
