//! The operations of the store on the reset counts table.

use crate::repos::{Store, StoreView};
use crate::reset_counts::{last_reset_count, ResetCount};
use vstd::prelude::*;

verus! {

impl Store {
    /// Records that the epoch `count` has begun.
    pub fn create_reset_count(&mut self, count: u8)
        requires
            old(self).wf(),
            old(self).reset_counts.len() < usize::MAX,
        ensures
            final(self).wf(),
            final(self)@ == (StoreView {
                reset_counts: old(self)@.reset_counts.push(
                    ResetCount { id: (old(self)@.reset_counts.len() + 1) as u64, count },
                ),
                ..old(self)@
            }),
    {
        let id = (self.reset_counts.len() + 1) as u64;
        self.reset_counts.push(ResetCount { id, count });
    }

    /// The latest reset, where there was one.
    pub fn get_last_reset_count(&self) -> (last: Option<ResetCount>)
        ensures
            last == last_reset_count(self@.reset_counts),
    {
        if self.reset_counts.len() == 0 {
            None
        } else {
            Some(self.reset_counts[self.reset_counts.len() - 1])
        }
    }
}

} // verus!
