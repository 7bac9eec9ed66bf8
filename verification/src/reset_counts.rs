//! Reset epochs.

use vstd::prelude::*;

verus! {

/// A stored reset: the epoch that began with it.
#[derive(Clone, Copy, Debug, PartialEq, Eq, Structural)]
pub struct ResetCount {
    pub id: u64,
    pub count: u8,
}

impl ResetCount {
    /// The epoch that began with this reset.
    pub fn get_count(&self) -> (count: u8)
        ensures
            count == self.count,
    {
        self.count
    }
}

/// The reset counts table's invariant: the row at position `i` has id
/// `i + 1`.
pub open spec fn reset_counts_wf(reset_counts: Seq<ResetCount>) -> bool {
    forall|i: int| 0 <= i < reset_counts.len() ==> (#[trigger] reset_counts[i]).id == i + 1
}

/// The latest reset, where there was one.
pub open spec fn last_reset_count(reset_counts: Seq<ResetCount>) -> Option<ResetCount> {
    if reset_counts.len() == 0 {
        None
    } else {
        Some(reset_counts.last())
    }
}

} // verus!
