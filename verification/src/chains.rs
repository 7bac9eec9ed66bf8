//! Chains.

use vstd::prelude::*;

verus! {

/// The numeric identifier of an EVM network, as its nodes report it.
pub type ChainId = u64;

} // verus!
