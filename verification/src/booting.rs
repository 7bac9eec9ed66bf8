//! The boot of a replica: the reset into a new epoch and the seeding of the
//! registry.

use crate::config::Config;
use crate::contracts::{
    ingests_from_start_on, unsaved_views, upsert_all, Contract, ContractAddressView,
};
use crate::events::text_views;
use crate::nodes::NodeTasks;
use crate::repos::{Store, StoreView};
use crate::reset_counts::{last_reset_count, ResetCount};
use vstd::prelude::*;

verus! {

/// What a boot hands to the replica that booted.
#[derive(Debug)]
pub struct Boot {
    /// The replica's orchestrator state, with no task running yet.
    pub node_tasks: NodeTasks,
    /// The statements that the replica has to run against the user's
    /// tables: those of the configuration where the store was reset, none
    /// where it was not.
    pub reset_queries: Vec<String>,
}

/// The statements that a boot under `config` owes the user's tables.
pub open spec fn owed_reset_queries<SharedState: Sync + Send + Clone>(
    before: StoreView,
    config: Config<SharedState>,
) -> Seq<Seq<char>> {
    if needs_reset(config.reset_count, last_reset_count(before.reset_counts)) {
        text_views(config.reset_queries@)
    } else {
        Seq::empty()
    }
}

/// Whether a store whose latest reset is `last` has to be reset at a boot
/// under the epoch `reset_count`: it has recorded no epoch yet, or a lower
/// one.
pub open spec fn needs_reset(reset_count: u8, last: Option<ResetCount>) -> bool {
    match last {
        Some(last) => reset_count > last.count,
        None => true,
    }
}

/// Whether a store whose latest reset is `last` has to be reset at a boot
/// under the epoch `reset_count`.
pub fn should_reset(reset_count: u8, last: Option<ResetCount>) -> (reset: bool)
    ensures
        reset == needs_reset(reset_count, last),
{
    match last {
        Some(last) => reset_count > last.get_count(),
        None => true,
    }
}

/// A row with both handler cursors back at its start block.
pub open spec fn with_handlers_at_start(row: ContractAddressView) -> ContractAddressView {
    ContractAddressView {
        next_block_number_to_handle_from: row.start_block_number,
        next_block_number_for_side_effects: row.start_block_number,
        ..row
    }
}

/// The store after a reset into the epoch `count`: no event, no reorged
/// block, every handler cursor back at its start block and the new epoch
/// recorded. Nodes stay, and so do the addresses and their ingestion
/// cursors.
pub open spec fn reset(before: StoreView, count: u8) -> StoreView {
    StoreView {
        contract_addresses: before.contract_addresses.map_values(
            |row: ContractAddressView| with_handlers_at_start(row),
        ),
        events: Seq::empty(),
        reorged_blocks: Seq::empty(),
        reset_counts: before.reset_counts.push(
            ResetCount { id: (before.reset_counts.len() + 1) as u64, count },
        ),
        ..before
    }
}

/// The number of addresses that a list of contracts is deployed at.
pub open spec fn address_count(contracts: Seq<Contract>) -> nat
    decreases contracts.len(),
{
    if contracts.len() == 0 {
        0
    } else {
        address_count(contracts.drop_last()) + contracts.last().addresses@.len()
    }
}

/// The registry once the addresses of a list of contracts are upserted,
/// contract by contract.
pub open spec fn seeded(rows: Seq<ContractAddressView>, contracts: Seq<Contract>) -> Seq<
    ContractAddressView,
>
    decreases contracts.len(),
{
    if contracts.len() == 0 {
        rows
    } else {
        upsert_all(
            seeded(rows, contracts.drop_last()),
            unsaved_views(contracts.last().addresses@),
        )
    }
}

/// The store after the setup step of a boot under `config`: reset where it
/// has to be, then seeded with the configured contracts.
pub open spec fn set_up<SharedState: Sync + Send + Clone>(
    before: StoreView,
    config: Config<SharedState>,
) -> StoreView {
    let cleared = if needs_reset(config.reset_count, last_reset_count(before.reset_counts)) {
        reset(before, config.reset_count)
    } else {
        before
    };
    StoreView {
        contract_addresses: seeded(cleared.contract_addresses, config.contracts@),
        ..cleared
    }
}

impl Store {
    /// Resets the store into the epoch `reset_count` where it stands at a
    /// lower one or at none, and says whether it did. The caller then owes
    /// the user's reset queries.
    pub fn maybe_reset(&mut self, reset_count: u8) -> (was_reset: bool)
        requires
            old(self).wf(),
            old(self).reset_counts.len() < usize::MAX,
        ensures
            final(self).wf(),
            was_reset == needs_reset(reset_count, last_reset_count(old(self)@.reset_counts)),
            final(self)@ == if was_reset {
                reset(old(self)@, reset_count)
            } else {
                old(self)@
            },
    {
        if !should_reset(reset_count, self.get_last_reset_count()) {
            return false;
        }
        self.events = Vec::new();
        self.reorged_blocks = Vec::new();
        let mut i: usize = 0;
        while i < self.contract_addresses.len()
            invariant
                i <= self.contract_addresses.len(),
                self.contract_addresses.len() == old(self).contract_addresses.len(),
                forall|j: int|
                    0 <= j < i ==> (#[trigger] self.contract_addresses@[j])@
                        == with_handlers_at_start(old(self)@.contract_addresses[j]),
                forall|j: int|
                    i <= j < self.contract_addresses.len()
                        ==> #[trigger] self.contract_addresses@[j] == old(
                        self,
                    ).contract_addresses@[j],
                self.nodes == old(self).nodes,
                self.reset_counts == old(self).reset_counts,
                self.events@.len() == 0,
                self.reorged_blocks@.len() == 0,
            decreases self.contract_addresses.len() - i,
        {
            let start = self.contract_addresses[i].start_block_number;
            self.contract_addresses[i].next_block_number_to_handle_from = start;
            self.contract_addresses[i].next_block_number_for_side_effects = start;
            i += 1;
        }
        proof {
            assert(self@.contract_addresses =~= reset(old(self)@, reset_count).contract_addresses);
            assert(self@.events =~= Seq::empty());
            assert(self@.reorged_blocks =~= Seq::empty());
        }
        self.create_reset_count(reset_count);
        true
    }

    /// Upserts the addresses of the configured contracts, contract by
    /// contract.
    pub fn seed(&mut self, contracts: &Vec<Contract>)
        requires
            old(self).wf(),
            old(self).contract_addresses.len() + address_count(contracts@) <= usize::MAX,
        ensures
            final(self).wf(),
            final(self)@ == (StoreView {
                contract_addresses: seeded(old(self)@.contract_addresses, contracts@),
                ..old(self)@
            }),
    {
        let mut i: usize = 0;
        while i < contracts.len()
            invariant
                i <= contracts.len(),
                self.wf(),
                old(self).contract_addresses.len() + address_count(contracts@) <= usize::MAX,
                self.contract_addresses.len() <= old(self).contract_addresses.len()
                    + address_count(contracts@.take(i as int)),
                self@ == (StoreView {
                    contract_addresses: seeded(
                        old(self)@.contract_addresses,
                        contracts@.take(i as int),
                    ),
                    ..old(self)@
                }),
            decreases contracts.len() - i,
        {
            proof {
                assert(contracts@.take(i + 1).drop_last() =~= contracts@.take(i as int));
                lemma_address_count_grows(contracts@, i + 1);
                crate::contracts::lemma_upsert_all_rows(
                    self@.contract_addresses,
                    unsaved_views(contracts@[i as int].addresses@),
                );
            }
            self.upsert_contract_addresses(&contracts[i].addresses);
            i += 1;
        }
        assert(contracts@.take(i as int) =~= contracts@);
    }

    /// The setup step of a boot under `config`: resets the store where it
    /// has to be, then seeds the registry with the configured contracts.
    /// Says whether the store was reset.
    pub fn setup<SharedState: Sync + Send + Clone>(
        &mut self,
        config: &Config<SharedState>,
    ) -> (was_reset: bool)
        requires
            old(self).wf(),
            old(self).reset_counts.len() < usize::MAX,
            old(self).contract_addresses.len() + address_count(config.contracts@) <= usize::MAX,
        ensures
            final(self).wf(),
            was_reset == needs_reset(config.reset_count, last_reset_count(old(self)@.reset_counts)),
            final(self)@ == set_up(old(self)@, *config),
    {
        let was_reset = self.maybe_reset(config.reset_count);
        assert(self.contract_addresses@.len() == self@.contract_addresses.len());
        self.seed(&config.contracts);
        was_reset
    }
}

/// A longer list of contracts is deployed at no fewer addresses.
proof fn lemma_address_count_grows(contracts: Seq<Contract>, n: int)
    requires
        0 <= n <= contracts.len(),
    ensures
        address_count(contracts.take(n)) <= address_count(contracts),
        n > 0 ==> address_count(contracts.take(n)) == address_count(contracts.take(n - 1))
            + contracts[n - 1].addresses@.len(),
    decreases contracts.len() - n,
{
    if n > 0 {
        assert(contracts.take(n).drop_last() =~= contracts.take(n - 1));
    }
    if n < contracts.len() {
        lemma_address_count_grows(contracts, n + 1);
    }
}

/// A reset leaves every ingestion cursor at or after its start block.
pub proof fn lemma_reset_keeps_ingests_from_start_on(before: StoreView, count: u8)
    requires
        ingests_from_start_on(before.contract_addresses),
    ensures
        ingests_from_start_on(reset(before, count).contract_addresses),
{
}

} // verus!
