//! A multi-chain EVM event indexer: the coordination and ingestion rules,
//! stated over plain values and an in-memory picture of the shared store.
//!
//! Replicas of the indexer share one store and nothing else. Each of them
//! boots with [`index_states`], beats its heart into the nodes table and
//! derives from that table, by itself, which replicas are elected
//! ([`nodes::elect_active_set`]) and whether it has to start or stop its
//! tasks ([`nodes::NodeTasks::orchestrate`]).
//!
//! An elected replica runs two tasks per chain. The ingester moves the
//! ingestion cursors of the registered contract addresses through the chain
//! ([`ingester::get_batch_window`]), turns the logs it fetched into events
//! ([`events::get`]), and commits them in one piece, after a look at whether
//! they show that the chain was rewritten ([`Store::ingest_events`]). The
//! handler runner rewinds after such rewrites ([`Store::rewind_handlers`])
//! and shows the handlers the stored events in order
//! ([`Store::get_events_to_handle`]).
//!
//! [`Store`] holds the tables as values; its operations say what each
//! operation of the repo does to the rows, whichever database carries them
//! out. Reading clocks, drawing ids and case-folding aside, every function
//! here is verified against its contract, and the facts that relate several
//! operations are proved as lemmas next to them.

pub mod booting;
pub mod chain_reorg;
pub mod chains;
pub mod config;
pub mod contracts;
pub mod events;
pub mod handlers;
pub mod ingester;
pub mod nodes;
pub mod pruning;
pub mod repos;
pub mod reset_counts;
pub mod ticks;

pub use crate::chains::ChainId;
pub use crate::config::{Config, OptimizationConfig};
pub use crate::contracts::{Contract, ContractAddress, UnsavedContractAddress};
pub use crate::events::Event;
pub use crate::nodes::KeepNodeActiveRequest;
pub use crate::pruning::PruningConfig;
pub use crate::repos::postgres_repo::PostgresRepo;
pub use crate::repos::{RepoError, Store};

use crate::booting::{address_count, owed_reset_queries, set_up, Boot};
use crate::config::ConfigError;
use crate::contracts::{create_one, lowercase, UnsavedContractAddressView};
use crate::events::{clone_texts, text_views};
use crate::nodes::{NodeTasks, NodeTasksState};
use crate::repos::StoreView;
use vstd::prelude::*;
use vstd::string::*;

verus! {

/// Why indexing could not start.
#[derive(Clone, Copy, PartialEq, Eq, Structural)]
pub enum ChaindexingError {
    Config(ConfigError),
}

impl From<ConfigError> for ChaindexingError {
    fn from(value: ConfigError) -> (error: Self) {
        ChaindexingError::Config(value)
    }
}

impl vstd::std_specs::convert::FromSpecImpl<ConfigError> for ChaindexingError {
    open spec fn obeys_from_spec() -> bool {
        true
    }

    open spec fn from_spec(value: ConfigError) -> Self {
        ChaindexingError::Config(value)
    }
}

impl ChaindexingError {
    /// The error in words.
    pub fn message(&self) -> (message: String)
        ensures
            message@ == match self {
                ChaindexingError::Config(ConfigError::NoContract) => "Config Error: "@
                    + "At least one contract is required"@,
                ChaindexingError::Config(ConfigError::NoChain) => "Config Error: "@
                    + "At least one chain is required"@,
            },
    {
        match self {
            ChaindexingError::Config(config_error) => {
                let reason = config_error.message();
                String::from_str("Config Error: ").concat(reason.as_str())
            },
        }
    }
}

/// Boots a replica on `store` under `config`.
///
/// A configuration without a contract or without a chain is refused, and
/// the store stays as it is. Otherwise the replica enters itself as a new
/// node, the store is reset where its epoch is behind the configured one,
/// and the registry is seeded with the configured contracts. The answer
/// holds the replica's orchestrator state, with no task running yet, which
/// the caller ticks once per election interval, and the statements that the
/// caller has to run against the user's tables because of the reset.
pub fn index_states<SharedState: Send + Sync + Clone + std::fmt::Debug + 'static>(
    config: &Config<SharedState>,
    store: &mut Store,
) -> (outcome: Result<Boot, ChaindexingError>)
    requires
        old(store).wf(),
        old(store).nodes.len() < usize::MAX,
        old(store).reset_counts.len() < usize::MAX,
        old(store).contract_addresses.len() + address_count(config.contracts@) <= usize::MAX,
    ensures
        final(store).wf(),
        match outcome {
            Ok(boot) => {
                &&& config.validated() is Ok
                &&& boot.node_tasks.current_node.id == old(store)@.nodes.len() + 1
                &&& boot.node_tasks.started_at == boot.node_tasks.current_node.last_active_at
                &&& boot.node_tasks.state == NodeTasksState::Active
                &&& boot.node_tasks.task_groups@.len() == 0
                &&& text_views(boot.reset_queries@) == owed_reset_queries(old(store)@, *config)
                &&& final(store)@ == set_up(
                    StoreView {
                        nodes: old(store)@.nodes.push(boot.node_tasks.current_node),
                        ..old(store)@
                    },
                    *config,
                )
            },
            Err(error) => {
                &&& config.validated() == Err::<(), ConfigError>(error->0)
                &&& final(store)@ == old(store)@
            },
        },
{
    match config.validate() {
        Ok(()) => {},
        Err(config_error) => {
            return Err(ChaindexingError::from(config_error));
        },
    }
    let current_node = store.create_node();
    let was_reset = store.setup(config);
    let reset_queries = if was_reset {
        clone_texts(&config.reset_queries)
    } else {
        Vec::new()
    };
    let node_tasks = NodeTasks::new(&current_node, current_node.last_active_at);
    Ok(Boot { node_tasks, reset_queries })
}

/// Registers, from within a handler, a contract that `event` has brought to
/// light: `address` on the event's chain, to be indexed from the event's
/// block on. An address that the registry knows already is left as it is.
pub fn include_contract_in_indexing(
    store: &mut Store,
    event: &Event,
    contract_name: &str,
    address: &str,
)
    requires
        old(store).wf(),
        old(store).contract_addresses.len() < usize::MAX,
    ensures
        final(store).wf(),
        final(store)@ == (StoreView {
            contract_addresses: create_one(
                old(store)@.contract_addresses,
                UnsavedContractAddressView {
                    contract_name: contract_name@,
                    address: lowercase(address@),
                    chain_id: event.chain_id,
                    start_block_number: event.block_number,
                },
            ),
            ..old(store)@
        }),
{
    let chain_id = event.get_chain_id();
    let start_block_number = event.get_block_number();
    let contract_address = UnsavedContractAddress::new(
        contract_name,
        address,
        &chain_id,
        start_block_number,
    );
    store.create_contract_address(&contract_address);
}

} // verus!
