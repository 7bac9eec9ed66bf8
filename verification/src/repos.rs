//! The shared store and its errors.

use crate::chain_reorg::{reorged_blocks_wf, ReorgedBlock};
use crate::contracts::{registry_wf, ContractAddress, ContractAddressView};
use crate::events::{event_views, events_wf, Event, EventView};
use crate::nodes::{nodes_wf, Node};
use crate::reset_counts::{reset_counts_wf, ResetCount};
use vstd::prelude::*;
use vstd::string::*;

pub mod contract_addresses;
pub mod events;
pub mod nodes;
pub mod reorged_blocks;
pub mod reset_counts;
pub mod postgres_repo;

verus! {

/// Why a store operation did not take effect.
#[derive(Debug)]
pub enum RepoError {
    /// The store could not be reached.
    NotConnected,
    /// Anything else, with the store's own message.
    Unknown(String),
}

impl RepoError {
    /// The error that a failure of the database stands for: `NotConnected`
    /// where the database reports a closed connection, else `Unknown` with
    /// the database's message.
    pub fn from_database_error(closed_connection: bool, message: &str) -> (error: Self)
        ensures
            match error {
                RepoError::NotConnected => closed_connection,
                RepoError::Unknown(text) => !closed_connection && text@ == message@,
            },
    {
        if closed_connection {
            RepoError::NotConnected
        } else {
            RepoError::Unknown(String::from_str(message))
        }
    }
}

/// The tables of the store, as mathematical values.
pub struct StoreView {
    pub contract_addresses: Seq<ContractAddressView>,
    pub events: Seq<EventView>,
    pub nodes: Seq<Node>,
    pub reorged_blocks: Seq<ReorgedBlock>,
    pub reset_counts: Seq<ResetCount>,
}

/// The shared store: one table per kind of row, each in insertion order.
///
/// Every replica sees the same tables; all lifecycle state of the indexer
/// lives here. The operations on it state, row by row, what each repo
/// operation does to the tables.
pub struct Store {
    pub contract_addresses: Vec<ContractAddress>,
    pub events: Vec<Event>,
    pub nodes: Vec<Node>,
    pub reorged_blocks: Vec<ReorgedBlock>,
    pub reset_counts: Vec<ResetCount>,
}

/// The rows of the contract address table, as mathematical values.
pub open spec fn contract_address_views(rows: Seq<ContractAddress>) -> Seq<ContractAddressView> {
    rows.map_values(|row: ContractAddress| row@)
}

impl View for Store {
    type V = StoreView;

    open spec fn view(&self) -> StoreView {
        StoreView {
            contract_addresses: contract_address_views(self.contract_addresses@),
            events: event_views(self.events@),
            nodes: self.nodes@,
            reorged_blocks: self.reorged_blocks@,
            reset_counts: self.reset_counts@,
        }
    }
}

impl StoreView {
    /// The tables' invariants: ids follow insertion order and no identity
    /// occurs twice.
    pub open spec fn wf(self) -> bool {
        &&& registry_wf(self.contract_addresses)
        &&& events_wf(self.events)
        &&& nodes_wf(self.nodes)
        &&& reorged_blocks_wf(self.reorged_blocks)
        &&& reset_counts_wf(self.reset_counts)
    }
}

impl Store {
    /// Whether the tables' invariants hold.
    pub open spec fn wf(&self) -> bool {
        self@.wf()
    }

    /// A store with empty tables.
    pub fn new() -> (store: Self)
        ensures
            store.wf(),
            store@.contract_addresses.len() == 0,
            store@.events.len() == 0,
            store@.nodes.len() == 0,
            store@.reorged_blocks.len() == 0,
            store@.reset_counts.len() == 0,
    {
        Store {
            contract_addresses: Vec::new(),
            events: Vec::new(),
            nodes: Vec::new(),
            reorged_blocks: Vec::new(),
            reset_counts: Vec::new(),
        }
    }

    /// Ends a transaction. `attempt` is what the operations of the
    /// transaction made of a copy of the store, or the error that stopped
    /// them. On success the store becomes that copy; on failure it stays as
    /// it was, and the error is handed on.
    pub fn run_in_transaction(&mut self, attempt: Result<Store, RepoError>) -> (outcome: Result<
        (),
        RepoError,
    >)
        requires
            old(self).wf(),
            attempt matches Ok(next) ==> next.wf(),
        ensures
            final(self).wf(),
            match attempt {
                Ok(next) => outcome is Ok && final(self)@ == next@,
                Err(error) => outcome == Err::<(), RepoError>(error) && final(self)@ == old(
                    self,
                )@,
            },
    {
        match attempt {
            Ok(next) => {
                *self = next;
                Ok(())
            },
            Err(error) => Err(error),
        }
    }
}

impl Clone for Store {
    /// A copy of the store, to try a transaction on.
    fn clone(&self) -> (copy: Self)
        ensures
            copy@ == self@,
    {
        let contract_addresses = self.get_all_contract_addresses();
        let events = self.get_all_events();
        let nodes = self.nodes.clone();
        let reorged_blocks = self.reorged_blocks.clone();
        let reset_counts = self.reset_counts.clone();
        Store { contract_addresses, events, nodes, reorged_blocks, reset_counts }
    }
}

} // verus!
