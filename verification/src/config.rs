//! The configuration of the indexer and its validation.

use crate::chain_reorg::MinConfirmationCount;
use crate::chains::ChainId;
use crate::contracts::Contract;
use crate::nodes::{KeepNodeActiveRequest, DEFAULT_MAX_CONCURRENT_NODE_COUNT};
use crate::repos::postgres_repo::PostgresRepo;
use std::collections::HashMap;
use vstd::prelude::*;
use vstd::string::*;

verus! {

/// Why a configuration cannot be indexed with.
#[derive(Clone, Copy, PartialEq, Eq, Structural)]
pub enum ConfigError {
    NoContract,
    NoChain,
}

impl ConfigError {
    /// The error in words.
    pub fn message(&self) -> (message: String)
        ensures
            message@ == match self {
                ConfigError::NoContract => "At least one contract is required"@,
                ConfigError::NoChain => "At least one chain is required"@,
            },
    {
        match self {
            ConfigError::NoContract => String::from_str("At least one contract is required"),
            ConfigError::NoChain => String::from_str("At least one chain is required"),
        }
    }
}

/// When a node may stop working although it is elected: once the initial
/// indexing is over and nobody asks for fresh data.
#[derive(Clone, Copy, Debug)]
pub struct OptimizationConfig {
    pub keep_node_active_request: KeepNodeActiveRequest,
    /// Optimization starts this many seconds after the node has booted:
    /// the estimated time to reach the current block on every chain.
    pub optimize_after_in_secs: u64,
}

/// What to index, where to keep it and at what pace.
#[derive(Clone)]
pub struct Config<SharedState: Sync + Send + Clone> {
    /// The chains to index, each with the URL of its JSON-RPC endpoint.
    pub chains: HashMap<ChainId, String>,
    pub repo: PostgresRepo,
    pub contracts: Vec<Contract>,
    pub min_confirmation_count: MinConfirmationCount,
    pub blocks_per_batch: u64,
    pub handler_rate_ms: u64,
    pub ingestion_rate_ms: u64,
    pub node_election_rate_ms: Option<u64>,
    pub reset_count: u8,
    pub reset_queries: Vec<String>,
    pub shared_state: Option<SharedState>,
    pub max_concurrent_node_count: u16,
    pub optimization_config: Option<OptimizationConfig>,
}

impl<SharedState: Sync + Send + Clone> Config<SharedState> {
    /// The configuration that keeps its store in `repo`, with no chain, no
    /// contract and every other option at its default.
    pub fn new(repo: PostgresRepo) -> (config: Self)
        ensures
            config.repo == repo,
            config.chains@ == Map::<ChainId, String>::empty(),
            config.contracts@.len() == 0,
            config.min_confirmation_count.value == 40,
            config.blocks_per_batch == 10_000,
            config.handler_rate_ms == 4_000,
            config.ingestion_rate_ms == 30_000,
            config.node_election_rate_ms is None,
            config.reset_count == 0,
            config.reset_queries@.len() == 0,
            config.shared_state is None,
            config.max_concurrent_node_count == DEFAULT_MAX_CONCURRENT_NODE_COUNT,
            config.optimization_config is None,
    {
        Config {
            repo,
            chains: HashMap::new(),
            contracts: Vec::new(),
            min_confirmation_count: MinConfirmationCount::new(40),
            blocks_per_batch: 10_000,
            handler_rate_ms: 4_000,
            ingestion_rate_ms: 30_000,
            node_election_rate_ms: None,
            reset_count: 0,
            reset_queries: Vec::new(),
            shared_state: None,
            max_concurrent_node_count: DEFAULT_MAX_CONCURRENT_NODE_COUNT,
            optimization_config: None,
        }
    }

    /// Whether `other` differs from `self` at most in its chains.
    pub open spec fn same_but_chains(self, other: Self) -> bool {
        other == (Config { chains: other.chains, ..self })
    }

    /// Adds a chain with the URL of its endpoint; the URL of a chain that is
    /// there already is replaced.
    pub fn add_chain(self, chain: ChainId, json_rpc_url: &str) -> (config: Self)
        ensures
            self.same_but_chains(config),
            config.chains@.dom() == self.chains@.dom().insert(chain),
            config.chains@[chain]@ == json_rpc_url@,
            forall|other: ChainId|
                other != chain && self.chains@.contains_key(other) ==> config.chains@[other]
                    == self.chains@[other],
    {
        let mut config = self;
        config.chains.insert(chain, String::from_str(json_rpc_url));
        config
    }

    /// Adds a contract to index.
    pub fn add_contract(self, contract: Contract) -> (config: Self)
        ensures
            config == (Config { contracts: config.contracts, ..self }),
            config.contracts@ == self.contracts@.push(contract),
    {
        let mut config = self;
        config.contracts.push(contract);
        config
    }

    /// Adds a statement to run against the user's tables at a reset.
    pub fn add_reset_query(self, reset_query: &str) -> (config: Self)
        ensures
            config == (Config { reset_queries: config.reset_queries, ..self }),
            config.reset_queries@.len() == self.reset_queries@.len() + 1,
            config.reset_queries@.drop_last() == self.reset_queries@,
            config.reset_queries@.last()@ == reset_query@,
    {
        let mut config = self;
        config.reset_queries.push(String::from_str(reset_query));
        config
    }

    /// Sets the reset epoch: a store that stands at a lower one is reset at
    /// boot.
    pub fn reset(self, count: u8) -> (config: Self)
        ensures
            config == (Config { reset_count: count, ..self }),
    {
        let mut config = self;
        config.reset_count = count;
        config
    }

    /// Sets the state that the handlers share.
    pub fn with_initial_state(self, initial_state: SharedState) -> (config: Self)
        ensures
            config == (Config { shared_state: Some(initial_state), ..self }),
    {
        let mut config = self;
        config.shared_state = Some(initial_state);
        config
    }

    /// Sets the depth below the head from which a block counts as final.
    pub fn with_min_confirmation_count(self, min_confirmation_count: u8) -> (config: Self)
        ensures
            config == (Config {
                min_confirmation_count: MinConfirmationCount { value: min_confirmation_count },
                ..self
            }),
    {
        let mut config = self;
        config.min_confirmation_count = MinConfirmationCount::new(min_confirmation_count);
        config
    }

    /// Sets the widest range of blocks that one request for logs spans.
    pub fn with_blocks_per_batch(self, blocks_per_batch: u64) -> (config: Self)
        ensures
            config == (Config { blocks_per_batch, ..self }),
    {
        let mut config = self;
        config.blocks_per_batch = blocks_per_batch;
        config
    }

    /// Sets the time between two handler ticks.
    pub fn with_handler_rate_ms(self, handler_rate_ms: u64) -> (config: Self)
        ensures
            config == (Config { handler_rate_ms, ..self }),
    {
        let mut config = self;
        config.handler_rate_ms = handler_rate_ms;
        config
    }

    /// Sets the time between two ingester ticks.
    pub fn with_ingestion_rate_ms(self, ingestion_rate_ms: u64) -> (config: Self)
        ensures
            config == (Config { ingestion_rate_ms, ..self }),
    {
        let mut config = self;
        config.ingestion_rate_ms = ingestion_rate_ms;
        config
    }

    /// Sets the time between two heartbeats, which is also the time between
    /// two elections.
    pub fn with_node_election_rate_ms(self, node_election_rate_ms: u64) -> (config: Self)
        ensures
            config == (Config { node_election_rate_ms: Some(node_election_rate_ms), ..self }),
    {
        let mut config = self;
        config.node_election_rate_ms = Some(node_election_rate_ms);
        config
    }

    /// Sets the bound on the number of nodes that index at the same time.
    pub fn with_max_concurrent_node_count(self, max_concurrent_node_count: u16) -> (config: Self)
        ensures
            config == (Config { max_concurrent_node_count, ..self }),
    {
        let mut config = self;
        config.max_concurrent_node_count = max_concurrent_node_count;
        config
    }

    /// Lets an elected node stop working while nobody asks for fresh data.
    /// The caller then has to renew the configuration's request whenever
    /// fresh data is wanted, for instance when a user opens a page that
    /// shows indexed state.
    pub fn enable_optimization(self, optimization_config: &OptimizationConfig) -> (config: Self)
        ensures
            config == (Config { optimization_config: Some(*optimization_config), ..self }),
    {
        let mut config = self;
        config.optimization_config = Some(*optimization_config);
        config
    }

    /// Whether an elected node may stop working while nobody asks for fresh
    /// data.
    pub fn is_optimization_enabled(&self) -> (enabled: bool)
        ensures
            enabled == self.optimization_config is Some,
    {
        self.optimization_config.is_some()
    }

    /// The time between two elections: the one that was set, else the time
    /// between two ingester ticks.
    pub fn get_node_election_rate_ms(&self) -> (rate: u64)
        ensures
            rate == match self.node_election_rate_ms {
                Some(rate) => rate,
                None => self.ingestion_rate_ms,
            },
    {
        match self.node_election_rate_ms {
            Some(rate) => rate,
            None => self.ingestion_rate_ms,
        }
    }

    /// What `validate` answers.
    pub open spec fn validated(self) -> Result<(), ConfigError> {
        if self.contracts@.len() == 0 {
            Err(ConfigError::NoContract)
        } else if self.chains@.len() == 0 {
            Err(ConfigError::NoChain)
        } else {
            Ok(())
        }
    }

    /// Accepts a configuration with at least one contract and at least one
    /// chain. Without a contract the answer is `NoContract`, whatever the
    /// chains; with contracts and without a chain it is `NoChain`.
    pub fn validate(&self) -> (outcome: Result<(), ConfigError>)
        ensures
            outcome == self.validated(),
    {
        if self.contracts.is_empty() {
            Err(ConfigError::NoContract)
        } else if self.chains.is_empty() {
            Err(ConfigError::NoChain)
        } else {
            Ok(())
        }
    }
}

} // verus!
