use chaindexing::config::{Config, ConfigError, OptimizationConfig};
use chaindexing::contracts::Contract;
use chaindexing::nodes::KeepNodeActiveRequest;
use chaindexing::pruning::PruningConfig;
use chaindexing::repos::postgres_repo::PostgresRepo;

fn repo() -> PostgresRepo {
    PostgresRepo::new("postgres://localhost/indexer")
}

#[test]
fn new_config_has_the_defaults() {
    let config = Config::<u32>::new(repo());
    assert_eq!(config.repo.url, "postgres://localhost/indexer");
    assert!(config.chains.is_empty());
    assert!(config.contracts.is_empty());
    assert_eq!(config.min_confirmation_count.value, 40);
    assert_eq!(config.blocks_per_batch, 10_000);
    assert_eq!(config.handler_rate_ms, 4_000);
    assert_eq!(config.ingestion_rate_ms, 30_000);
    assert_eq!(config.node_election_rate_ms, None);
    assert_eq!(config.get_node_election_rate_ms(), 30_000);
    assert_eq!(config.reset_count, 0);
    assert!(config.reset_queries.is_empty());
    assert_eq!(config.shared_state, None);
    assert_eq!(config.max_concurrent_node_count, 50);
    assert!(config.optimization_config.is_none());
    assert!(!config.is_optimization_enabled());
}

#[test]
fn builders_set_what_they_name() {
    let request = KeepNodeActiveRequest::new(5_000, 10);
    let config = Config::<u32>::new(repo())
        .add_chain(1, "https://eth.example")
        .add_chain(42161, "https://arb.example")
        .add_chain(1, "https://eth-2.example")
        .add_contract(Contract::new("Token").add_address("0xAA", &1, 17))
        .add_reset_query("DELETE FROM balances")
        .add_reset_query("DELETE FROM holders")
        .reset(3)
        .with_initial_state(99)
        .with_min_confirmation_count(12)
        .with_blocks_per_batch(500)
        .with_handler_rate_ms(1_000)
        .with_ingestion_rate_ms(2_000)
        .with_node_election_rate_ms(3_000)
        .with_max_concurrent_node_count(7)
        .enable_optimization(&OptimizationConfig {
            keep_node_active_request: request,
            optimize_after_in_secs: 600,
        });

    assert_eq!(config.chains.len(), 2);
    assert_eq!(config.chains[&1], "https://eth-2.example");
    assert_eq!(config.chains[&42161], "https://arb.example");
    assert_eq!(config.contracts.len(), 1);
    assert_eq!(config.contracts[0].name, "Token");
    assert_eq!(config.contracts[0].addresses.len(), 1);
    assert_eq!(config.contracts[0].addresses[0].address, "0xaa");
    assert_eq!(config.contracts[0].addresses[0].contract_name, "Token");
    assert_eq!(config.contracts[0].addresses[0].chain_id, 1);
    assert_eq!(config.contracts[0].addresses[0].start_block_number, 17);
    assert_eq!(config.contracts[0].get_addresses().len(), 1);
    assert_eq!(
        config.reset_queries,
        vec!["DELETE FROM balances".to_string(), "DELETE FROM holders".to_string()]
    );
    assert_eq!(config.reset_count, 3);
    assert_eq!(config.shared_state, Some(99));
    assert_eq!(config.min_confirmation_count.value, 12);
    assert_eq!(config.blocks_per_batch, 500);
    assert_eq!(config.handler_rate_ms, 1_000);
    assert_eq!(config.ingestion_rate_ms, 2_000);
    assert_eq!(config.node_election_rate_ms, Some(3_000));
    assert_eq!(config.get_node_election_rate_ms(), 3_000);
    assert_eq!(config.max_concurrent_node_count, 7);
    assert!(config.is_optimization_enabled());
    let optimization = config.optimization_config.unwrap();
    assert_eq!(optimization.optimize_after_in_secs, 600);
    assert_eq!(optimization.keep_node_active_request, request);
}

#[test]
fn validate_asks_for_a_contract_first_and_then_for_a_chain() {
    let empty = Config::<()>::new(repo());
    assert!(empty.validate() == Err(ConfigError::NoContract));

    let chain_only = Config::<()>::new(repo()).add_chain(1, "https://eth.example");
    assert!(chain_only.validate() == Err(ConfigError::NoContract));

    let contract_only = Config::<()>::new(repo()).add_contract(Contract::new("Token"));
    assert!(contract_only.validate() == Err(ConfigError::NoChain));

    let both = Config::<()>::new(repo())
        .add_contract(Contract::new("Token"))
        .add_chain(1, "https://eth.example");
    assert!(both.validate() == Ok(()));
}

#[test]
fn pruning_defaults() {
    let config = PruningConfig::default();
    assert_eq!(config.prune_n_blocks_away, 1_000);
    assert_eq!(config.prune_interval, 43_200);
}

#[test]
fn min_block_number_lies_the_pruning_distance_behind() {
    let config = PruningConfig::default();
    assert_eq!(config.get_min_block_number(5_000), 4_000);
    assert_eq!(config.get_min_block_number(1_000), 0);
    assert_eq!(config.get_min_block_number(999), 999);
    assert_eq!(config.get_min_block_number(0), 0);
    assert_eq!(config.get_min_block_number(u64::MAX), u64::MAX - 1_000);
    let none = PruningConfig { prune_n_blocks_away: 0, prune_interval: 1 };
    assert_eq!(none.get_min_block_number(17), 17);
}
