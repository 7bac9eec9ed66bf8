use chaindexing::chain_reorg::{MinConfirmationCount, ReorgedBlock, UnsavedReorgedBlock};
use chaindexing::contracts::{Contract, ContractAddress, ContractEvent, UnsavedContractAddress};
use chaindexing::events::{DecodedLog, Event, FetchedLog, Log};
use chaindexing::ingester::{get_batch, get_batch_window, BlockRange};
use chaindexing::repos::Store;

const ARBITRUM: u64 = 42161;
const MAINNET: u64 = 1;

const PING: &str = "event Ping()";
const PING_TOPIC: &str = "0xca6e822df923f741dfe968d15d80a18abd25bd1e748bcb9ad81fea5bbb7386af";

fn log(address: &str, block_number: u64, block_hash: &str, tx: &str, log_index: u64) -> Log {
    Log {
        address: address.to_string(),
        topics: vec![PING_TOPIC.to_string()],
        data: "0x".to_string(),
        block_hash: block_hash.to_string(),
        block_number,
        transaction_hash: tx.to_string(),
        transaction_index: 0,
        log_index,
        removed: false,
    }
}

fn decoded() -> DecodedLog {
    DecodedLog {
        contract_name: "Token".to_string(),
        abi_signature: PING.to_string(),
        log_params: vec![],
    }
}

fn fetched(address: &str, block_number: u64, block_hash: &str, tx: &str) -> FetchedLog {
    FetchedLog { log: log(address, block_number, block_hash, tx, 0), log_params: Some(vec![]) }
}

fn contracts() -> Vec<Contract> {
    vec![
        Contract::new("Token").add_event(ContractEvent::new(PING, PING_TOPIC)),
        Contract::new("Other").add_event(ContractEvent::new(PING, PING_TOPIC)),
    ]
}

fn known(address: &str) -> Vec<ContractAddress> {
    let mut store = Store::new();
    store.create_contract_address(&UnsavedContractAddress::new("Token", address, &ARBITRUM, 0));
    store.get_all_contract_addresses()
}

fn row(id: u64, cursor: u64) -> ContractAddress {
    ContractAddress {
        id,
        chain_id: ARBITRUM,
        next_block_number_to_ingest_from: cursor,
        next_block_number_to_handle_from: 0,
        next_block_number_for_side_effects: 0,
        start_block_number: 0,
        address: format!("0x{:02x}", id),
        contract_name: "Token".to_string(),
    }
}

fn blocks(store: &Store) -> Vec<(u64, u64)> {
    store.get_all_events().iter().map(|event| (event.chain_id, event.block_number)).collect()
}

fn cursors(store: &Store) -> Vec<u64> {
    store
        .get_all_contract_addresses()
        .iter()
        .map(|row| row.next_block_number_to_ingest_from)
        .collect()
}

#[test]
fn safe_head_lies_the_confirmation_depth_below_the_head() {
    let depth = MinConfirmationCount::new(40);
    assert_eq!(depth.value, 40);
    assert_eq!(depth.safe_head(1_000), Some(960));
    assert_eq!(depth.safe_head(40), Some(0));
    assert_eq!(depth.safe_head(39), None);
    assert_eq!(depth.safe_head(0), None);
    assert_eq!(depth.safe_head(u64::MAX), Some(u64::MAX - 40));
    assert_eq!(MinConfirmationCount::new(0).safe_head(0), Some(0));
    assert_eq!(MinConfirmationCount::new(255).safe_head(255), Some(0));
}

#[test]
fn batch_window_starts_at_the_lowest_cursor() {
    let page = vec![row(1, 500), row(2, 120), row(3, 300)];
    assert_eq!(
        get_batch_window(&page, 100, Some(1_000)),
        Some(BlockRange { from: 120, to: 219 })
    );
    assert_eq!(
        get_batch_window(&page, 10_000, Some(1_000)),
        Some(BlockRange { from: 120, to: 1_000 })
    );
    assert_eq!(get_batch_window(&page, 1, Some(1_000)), Some(BlockRange { from: 120, to: 120 }));
    assert_eq!(get_batch_window(&page, 100, Some(120)), Some(BlockRange { from: 120, to: 120 }));
    assert_eq!(
        get_batch_window(&page, 881, Some(1_000)),
        Some(BlockRange { from: 120, to: 1_000 })
    );
    assert_eq!(get_batch_window(&page, 880, Some(1_000)), Some(BlockRange { from: 120, to: 999 }));
}

#[test]
fn batch_window_is_skipped_where_there_is_nothing_to_fetch() {
    let page = vec![row(1, 500), row(2, 120)];
    assert_eq!(get_batch_window(&page, 100, Some(119)), None);
    assert_eq!(get_batch_window(&page, 100, None), None);
    assert_eq!(get_batch_window(&page, 0, Some(1_000)), None);
    assert_eq!(get_batch_window(&vec![], 100, Some(1_000)), None);
}

#[test]
fn batch_window_does_not_overflow_at_the_limits() {
    let page = vec![row(1, u64::MAX - 1)];
    assert_eq!(
        get_batch_window(&page, u64::MAX, Some(u64::MAX)),
        Some(BlockRange { from: u64::MAX - 1, to: u64::MAX })
    );
    assert_eq!(
        get_batch_window(&vec![row(1, 0)], u64::MAX, Some(u64::MAX)),
        Some(BlockRange { from: 0, to: u64::MAX - 1 })
    );
}

#[test]
fn batch_holds_the_addresses_that_share_the_cursor() {
    let page = vec![row(1, 500), row(2, 120), row(3, 120), row(4, 121)];
    let batch = get_batch(&page, 120);
    assert_eq!(batch.iter().map(|row| row.id).collect::<Vec<u64>>(), vec![2, 3]);
    assert!(get_batch(&page, 7).is_empty());
}

#[test]
fn detect_reorg_finds_nothing_in_logs_that_agree_with_the_store() {
    let mut store = Store::new();
    store.create_events(&vec![Event::new(
        1,
        &ARBITRUM,
        &log("0x01", 100, "0xaa", "0x1", 0),
        &decoded(),
    )]);
    let logs = vec![
        fetched("0x02", 100, "0xaa", "0x2"),
        fetched("0x02", 101, "0xbb", "0x3"),
    ];
    assert_eq!(store.detect_reorg(ARBITRUM, &logs), None);
    assert_eq!(store.detect_reorg(ARBITRUM, &vec![]), None);
}

#[test]
fn detect_reorg_finds_the_lowest_block_that_was_rewritten() {
    let mut store = Store::new();
    store.create_events(&vec![
        Event::new(1, &ARBITRUM, &log("0x01", 100, "0xaa", "0x1", 0), &decoded()),
        Event::new(2, &ARBITRUM, &log("0x01", 105, "0xbb", "0x2", 0), &decoded()),
        Event::new(3, &MAINNET, &log("0x01", 90, "0xcc", "0x3", 0), &decoded()),
    ]);
    let mut removed = fetched("0x02", 103, "0xdd", "0x4");
    removed.log.removed = true;

    let logs = vec![fetched("0x02", 105, "0xb2", "0x5"), fetched("0x02", 100, "0xaa", "0x6")];
    assert_eq!(store.detect_reorg(ARBITRUM, &logs), Some(105));

    let logs = vec![
        fetched("0x02", 105, "0xb2", "0x5"),
        removed,
        fetched("0x02", 100, "0xaa", "0x6"),
    ];
    assert_eq!(store.detect_reorg(ARBITRUM, &logs), Some(103));

    // Another chain's events at the same block do not count.
    let logs = vec![fetched("0x02", 90, "0xc2", "0x7")];
    assert_eq!(store.detect_reorg(ARBITRUM, &logs), None);
    assert_eq!(store.detect_reorg(MAINNET, &logs), Some(90));
}

#[test]
fn ingest_inserts_events_and_advances_the_batch() {
    let mut store = Store::new();
    store.upsert_contract_addresses(&vec![
        UnsavedContractAddress::new("Token", "0x01", &ARBITRUM, 100),
        UnsavedContractAddress::new("Token", "0x02", &ARBITRUM, 100),
        UnsavedContractAddress::new("Token", "0x03", &ARBITRUM, 300),
    ]);
    let page = store.get_all_contract_addresses();
    let window = get_batch_window(&page, 50, Some(1_000)).unwrap();
    assert_eq!(window, BlockRange { from: 100, to: 149 });
    let batch = get_batch(&page, window.from);

    let mut undecodable = fetched("0x02", 120, "0xbb", "0x2");
    undecodable.log_params = None;
    let logs = vec![
        fetched("0x01", 100, "0xaa", "0x1"),
        undecodable,
        fetched("0x02", 149, "0xcc", "0x3"),
    ];
    let point = store.ingest_logs(ARBITRUM, &batch, window.to, &logs, &contracts());

    assert_eq!(point, None);
    assert_eq!(blocks(&store), vec![(ARBITRUM, 100), (ARBITRUM, 149)]);
    assert_eq!(cursors(&store), vec![150, 150, 300]);
    assert!(store.get_unhandled_reorged_blocks(ARBITRUM).is_empty());
}

#[test]
fn ingest_absent_a_reorg_only_appends() {
    let mut store = Store::new();
    store.upsert_contract_addresses(&vec![UnsavedContractAddress::new(
        "Token", "0x01", &ARBITRUM, 100,
    )]);
    let batch = store.get_all_contract_addresses();
    store.ingest_logs(
        ARBITRUM,
        &batch,
        109,
        &vec![fetched("0x01", 100, "0xaa", "0x1"), fetched("0x01", 104, "0xbb", "0x2")],
        &contracts(),
    );
    let before: Vec<u128> = store.get_all_events().iter().map(|event| event.id).collect();

    let batch = store.get_all_contract_addresses();
    store.ingest_logs(
        ARBITRUM,
        &batch,
        119,
        &vec![fetched("0x01", 110, "0xcc", "0x3"), fetched("0x01", 110, "0xcc", "0x4")],
        &contracts(),
    );
    let after = store.get_all_events();
    assert_eq!(after.len(), 4);
    assert_eq!(
        after.iter().take(2).map(|event| event.id).collect::<Vec<u128>>(),
        before
    );
    for added in after.iter().skip(2) {
        for old in after.iter().take(2) {
            assert!((old.block_number, old.log_index) < (added.block_number, added.log_index));
        }
    }
}

#[test]
fn ingest_after_a_conflicting_block_hash_rewinds_the_store() {
    let mut store = Store::new();
    store.upsert_contract_addresses(&vec![
        UnsavedContractAddress::new("Token", "0x01", &ARBITRUM, 100),
        UnsavedContractAddress::new("Other", "0x02", &ARBITRUM, 105),
    ]);
    let rows = store.get_all_contract_addresses();
    let first = vec![rows[0].clone()];
    let logs: Vec<FetchedLog> = (100..=110u64)
        .map(|block| fetched("0x01", block, &format!("0xhash{}", block), &format!("0xtx{}", block)))
        .collect();
    assert_eq!(store.ingest_logs(ARBITRUM, &first, 110, &logs, &contracts()), None);
    assert_eq!(blocks(&store).len(), 11);
    store.commit_handled_events(&rows[0], &store.get_events_to_handle(&rows[0], 1_000));
    assert_eq!(store.get_all_contract_addresses()[0].next_block_number_to_handle_from, 111);

    let second = vec![rows[1].clone()];
    let conflicting = vec![fetched("0x02", 105, "0xother", "0xtx-new")];
    let point = store.ingest_logs(ARBITRUM, &second, 110, &conflicting, &contracts());

    assert_eq!(point, Some(105));
    assert_eq!(
        blocks(&store),
        vec![
            (ARBITRUM, 100),
            (ARBITRUM, 101),
            (ARBITRUM, 102),
            (ARBITRUM, 103),
            (ARBITRUM, 104),
            (ARBITRUM, 105),
        ]
    );
    let events = store.get_all_events();
    assert_eq!(events[5].block_hash, "0xother");
    assert_eq!(events[5].contract_address, "0x02");
    assert_eq!(
        store.get_unhandled_reorged_blocks(ARBITRUM),
        vec![ReorgedBlock { id: 1, block_number: 105, chain_id: ARBITRUM, handled_at: None }]
    );
    assert_eq!(cursors(&store), vec![111, 111]);

    // The next handler tick rewinds the handlers.
    assert_eq!(store.rewind_handlers(ARBITRUM, 77), Some(105));
    let rows = store.get_all_contract_addresses();
    assert_eq!(rows[0].next_block_number_to_handle_from, 105);
    assert_eq!(rows[1].next_block_number_to_handle_from, 105);
    assert!(store.get_unhandled_reorged_blocks(ARBITRUM).is_empty());
    assert_eq!(store.rewind_handlers(ARBITRUM, 78), None);
}

#[test]
fn ingest_of_a_removed_log_rewinds_the_store() {
    let mut store = Store::new();
    store.create_events(&vec![
        Event::new(1, &ARBITRUM, &log("0x01", 100, "0xaa", "0x1", 0), &decoded()),
        Event::new(2, &ARBITRUM, &log("0x01", 101, "0xbb", "0x2", 0), &decoded()),
        Event::new(3, &MAINNET, &log("0x01", 101, "0xbb", "0x3", 0), &decoded()),
    ]);
    let mut removed = fetched("0x01", 101, "0xbb", "0x2");
    removed.log.removed = true;
    let point = store.ingest_logs(ARBITRUM, &known("0x01"), 101, &vec![removed], &contracts());
    assert_eq!(point, Some(101));
    let events = store.get_all_events();
    assert_eq!(
        events
            .iter()
            .map(|event| (event.chain_id, event.block_number, event.removed))
            .collect::<Vec<_>>(),
        vec![(ARBITRUM, 100, false), (MAINNET, 101, false), (ARBITRUM, 101, true)]
    );
}

#[test]
fn ingest_holds_back_what_the_provider_did_not_return() {
    let mut store = Store::new();
    store.create_events(&vec![
        Event::new(1, &ARBITRUM, &log("0x01", 100, "0xaa", "0x1", 0), &decoded()),
        Event::new(2, &ARBITRUM, &log("0x01", 130, "0xbb", "0x2", 0), &decoded()),
        Event::new(3, &ARBITRUM, &log("0x01", 140, "0xcc", "0x3", 0), &decoded()),
    ]);
    // The head fell back to 160 with a depth of 40: the safe head is 120.
    let safe_head = MinConfirmationCount::new(40).safe_head(160).unwrap();
    let logs = vec![fetched("0x01", 130, "0xb2", "0x9")];
    let returned: Vec<String> = logs.iter().map(|log| log.log.transaction_hash.clone()).collect();
    store.ingest_logs(ARBITRUM, &known("0x01"), safe_head, &logs, &contracts());
    for event in store.get_all_events() {
        assert!(event.block_number <= safe_head || returned.contains(&event.transaction_hash));
    }
    assert_eq!(blocks(&store), vec![(ARBITRUM, 100), (ARBITRUM, 130)]);
}

#[test]
fn create_reorged_block_stores_the_finding_unhandled() {
    let mut store = Store::new();
    store.create_reorged_block(&UnsavedReorgedBlock::new(105, &ARBITRUM));
    store.create_reorged_block(&UnsavedReorgedBlock::new(7, &MAINNET));
    assert_eq!(
        store.get_unhandled_reorged_blocks(ARBITRUM),
        vec![ReorgedBlock { id: 1, block_number: 105, chain_id: ARBITRUM, handled_at: None }]
    );
    assert_eq!(
        store.get_unhandled_reorged_blocks(MAINNET),
        vec![ReorgedBlock { id: 2, block_number: 7, chain_id: MAINNET, handled_at: None }]
    );
    store.mark_reorged_blocks_as_handled(ARBITRUM, 55);
    assert!(store.get_unhandled_reorged_blocks(ARBITRUM).is_empty());
    assert_eq!(store.get_unhandled_reorged_blocks(MAINNET).len(), 1);
}
