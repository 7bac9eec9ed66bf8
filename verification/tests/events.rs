use chaindexing::contracts::{Contract, ContractAddress, ContractEvent};
use chaindexing::events::{
    decode, get, match_log, DecodedLog, Event, EventParam, FetchedLog, Log, ID_KIND_MASK,
    RANDOM_ID_KIND,
};
use chaindexing::repos::Store;

const ARBITRUM: u64 = 42161;
const MAINNET: u64 = 1;

const TRANSFER: &str = "event Transfer(address indexed from, address indexed to, uint256 value)";
const TRANSFER_TOPIC: &str = "0xddf252ad1be2c89b69c2b068fc378daa952ba7f163c4a11628f55a4df523b3ef";
const APPROVAL: &str =
    "event Approval(address indexed owner, address indexed spender, uint256 value)";
const APPROVAL_TOPIC: &str = "0x8c5be1e5ebec7d5bd14f71427d1e84f3dd0314c0f7b2291e5b200ac8c7c3b925";
const ALICE: &str = "0x000000000000000000000000a1a1a1a1a1a1a1a1a1a1a1a1a1a1a1a1a1a1a1a1";
const BOB: &str = "0x000000000000000000000000b2b2b2b2b2b2b2b2b2b2b2b2b2b2b2b2b2b2b2b2";
const THOUSAND: &str = "0x00000000000000000000000000000000000000000000000000000000000003e8";
const TOKEN: &str = "0x8a90CAb2b38dba80c64b7734e58Ee1dB38B8992e";

fn log(address: &str, block_number: u64, transaction_hash: &str, log_index: u64) -> Log {
    Log {
        address: address.to_string(),
        topics: vec![TRANSFER_TOPIC.to_string(), ALICE.to_string(), BOB.to_string()],
        data: THOUSAND.to_string(),
        block_hash: format!("0xhash{}", block_number),
        block_number,
        transaction_hash: transaction_hash.to_string(),
        transaction_index: 3,
        log_index,
        removed: false,
    }
}

fn param(name: &str, value: &str) -> EventParam {
    EventParam { name: name.to_string(), value: value.to_string() }
}

fn params(event: &Event) -> Vec<(String, String)> {
    event.log_params.iter().map(|param| (param.name.clone(), param.value.clone())).collect()
}

fn transfer_params() -> Vec<(String, String)> {
    vec![
        ("from".to_string(), "a1a1a1a1a1a1a1a1a1a1a1a1a1a1a1a1a1a1a1a1".to_string()),
        ("to".to_string(), "b2b2b2b2b2b2b2b2b2b2b2b2b2b2b2b2b2b2b2b2".to_string()),
        ("value".to_string(), "3e8".to_string()),
    ]
}

fn fetched(address: &str, block_number: u64, transaction_hash: &str, log_index: u64) -> FetchedLog {
    FetchedLog {
        log: log(address, block_number, transaction_hash, log_index),
        log_params: Some(
            transfer_params().iter().map(|(name, value)| param(name, value)).collect(),
        ),
    }
}

fn decoded() -> DecodedLog {
    DecodedLog {
        contract_name: "Token".to_string(),
        abi_signature: TRANSFER.to_string(),
        log_params: vec![param("value", "1")],
    }
}

fn token() -> Contract {
    Contract::new("Token")
        .add_address(TOKEN, &ARBITRUM, 0)
        .add_event(ContractEvent::new(APPROVAL, APPROVAL_TOPIC))
        .add_event(ContractEvent::new(TRANSFER, TRANSFER_TOPIC))
}

fn registry(contracts: &[Contract]) -> Vec<ContractAddress> {
    let mut store = Store::new();
    for contract in contracts {
        store.upsert_contract_addresses(&contract.get_addresses());
    }
    store.get_all_contract_addresses()
}

fn event(
    id: u128,
    chain_id: u64,
    address: &str,
    block_number: u64,
    tx: &str,
    log_index: u64,
) -> Event {
    Event::new(id, &chain_id, &log(address, block_number, tx, log_index), &decoded())
}

fn ids(events: &[Event]) -> Vec<u128> {
    events.iter().map(|event| event.id).collect()
}

#[test]
fn new_event_takes_over_the_log_and_case_folds_the_address() {
    let event = event(7, ARBITRUM, "0xAbC", 12, "0xTX", 4);
    assert_eq!(event.id, 7);
    assert_eq!(event.chain_id, ARBITRUM);
    assert_eq!(event.contract_address, "0xabc");
    assert_eq!(event.contract_name, "Token");
    assert_eq!(
        event.abi_signature,
        "event Transfer(address indexed from, address indexed to, uint256 value)"
    );
    assert_eq!(params(&event), vec![("value".to_string(), "1".to_string())]);
    assert_eq!(
        event.topics,
        vec![TRANSFER_TOPIC.to_string(), ALICE.to_string(), BOB.to_string()]
    );
    assert_eq!(event.block_hash, "0xhash12");
    assert_eq!(event.block_number, 12);
    assert_eq!(event.transaction_hash, "0xTX");
    assert_eq!(event.transaction_index, 3);
    assert_eq!(event.log_index, 4);
    assert!(!event.removed);
    assert_eq!(event.get_chain_id(), ARBITRUM);
    assert_eq!(event.get_block_number(), 12);
}

#[test]
fn contract_event_holds_abi_and_topic() {
    let transfer = ContractEvent::new(TRANSFER, TRANSFER_TOPIC);
    assert_eq!(transfer.abi, TRANSFER);
    assert_eq!(transfer.topic, TRANSFER_TOPIC);
    let contract = token();
    assert_eq!(contract.name, "Token");
    assert_eq!(contract.events.len(), 2);
    assert_eq!(contract.events[0].abi, APPROVAL);
    assert_eq!(contract.events[1].topic, TRANSFER_TOPIC);
    assert_eq!(contract.addresses.len(), 1);
}

#[test]
fn match_log_finds_contract_and_event() {
    let contracts = vec![token()];
    let rows = registry(&contracts);
    let matched = match_log(&log(TOKEN, 10, "0xa", 0), &ARBITRUM, &rows, &contracts).unwrap();
    assert_eq!(matched.contract_name, "Token");
    assert_eq!(matched.abi_signature, TRANSFER);

    let mut approval = log(TOKEN, 10, "0xa", 0);
    approval.topics[0] = APPROVAL_TOPIC.to_string();
    let matched = match_log(&approval, &ARBITRUM, &rows, &contracts).unwrap();
    assert_eq!(matched.abi_signature, APPROVAL);
}

#[test]
fn match_log_finds_the_emitter_whatever_its_case() {
    let contracts = vec![token()];
    let rows = registry(&contracts);
    let upper = TOKEN.to_uppercase().replace("0X", "0x");
    assert!(match_log(&log(&upper, 10, "0xa", 0), &ARBITRUM, &rows, &contracts).is_some());
    assert!(
        match_log(&log(&TOKEN.to_lowercase(), 10, "0xa", 0), &ARBITRUM, &rows, &contracts).is_some()
    );
}

#[test]
fn match_log_skips_what_is_not_configured() {
    let contracts = vec![token()];
    let rows = registry(&contracts);

    // Another chain, another emitter.
    assert!(match_log(&log(TOKEN, 10, "0xa", 0), &MAINNET, &rows, &contracts).is_none());
    assert!(match_log(&log("0x01", 10, "0xa", 0), &ARBITRUM, &rows, &contracts).is_none());

    // No topic, an unknown topic.
    let mut anonymous = log(TOKEN, 10, "0xa", 0);
    anonymous.topics = vec![];
    assert!(match_log(&anonymous, &ARBITRUM, &rows, &contracts).is_none());
    let mut unknown = log(TOKEN, 10, "0xa", 0);
    unknown.topics[0] = ALICE.to_string();
    assert!(match_log(&unknown, &ARBITRUM, &rows, &contracts).is_none());

    // No contract of the name that the registry holds.
    let renamed =
        vec![Contract::new("Other").add_event(ContractEvent::new(TRANSFER, TRANSFER_TOPIC))];
    assert!(match_log(&log(TOKEN, 10, "0xa", 0), &ARBITRUM, &rows, &renamed).is_none());
    assert!(match_log(&log(TOKEN, 10, "0xa", 0), &ARBITRUM, &rows, &vec![]).is_none());
    assert!(match_log(&log(TOKEN, 10, "0xa", 0), &ARBITRUM, &vec![], &contracts).is_none());
}

#[test]
fn match_log_takes_the_first_contract_and_the_first_event_that_match() {
    let unnamed = "event Transfer(address indexed, address indexed, uint256)";
    let first = Contract::new("Token")
        .add_address(TOKEN, &ARBITRUM, 0)
        .add_event(ContractEvent::new(unnamed, TRANSFER_TOPIC))
        .add_event(ContractEvent::new(TRANSFER, TRANSFER_TOPIC));
    let second = Contract::new("Token").add_event(ContractEvent::new(TRANSFER, TRANSFER_TOPIC));
    let contracts = vec![first, second];
    let rows = registry(&contracts);
    let matched = match_log(&log(TOKEN, 10, "0xa", 0), &ARBITRUM, &rows, &contracts).unwrap();
    assert_eq!(matched.abi_signature, unnamed);
}

#[test]
fn decode_joins_the_event_and_the_parameters_of_a_log() {
    let contracts = vec![token()];
    let rows = registry(&contracts);
    let decoded = decode(&fetched(TOKEN, 10, "0xa", 0), &ARBITRUM, &rows, &contracts).unwrap();
    assert_eq!(decoded.contract_name, "Token");
    assert_eq!(decoded.abi_signature, TRANSFER);
    assert_eq!(
        decoded
            .log_params
            .iter()
            .map(|param| (param.name.clone(), param.value.clone()))
            .collect::<Vec<_>>(),
        transfer_params()
    );

    let mut without_params = fetched(TOKEN, 10, "0xa", 0);
    without_params.log_params = None;
    assert!(decode(&without_params, &ARBITRUM, &rows, &contracts).is_none());
    assert!(decode(&fetched("0x01", 10, "0xa", 0), &ARBITRUM, &rows, &contracts).is_none());
}

#[test]
fn get_skips_the_logs_that_cannot_be_decoded() {
    let contracts = vec![token()];
    let rows = registry(&contracts);
    let mut undecodable = fetched(TOKEN, 11, "0xb", 0);
    undecodable.log_params = None;
    let logs = vec![
        fetched(TOKEN, 10, "0xa", 0),
        undecodable,
        fetched("0x01", 11, "0xd", 0),
        fetched(TOKEN, 12, "0xc", 1),
    ];
    let events = get(&logs, &ARBITRUM, &rows, &contracts);
    assert_eq!(events.len(), 2);
    assert_eq!(events[0].transaction_hash, "0xa");
    assert_eq!(events[0].block_number, 10);
    assert_eq!(events[0].contract_name, "Token");
    assert_eq!(events[0].abi_signature, TRANSFER);
    assert_eq!(params(&events[0]), transfer_params());
    assert_eq!(events[1].transaction_hash, "0xc");
    assert_eq!(events[1].contract_address, TOKEN.to_lowercase());
    assert_eq!(events[1].chain_id, ARBITRUM);
    assert_eq!(events[1].log_index, 1);
}

#[test]
fn get_gives_every_event_a_random_id_of_its_own() {
    let contracts = vec![token()];
    let rows = registry(&contracts);
    let logs = vec![fetched(TOKEN, 10, "0xa", 0), fetched(TOKEN, 10, "0xa", 1)];
    let events = get(&logs, &ARBITRUM, &rows, &contracts);
    let again = get(&logs, &ARBITRUM, &rows, &contracts);
    assert_eq!(events.len(), 2);
    assert_ne!(events[0].id, events[1].id);
    assert_ne!(events[0].id, again[0].id);
    for event in events.iter().chain(again.iter()) {
        assert_eq!(event.id & ID_KIND_MASK, RANDOM_ID_KIND);
        assert_eq!((event.id >> 76) & 0xf, 4);
        assert_eq!((event.id >> 62) & 0x3, 2);
    }
}

#[test]
fn create_events_appends_in_order() {
    let mut store = Store::new();
    store.create_events(&vec![
        event(1, ARBITRUM, "0x01", 10, "0xa", 0),
        event(2, ARBITRUM, "0x01", 10, "0xa", 1),
    ]);
    store.create_events(&vec![event(3, ARBITRUM, "0x01", 11, "0xb", 0)]);
    assert_eq!(ids(&store.get_all_events()), vec![1, 2, 3]);
}

#[test]
fn create_events_drops_an_event_of_a_stored_log() {
    let mut store = Store::new();
    store.create_events(&vec![event(1, ARBITRUM, "0x01", 10, "0xa", 0)]);
    store.create_events(&vec![
        event(2, ARBITRUM, "0x01", 10, "0xa", 0),
        event(3, MAINNET, "0x01", 10, "0xa", 0),
        event(4, ARBITRUM, "0x01", 10, "0xa", 1),
        event(5, ARBITRUM, "0x01", 10, "0xb", 0),
    ]);
    assert_eq!(ids(&store.get_all_events()), vec![1, 3, 4, 5]);
}

#[test]
fn create_events_drops_an_event_with_a_stored_id() {
    let mut store = Store::new();
    store.create_events(&vec![
        event(1, ARBITRUM, "0x01", 10, "0xa", 0),
        event(1, ARBITRUM, "0x01", 11, "0xb", 0),
    ]);
    let events = store.get_all_events();
    assert_eq!(ids(&events), vec![1]);
    assert_eq!(events[0].transaction_hash, "0xa");
}

#[test]
fn replaying_a_batch_of_logs_changes_nothing() {
    let contracts = vec![token()];
    let rows = registry(&contracts);
    let logs = vec![
        fetched(TOKEN, 10, "0xa", 0),
        fetched(TOKEN, 10, "0xa", 1),
        fetched(TOKEN, 12, "0xb", 0),
    ];
    let mut store = Store::new();
    store.create_events(&vec![event(1, ARBITRUM, "0x09", 3, "0x0", 0)]);
    store.create_events(&get(&logs, &ARBITRUM, &rows, &contracts));
    let stored = ids(&store.get_all_events());
    assert_eq!(stored.len(), 4);

    store.create_events(&get(&logs, &ARBITRUM, &rows, &contracts));
    assert_eq!(ids(&store.get_all_events()), stored);
}

#[test]
fn get_events_matches_address_and_block_range() {
    let mut store = Store::new();
    store.create_events(&vec![
        event(1, ARBITRUM, "0x0A", 9, "0xa", 0),
        event(2, ARBITRUM, "0x0a", 10, "0xb", 0),
        event(3, ARBITRUM, "0x0b", 11, "0xc", 0),
        event(4, ARBITRUM, "0x0A", 12, "0xd", 0),
        event(5, ARBITRUM, "0x0a", 13, "0xe", 0),
    ]);
    assert_eq!(ids(&store.get_events("0x0A", 10, 12)), vec![2, 4]);
    assert_eq!(ids(&store.get_events("0x0a", 10, 12)), vec![2, 4]);
    assert_eq!(ids(&store.get_events("0x0a", 0, u64::MAX)), vec![1, 2, 4, 5]);
    assert_eq!(ids(&store.get_events("0x0a", 11, 11)), Vec::<u128>::new());
    assert_eq!(ids(&store.get_events("0x0a", 12, 10)), Vec::<u128>::new());
    assert_eq!(ids(&store.get_events("0x0c", 0, u64::MAX)), Vec::<u128>::new());
}

#[test]
fn delete_events_by_ids_removes_exactly_those() {
    let mut store = Store::new();
    store.create_events(&vec![
        event(1, ARBITRUM, "0x0a", 9, "0xa", 0),
        event(2, ARBITRUM, "0x0a", 10, "0xb", 0),
        event(3, ARBITRUM, "0x0b", 11, "0xc", 0),
    ]);
    store.delete_events_by_ids(&vec![3, 1, 77]);
    assert_eq!(ids(&store.get_all_events()), vec![2]);
    store.delete_events_by_ids(&vec![]);
    assert_eq!(ids(&store.get_all_events()), vec![2]);
}

#[test]
fn delete_events_from_removes_the_later_blocks_of_that_chain() {
    let mut store = Store::new();
    store.create_events(&vec![
        event(1, ARBITRUM, "0x0a", 104, "0xa", 0),
        event(2, ARBITRUM, "0x0a", 105, "0xb", 0),
        event(3, MAINNET, "0x0a", 106, "0xc", 0),
        event(4, ARBITRUM, "0x0b", 107, "0xd", 0),
    ]);
    store.delete_events_from(ARBITRUM, 105);
    assert_eq!(ids(&store.get_all_events()), vec![1, 3]);
}
