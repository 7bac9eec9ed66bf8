use chaindexing::chain_reorg::{ReorgedBlock, UnsavedReorgedBlock};
use chaindexing::contracts::UnsavedContractAddress;
use chaindexing::events::{DecodedLog, Event, Log};
use chaindexing::handlers::{
    get_block_after_last, get_lowest_unhandled, get_window_end, sort_events,
};
use chaindexing::repos::Store;

const ARBITRUM: u64 = 42161;
const MAINNET: u64 = 1;

fn event(id: u128, address: &str, block_number: u64, log_index: u64) -> Event {
    Event::new(
        id,
        &ARBITRUM,
        &Log {
            address: address.to_string(),
            topics: vec![],
            data: "0x".to_string(),
            block_hash: format!("0xhash{}", block_number),
            block_number,
            transaction_hash: format!("0xtx{}", id),
            transaction_index: 0,
            log_index,
            removed: false,
        },
        &DecodedLog {
            contract_name: "Token".to_string(),
            abi_signature: "event Ping()".to_string(),
            log_params: vec![],
        },
    )
}

fn ids(events: &[Event]) -> Vec<u128> {
    events.iter().map(|event| event.id).collect()
}

fn handle_cursors(store: &Store) -> Vec<u64> {
    store
        .get_all_contract_addresses()
        .iter()
        .map(|row| row.next_block_number_to_handle_from)
        .collect()
}

#[test]
fn sort_events_orders_by_block_number_then_log_index() {
    let events = vec![
        event(1, "0x01", 12, 0),
        event(2, "0x01", 10, 5),
        event(3, "0x01", 10, 1),
        event(4, "0x01", 11, 9),
        event(5, "0x01", 10, 5),
    ];
    assert_eq!(ids(&sort_events(&events)), vec![3, 2, 5, 4, 1]);
    assert_eq!(ids(&sort_events(&vec![])), Vec::<u128>::new());
}

#[test]
fn rewind_handlers_lowers_the_cursors_of_the_chain_to_the_lowest_finding() {
    let mut store = Store::new();
    store.upsert_contract_addresses(&vec![
        UnsavedContractAddress::new("A", "0x01", &ARBITRUM, 200),
        UnsavedContractAddress::new("B", "0x02", &ARBITRUM, 50),
        UnsavedContractAddress::new("C", "0x03", &MAINNET, 300),
        UnsavedContractAddress::new("D", "0x04", &ARBITRUM, 105),
    ]);
    store.create_reorged_block(&UnsavedReorgedBlock::new(150, &ARBITRUM));
    store.create_reorged_block(&UnsavedReorgedBlock::new(105, &ARBITRUM));
    store.create_reorged_block(&UnsavedReorgedBlock::new(10, &MAINNET));

    assert_eq!(store.rewind_handlers(ARBITRUM, 1_234), Some(105));
    assert_eq!(handle_cursors(&store), vec![105, 50, 300, 105]);
    assert!(store.get_unhandled_reorged_blocks(ARBITRUM).is_empty());
    assert_eq!(store.get_unhandled_reorged_blocks(MAINNET).len(), 1);
    assert_eq!(store.reorged_blocks[0].handled_at, Some(1_234));
    assert_eq!(store.reorged_blocks[1].handled_at, Some(1_234));
    assert_eq!(store.reorged_blocks[2].handled_at, None);

    // Nothing is left to handle: nothing changes.
    assert_eq!(store.rewind_handlers(ARBITRUM, 2_000), None);
    assert_eq!(handle_cursors(&store), vec![105, 50, 300, 105]);
    assert_eq!(store.reorged_blocks[0].handled_at, Some(1_234));
}

#[test]
fn events_to_handle_come_in_order_from_the_cursor_on() {
    let mut store = Store::new();
    store.upsert_contract_addresses(&vec![UnsavedContractAddress::new(
        "A", "0x0A", &ARBITRUM, 100,
    )]);
    store.create_events(&vec![
        event(1, "0x0a", 130, 0),
        event(2, "0x0a", 99, 0),
        event(3, "0x0a", 100, 4),
        event(4, "0x0b", 100, 0),
        event(5, "0x0a", 100, 2),
        event(6, "0x0a", 131, 0),
    ]);
    let row = store.get_all_contract_addresses().remove(0);
    assert_eq!(ids(&store.get_events_to_handle(&row, 30)), vec![5, 3, 1]);
    assert_eq!(ids(&store.get_events_to_handle(&row, 0)), vec![5, 3]);
    assert_eq!(ids(&store.get_events_to_handle(&row, u64::MAX)), vec![5, 3, 1, 6]);
    assert_eq!(ids(&store.get_events_for_side_effects(&row, 31)), vec![5, 3, 1, 6]);
}

#[test]
fn handled_events_move_the_handler_cursor_behind_the_last_of_them() {
    let mut store = Store::new();
    store.upsert_contract_addresses(&vec![UnsavedContractAddress::new(
        "A", "0x0a", &ARBITRUM, 100,
    )]);
    store.create_events(&vec![event(1, "0x0a", 130, 0), event(2, "0x0a", 100, 0)]);
    let row = store.get_all_contract_addresses().remove(0);

    let events = store.get_events_to_handle(&row, 1_000);
    store.commit_handled_events(&row, &events);
    let row = store.get_all_contract_addresses().remove(0);
    assert_eq!(row.next_block_number_to_handle_from, 131);
    assert_eq!(row.next_block_number_for_side_effects, 100);
    assert_eq!(row.next_block_number_to_ingest_from, 100);

    // Nothing was handled: the cursor stays.
    let events = store.get_events_to_handle(&row, 1_000);
    assert!(events.is_empty());
    store.commit_handled_events(&row, &events);
    assert_eq!(handle_cursors(&store), vec![131]);
}

#[test]
fn side_effects_move_their_own_cursor() {
    let mut store = Store::new();
    store.upsert_contract_addresses(&vec![UnsavedContractAddress::new(
        "A", "0x0a", &ARBITRUM, 100,
    )]);
    store.create_events(&vec![event(1, "0x0a", 130, 0)]);
    let row = store.get_all_contract_addresses().remove(0);
    let events = store.get_events_for_side_effects(&row, 1_000);
    store.commit_side_effects(&row, &events);
    let row = store.get_all_contract_addresses().remove(0);
    assert_eq!(row.next_block_number_for_side_effects, 131);
    assert_eq!(row.next_block_number_to_handle_from, 100);
    store.commit_side_effects(&row, &vec![]);
    assert_eq!(store.get_all_contract_addresses()[0].next_block_number_for_side_effects, 131);
}

#[test]
fn cursor_behind_the_highest_block_is_that_block() {
    let mut store = Store::new();
    store.upsert_contract_addresses(&vec![UnsavedContractAddress::new(
        "A", "0x0a", &ARBITRUM, 0,
    )]);
    let row = store.get_all_contract_addresses().remove(0);
    store.commit_handled_events(&row, &vec![event(1, "0x0a", u64::MAX, 0)]);
    assert_eq!(handle_cursors(&store), vec![u64::MAX]);
}

#[test]
fn lowest_unhandled_finding_of_a_chain() {
    let finding = |id: u64, block_number: u64, chain_id: u64, handled_at: Option<i64>| {
        ReorgedBlock { id, block_number, chain_id, handled_at }
    };
    let findings = vec![
        finding(1, 90, ARBITRUM, Some(5)),
        finding(2, 150, ARBITRUM, None),
        finding(3, 10, MAINNET, None),
        finding(4, 105, ARBITRUM, None),
        finding(5, 120, ARBITRUM, None),
    ];
    assert_eq!(get_lowest_unhandled(&findings, ARBITRUM), Some(105));
    assert_eq!(get_lowest_unhandled(&findings, MAINNET), Some(10));
    assert_eq!(get_lowest_unhandled(&findings, 5), None);
    assert_eq!(get_lowest_unhandled(&findings[..1].to_vec(), ARBITRUM), None);
    assert_eq!(get_lowest_unhandled(&vec![], ARBITRUM), None);
}

#[test]
fn window_ends_at_the_highest_block_at_the_latest() {
    assert_eq!(get_window_end(100, 30), 130);
    assert_eq!(get_window_end(100, 0), 100);
    assert_eq!(get_window_end(0, u64::MAX), u64::MAX);
    assert_eq!(get_window_end(1, u64::MAX), u64::MAX);
    assert_eq!(get_window_end(u64::MAX, 1), u64::MAX);
    assert_eq!(get_window_end(u64::MAX - 1, 1), u64::MAX);
}

#[test]
fn block_after_the_last_event() {
    assert_eq!(get_block_after_last(&vec![]), None);
    assert_eq!(get_block_after_last(&vec![event(1, "0x0a", 7, 0)]), Some(8));
    assert_eq!(
        get_block_after_last(&vec![event(1, "0x0a", 7, 0), event(2, "0x0a", 9, 0)]),
        Some(10)
    );
    assert_eq!(get_block_after_last(&vec![event(1, "0x0a", u64::MAX, 0)]), Some(u64::MAX));
}
