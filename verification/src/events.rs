//! Logs, the events they are decoded to, and the events table.

use crate::chains::ChainId;
use crate::contracts::{
    contract_views, lowercase, to_lowercase, Contract, ContractAddress, ContractAddressView,
    ContractEvent, ContractEventView, ContractView,
};
use crate::repos::contract_address_views;
use vstd::prelude::*;

verus! {

/// A list of texts, as mathematical values.
pub open spec fn text_views(texts: Seq<String>) -> Seq<Seq<char>> {
    texts.map_values(|text: String| text@)
}

/// Copies a list of texts.
pub(crate) fn clone_texts(texts: &Vec<String>) -> (copy: Vec<String>)
    ensures
        text_views(copy@) == text_views(texts@),
{
    let mut copy: Vec<String> = Vec::new();
    let mut i: usize = 0;
    while i < texts.len()
        invariant
            i <= texts.len(),
            copy.len() == i,
            forall|j: int| 0 <= j < i ==> (#[trigger] copy@[j])@ == texts@[j]@,
        decreases texts.len() - i,
    {
        copy.push(texts[i].clone());
        i += 1;
    }
    copy
}

/// What a `Log` holds, as mathematical values.
pub struct LogView {
    pub address: Seq<char>,
    pub topics: Seq<Seq<char>>,
    pub data: Seq<char>,
    pub block_hash: Seq<char>,
    pub block_number: u64,
    pub transaction_hash: Seq<char>,
    pub transaction_index: u64,
    pub log_index: u64,
    pub removed: bool,
}

/// A log entry as a provider returns it for a block range. Addresses,
/// hashes, topics and data are written in hex, `0x` first.
#[derive(Debug)]
pub struct Log {
    /// The contract that emitted the log.
    pub address: String,
    pub topics: Vec<String>,
    pub data: String,
    pub block_hash: String,
    pub block_number: u64,
    pub transaction_hash: String,
    pub transaction_index: u64,
    pub log_index: u64,
    /// Set by the provider where the log's block left the canonical chain.
    pub removed: bool,
}

impl View for Log {
    type V = LogView;

    open spec fn view(&self) -> LogView {
        LogView {
            address: self.address@,
            topics: text_views(self.topics@),
            data: self.data@,
            block_hash: self.block_hash@,
            block_number: self.block_number,
            transaction_hash: self.transaction_hash@,
            transaction_index: self.transaction_index,
            log_index: self.log_index,
            removed: self.removed,
        }
    }
}

/// What an `EventParam` holds, as mathematical values.
pub struct EventParamView {
    pub name: Seq<char>,
    pub value: Seq<char>,
}

/// A parameter of a decoded log: its name in the event's ABI and its
/// value as text.
#[derive(Debug)]
pub struct EventParam {
    pub name: String,
    pub value: String,
}

impl View for EventParam {
    type V = EventParamView;

    open spec fn view(&self) -> EventParamView {
        EventParamView { name: self.name@, value: self.value@ }
    }
}

impl Clone for EventParam {
    fn clone(&self) -> (copy: Self)
        ensures
            copy == *self,
    {
        EventParam { name: self.name.clone(), value: self.value.clone() }
    }
}

/// A list of parameters, as mathematical values.
pub open spec fn param_views(params: Seq<EventParam>) -> Seq<EventParamView> {
    params.map_values(|param: EventParam| param@)
}

/// Copies a list of parameters.
fn clone_params(params: &Vec<EventParam>) -> (copy: Vec<EventParam>)
    ensures
        param_views(copy@) == param_views(params@),
{
    let mut copy: Vec<EventParam> = Vec::new();
    let mut i: usize = 0;
    while i < params.len()
        invariant
            i <= params.len(),
            copy.len() == i,
            forall|j: int| 0 <= j < i ==> (#[trigger] copy@[j])@ == params@[j]@,
        decreases params.len() - i,
    {
        copy.push(params[i].clone());
        i += 1;
    }
    copy
}

/// What a `FetchedLog` holds, as mathematical values.
pub struct FetchedLogView {
    pub log: LogView,
    pub log_params: Option<Seq<EventParamView>>,
}

/// A log as the provider returned it, with the parameters that the ABI of
/// its event decodes from it; `log_params` is empty where the log has no
/// configured event or does not fit it.
#[derive(Debug)]
pub struct FetchedLog {
    pub log: Log,
    pub log_params: Option<Vec<EventParam>>,
}

impl View for FetchedLog {
    type V = FetchedLogView;

    open spec fn view(&self) -> FetchedLogView {
        FetchedLogView {
            log: self.log@,
            log_params: match self.log_params {
                Some(log_params) => Some(param_views(log_params@)),
                None => None,
            },
        }
    }
}

/// A list of fetched logs, as mathematical values.
pub open spec fn fetched_log_views(logs: Seq<FetchedLog>) -> Seq<FetchedLogView> {
    logs.map_values(|log: FetchedLog| log@)
}

/// What a `MatchedEvent` holds, as mathematical values.
pub struct MatchedEventView {
    pub contract_name: Seq<char>,
    pub abi_signature: Seq<char>,
}

/// The contract and the event that a log belongs to.
#[derive(Debug)]
pub struct MatchedEvent {
    pub contract_name: String,
    pub abi_signature: String,
}

impl View for MatchedEvent {
    type V = MatchedEventView;

    open spec fn view(&self) -> MatchedEventView {
        MatchedEventView {
            contract_name: self.contract_name@,
            abi_signature: self.abi_signature@,
        }
    }
}

/// What the ABI of a contract makes of one of its logs.
pub struct DecodedLogView {
    pub contract_name: Seq<char>,
    pub abi_signature: Seq<char>,
    pub log_params: Seq<EventParamView>,
}

/// What the ABI of a contract makes of one of its logs: the contract, the
/// event and the event's parameters.
#[derive(Debug)]
pub struct DecodedLog {
    pub contract_name: String,
    pub abi_signature: String,
    pub log_params: Vec<EventParam>,
}

impl View for DecodedLog {
    type V = DecodedLogView;

    open spec fn view(&self) -> DecodedLogView {
        DecodedLogView {
            contract_name: self.contract_name@,
            abi_signature: self.abi_signature@,
            log_params: param_views(self.log_params@),
        }
    }
}

/// What an `Event` holds, as mathematical values.
pub struct EventView {
    pub id: u128,
    pub chain_id: ChainId,
    pub contract_address: Seq<char>,
    pub contract_name: Seq<char>,
    pub abi_signature: Seq<char>,
    pub log_params: Seq<EventParamView>,
    pub topics: Seq<Seq<char>>,
    pub block_hash: Seq<char>,
    pub block_number: u64,
    pub transaction_hash: Seq<char>,
    pub transaction_index: u64,
    pub log_index: u64,
    pub removed: bool,
}

/// A decoded log of an indexed contract, as the store keeps it. Its identity
/// is `id`; besides, no two stored events share transaction hash, log index
/// and chain.
#[derive(Debug)]
pub struct Event {
    pub id: u128,
    pub chain_id: ChainId,
    pub contract_address: String,
    pub contract_name: String,
    pub abi_signature: String,
    pub log_params: Vec<EventParam>,
    pub topics: Vec<String>,
    pub block_hash: String,
    pub block_number: u64,
    pub transaction_hash: String,
    pub transaction_index: u64,
    pub log_index: u64,
    pub removed: bool,
}

impl View for Event {
    type V = EventView;

    open spec fn view(&self) -> EventView {
        EventView {
            id: self.id,
            chain_id: self.chain_id,
            contract_address: self.contract_address@,
            contract_name: self.contract_name@,
            abi_signature: self.abi_signature@,
            log_params: param_views(self.log_params@),
            topics: text_views(self.topics@),
            block_hash: self.block_hash@,
            block_number: self.block_number,
            transaction_hash: self.transaction_hash@,
            transaction_index: self.transaction_index,
            log_index: self.log_index,
            removed: self.removed,
        }
    }
}

impl Clone for Event {
    fn clone(&self) -> (copy: Self)
        ensures
            copy@ == self@,
    {
        Event {
            id: self.id,
            chain_id: self.chain_id,
            contract_address: self.contract_address.clone(),
            contract_name: self.contract_name.clone(),
            abi_signature: self.abi_signature.clone(),
            log_params: clone_params(&self.log_params),
            topics: clone_texts(&self.topics),
            block_hash: self.block_hash.clone(),
            block_number: self.block_number,
            transaction_hash: self.transaction_hash.clone(),
            transaction_index: self.transaction_index,
            log_index: self.log_index,
            removed: self.removed,
        }
    }
}

/// A list of events, as mathematical values.
pub open spec fn event_views(events: Seq<Event>) -> Seq<EventView> {
    events.map_values(|event: Event| event@)
}

/// The event that a decoded log becomes under the identity `id`.
pub open spec fn event_of(
    id: u128,
    chain_id: ChainId,
    log: LogView,
    decoded: DecodedLogView,
) -> EventView {
    EventView {
        id,
        chain_id,
        contract_address: lowercase(log.address),
        contract_name: decoded.contract_name,
        abi_signature: decoded.abi_signature,
        log_params: decoded.log_params,
        topics: log.topics,
        block_hash: log.block_hash,
        block_number: log.block_number,
        transaction_hash: log.transaction_hash,
        transaction_index: log.transaction_index,
        log_index: log.log_index,
        removed: log.removed,
    }
}

impl Event {
    /// The event for `log` on `chain_id`, decoded as `decoded`, under the
    /// identity `id`. The emitting contract's address is case-folded.
    pub fn new(id: u128, chain_id: &ChainId, log: &Log, decoded: &DecodedLog) -> (event: Self)
        ensures
            event@ == event_of(id, *chain_id, log@, decoded@),
    {
        Event {
            id,
            chain_id: *chain_id,
            contract_address: to_lowercase(log.address.as_str()),
            contract_name: decoded.contract_name.clone(),
            abi_signature: decoded.abi_signature.clone(),
            log_params: clone_params(&decoded.log_params),
            topics: clone_texts(&log.topics),
            block_hash: log.block_hash.clone(),
            block_number: log.block_number,
            transaction_hash: log.transaction_hash.clone(),
            transaction_index: log.transaction_index,
            log_index: log.log_index,
            removed: log.removed,
        }
    }

    /// The chain the event was emitted on.
    pub fn get_chain_id(&self) -> (chain_id: ChainId)
        ensures
            chain_id == self.chain_id,
    {
        self.chain_id
    }

    /// The block the event was emitted in.
    pub fn get_block_number(&self) -> (block_number: u64)
        ensures
            block_number == self.block_number,
    {
        self.block_number
    }
}

/// The bits of an id that say how it was made: version and variant.
pub const ID_KIND_MASK: u128 = 0x0000_0000_0000_f000_c000_0000_0000_0000;

/// Version 4, variant 1: an id drawn at random.
pub const RANDOM_ID_KIND: u128 = 0x0000_0000_0000_4000_8000_0000_0000_0000;

/// Calls `uuid::Uuid::new_v4` and reads the result with `Uuid::as_u128`: a
/// random UUID as a number. Which one is not said, and two calls differ; all
/// that is claimed are the version and variant bits that `new_v4` sets.
/// `new_v4` panics where the operating system hands out no random bytes.
#[verifier::external_body]
pub(crate) fn fresh_event_id() -> (id: u128)
    ensures
        id & ID_KIND_MASK == RANDOM_ID_KIND,
{
    uuid::Uuid::new_v4().as_u128()
}

/// Whether the row at `index` is the first for `address` on `chain_id`.
pub open spec fn is_first_row_at(
    index: int,
    rows: Seq<ContractAddressView>,
    chain_id: ChainId,
    address: Seq<char>,
) -> bool {
    &&& 0 <= index < rows.len()
    &&& crate::contracts::is_address(rows[index], chain_id, address)
    &&& forall|j: int|
        0 <= j < index ==> !crate::contracts::is_address(#[trigger] rows[j], chain_id, address)
}

/// The first row for `address` on `chain_id`, where there is one.
pub open spec fn first_row_at(
    rows: Seq<ContractAddressView>,
    chain_id: ChainId,
    address: Seq<char>,
) -> Option<ContractAddressView> {
    if exists|i: int| is_first_row_at(i, rows, chain_id, address) {
        Some(rows[choose|i: int| is_first_row_at(i, rows, chain_id, address)])
    } else {
        None
    }
}

/// Whether the contract at `index` is the first called `name`.
pub open spec fn is_first_contract_named(
    index: int,
    contracts: Seq<ContractView>,
    name: Seq<char>,
) -> bool {
    &&& 0 <= index < contracts.len()
    &&& contracts[index].name == name
    &&& forall|j: int| 0 <= j < index ==> (#[trigger] contracts[j]).name != name
}

/// The first contract called `name`, where there is one.
pub open spec fn first_contract_named(contracts: Seq<ContractView>, name: Seq<char>) -> Option<
    ContractView,
> {
    if exists|i: int| is_first_contract_named(i, contracts, name) {
        Some(contracts[choose|i: int| is_first_contract_named(i, contracts, name)])
    } else {
        None
    }
}

/// Whether the event at `index` is the first with the topic `topic`.
pub open spec fn is_first_event_with(
    index: int,
    events: Seq<ContractEventView>,
    topic: Seq<char>,
) -> bool {
    &&& 0 <= index < events.len()
    &&& events[index].topic == topic
    &&& forall|j: int| 0 <= j < index ==> (#[trigger] events[j]).topic != topic
}

/// The first event with the topic `topic`, where there is one.
pub open spec fn first_event_with(events: Seq<ContractEventView>, topic: Seq<char>) -> Option<
    ContractEventView,
> {
    if exists|i: int| is_first_event_with(i, events, topic) {
        Some(events[choose|i: int| is_first_event_with(i, events, topic)])
    } else {
        None
    }
}

/// The contract and the event that the configured contracts assign to a
/// log.
///
/// The log is one of an indexed contract where it carries a topic and a
/// row of `rows` names its emitter on `chain_id`, case-folded. Its event is
/// the first with the log's first topic of the first contract that is
/// called as the row says. Where the log is of no indexed contract or no
/// such contract or event is configured, there is none.
pub open spec fn matching_of(
    log: LogView,
    chain_id: ChainId,
    rows: Seq<ContractAddressView>,
    contracts: Seq<ContractView>,
) -> Option<MatchedEventView> {
    if log.topics.len() == 0 {
        None
    } else {
        match first_row_at(rows, chain_id, lowercase(log.address)) {
            Some(row) => match first_contract_named(contracts, row.contract_name) {
                Some(contract) => match first_event_with(contract.events, log.topics[0]) {
                    Some(event) => Some(
                        MatchedEventView {
                            contract_name: row.contract_name,
                            abi_signature: event.abi,
                        },
                    ),
                    None => None,
                },
                None => None,
            },
            None => None,
        }
    }
}

/// What the configured contracts make of a fetched log: its event, with the
/// parameters that came with the log. A log without an event or without
/// parameters is not decoded.
pub open spec fn decoding_of(
    log: FetchedLogView,
    chain_id: ChainId,
    rows: Seq<ContractAddressView>,
    contracts: Seq<ContractView>,
) -> Option<DecodedLogView> {
    match (matching_of(log.log, chain_id, rows, contracts), log.log_params) {
        (Some(matched), Some(log_params)) => Some(
            DecodedLogView {
                contract_name: matched.contract_name,
                abi_signature: matched.abi_signature,
                log_params,
            },
        ),
        _ => None,
    }
}

/// The row for `address` on `chain_id` that comes first.
fn find_row<'a>(rows: &'a Vec<ContractAddress>, chain_id: ChainId, address: &String) -> (row:
    Option<&'a ContractAddress>)
    ensures
        match row {
            Some(row) => first_row_at(contract_address_views(rows@), chain_id, address@) == Some(
                row@,
            ),
            None => first_row_at(contract_address_views(rows@), chain_id, address@) is None,
        },
{
    let ghost views = contract_address_views(rows@);
    let mut i: usize = 0;
    while i < rows.len()
        invariant
            i <= rows.len(),
            views == contract_address_views(rows@),
            forall|j: int|
                0 <= j < i ==> !crate::contracts::is_address(
                    #[trigger] views[j],
                    chain_id,
                    address@,
                ),
        decreases rows.len() - i,
    {
        if rows[i].chain_id == chain_id && rows[i].address == *address {
            proof {
                assert(is_first_row_at(i as int, views, chain_id, address@));
            }
            return Some(&rows[i]);
        }
        i += 1;
    }
    None
}

/// The contract called `name` that comes first.
fn find_contract<'a>(contracts: &'a Vec<Contract>, name: &String) -> (contract: Option<
    &'a Contract,
>)
    ensures
        match contract {
            Some(contract) => first_contract_named(contract_views(contracts@), name@) == Some(
                contract@,
            ),
            None => first_contract_named(contract_views(contracts@), name@) is None,
        },
{
    let ghost views = contract_views(contracts@);
    let mut i: usize = 0;
    while i < contracts.len()
        invariant
            i <= contracts.len(),
            views == contract_views(contracts@),
            forall|j: int| 0 <= j < i ==> (#[trigger] views[j]).name != name@,
        decreases contracts.len() - i,
    {
        if contracts[i].name == *name {
            proof {
                assert(is_first_contract_named(i as int, views, name@));
            }
            return Some(&contracts[i]);
        }
        i += 1;
    }
    None
}

/// The event with the topic `topic` that comes first.
fn find_event<'a>(events: &'a Vec<ContractEvent>, topic: &String) -> (event: Option<
    &'a ContractEvent,
>)
    ensures
        match event {
            Some(event) => first_event_with(
                crate::contracts::contract_event_views(events@),
                topic@,
            ) == Some(event@),
            None => first_event_with(crate::contracts::contract_event_views(events@), topic@)
                is None,
        },
{
    let ghost views = crate::contracts::contract_event_views(events@);
    let mut i: usize = 0;
    while i < events.len()
        invariant
            i <= events.len(),
            views == crate::contracts::contract_event_views(events@),
            forall|j: int| 0 <= j < i ==> (#[trigger] views[j]).topic != topic@,
        decreases events.len() - i,
    {
        if events[i].topic == *topic {
            proof {
                assert(is_first_event_with(i as int, views, topic@));
            }
            return Some(&events[i]);
        }
        i += 1;
    }
    None
}

/// The contract and the event that `log` belongs to: the contract that the
/// registry rows name for its emitter on `chain_id`, and the event of that
/// contract with the log's first topic. None where the log is of no indexed
/// contract or no such contract or event is configured.
pub fn match_log(
    log: &Log,
    chain_id: &ChainId,
    contract_addresses: &Vec<ContractAddress>,
    contracts: &Vec<Contract>,
) -> (matched: Option<MatchedEvent>)
    ensures
        match matched {
            Some(matched) => matching_of(
                log@,
                *chain_id,
                contract_address_views(contract_addresses@),
                contract_views(contracts@),
            ) == Some(matched@),
            None => matching_of(
                log@,
                *chain_id,
                contract_address_views(contract_addresses@),
                contract_views(contracts@),
            ) is None,
        },
{
    if log.topics.len() == 0 {
        return None;
    }
    let address = to_lowercase(log.address.as_str());
    let row = match find_row(contract_addresses, *chain_id, &address) {
        Some(row) => row,
        None => {
            return None;
        },
    };
    let contract = match find_contract(contracts, &row.contract_name) {
        Some(contract) => contract,
        None => {
            return None;
        },
    };
    match find_event(&contract.events, &log.topics[0]) {
        Some(event) => Some(
            MatchedEvent {
                contract_name: row.contract_name.clone(),
                abi_signature: event.abi.clone(),
            },
        ),
        None => None,
    }
}

/// What the configured contracts make of a fetched log: its contract, its
/// event and the parameters that came with it. None where the log has no
/// configured event or came without parameters.
pub fn decode(
    log: &FetchedLog,
    chain_id: &ChainId,
    contract_addresses: &Vec<ContractAddress>,
    contracts: &Vec<Contract>,
) -> (decoded: Option<DecodedLog>)
    ensures
        match decoded {
            Some(decoded) => decoding_of(
                log@,
                *chain_id,
                contract_address_views(contract_addresses@),
                contract_views(contracts@),
            ) == Some(decoded@),
            None => decoding_of(
                log@,
                *chain_id,
                contract_address_views(contract_addresses@),
                contract_views(contracts@),
            ) is None,
        },
{
    let matched = match match_log(&log.log, chain_id, contract_addresses, contracts) {
        Some(matched) => matched,
        None => {
            return None;
        },
    };
    match &log.log_params {
        Some(log_params) => Some(
            DecodedLog {
                contract_name: matched.contract_name,
                abi_signature: matched.abi_signature,
                log_params: clone_params(log_params),
            },
        ),
        None => None,
    }
}

/// The logs that the configured contracts decode.
pub open spec fn is_decoded(
    chain_id: ChainId,
    rows: Seq<ContractAddressView>,
    contracts: Seq<ContractView>,
) -> spec_fn(FetchedLogView) -> bool {
    |log: FetchedLogView| decoding_of(log, chain_id, rows, contracts) is Some
}

/// Whether `events` are the events of the logs that the configured
/// contracts decode, one for each and in their order, each under an id of
/// its own choosing.
pub open spec fn are_events_of(
    events: Seq<EventView>,
    logs: Seq<FetchedLogView>,
    chain_id: ChainId,
    rows: Seq<ContractAddressView>,
    contracts: Seq<ContractView>,
) -> bool {
    let decoded = logs.filter(is_decoded(chain_id, rows, contracts));
    &&& events.len() == decoded.len()
    &&& forall|k: int|
        0 <= k < events.len() ==> #[trigger] events[k] == event_of(
            events[k].id,
            chain_id,
            decoded[k].log,
            decoding_of(decoded[k], chain_id, rows, contracts)->0,
        )
}

/// Turns the logs of indexed contracts into events, in their order: each
/// log that has a configured event and came with its parameters becomes an
/// event under a random UUID as its id. Every other log is skipped.
pub fn get(
    logs: &Vec<FetchedLog>,
    chain_id: &ChainId,
    contract_addresses: &Vec<ContractAddress>,
    contracts: &Vec<Contract>,
) -> (events: Vec<Event>)
    ensures
        are_events_of(
            event_views(events@),
            fetched_log_views(logs@),
            *chain_id,
            contract_address_views(contract_addresses@),
            contract_views(contracts@),
        ),
        forall|k: int|
            0 <= k < events.len() ==> (#[trigger] events@[k]).id & ID_KIND_MASK == RANDOM_ID_KIND,
{
    let ghost all = fetched_log_views(logs@);
    let ghost rows = contract_address_views(contract_addresses@);
    let ghost configured = contract_views(contracts@);
    let ghost wanted = is_decoded(*chain_id, rows, configured);
    let mut events: Vec<Event> = Vec::new();
    let mut i: usize = 0;
    while i < logs.len()
        invariant
            i <= logs.len(),
            all == fetched_log_views(logs@),
            rows == contract_address_views(contract_addresses@),
            configured == contract_views(contracts@),
            wanted == is_decoded(*chain_id, rows, configured),
            are_events_of(event_views(events@), all.take(i as int), *chain_id, rows, configured),
            forall|k: int|
                0 <= k < events.len() ==> (#[trigger] events@[k]).id & ID_KIND_MASK
                    == RANDOM_ID_KIND,
        decreases logs.len() - i,
    {
        proof {
            reveal(Seq::filter);
            assert(all.take(i + 1).drop_last() =~= all.take(i as int));
        }
        match decode(&logs[i], chain_id, contract_addresses, contracts) {
            Some(decoded) => {
                let id = fresh_event_id();
                let ghost before = events@;
                events.push(Event::new(id, chain_id, &logs[i].log, &decoded));
                proof {
                    let after = event_views(events@);
                    let kept = all.take(i + 1).filter(wanted);
                    assert forall|k: int| 0 <= k < after.len() implies #[trigger] after[k]
                        == event_of(
                        after[k].id,
                        *chain_id,
                        kept[k].log,
                        decoding_of(kept[k], *chain_id, rows, configured)->0,
                    ) by {
                        if k < before.len() {
                            assert(after[k] == event_views(before)[k]);
                        }
                    }
                }
            },
            None => {},
        }
        i += 1;
    }
    assert(all.take(i as int) =~= all);
    events
}

/// Whether two events stand for the same log: same transaction, same
/// position in it, same chain.
pub open spec fn same_log(a: EventView, b: EventView) -> bool {
    a.transaction_hash == b.transaction_hash && a.log_index == b.log_index && a.chain_id
        == b.chain_id
}

/// Whether the store cannot hold both events: they share their id or stand
/// for the same log.
pub open spec fn conflicts(a: EventView, b: EventView) -> bool {
    a.id == b.id || same_log(a, b)
}

/// Whether some stored event keeps `event` out.
pub open spec fn has_conflict(events: Seq<EventView>, event: EventView) -> bool {
    exists|i: int| 0 <= i < events.len() && conflicts(#[trigger] events[i], event)
}

/// The events table's invariant: no two rows conflict.
pub open spec fn events_wf(events: Seq<EventView>) -> bool {
    forall|i: int, j: int|
        0 <= i < j < events.len() ==> !conflicts(#[trigger] events[i], #[trigger] events[j])
}

/// The table after the insert of one event: a conflicting event is dropped.
pub open spec fn insert_one(events: Seq<EventView>, event: EventView) -> Seq<EventView> {
    if has_conflict(events, event) {
        events
    } else {
        events.push(event)
    }
}

/// The table after the inserts of a batch, first to last.
pub open spec fn insert_all(events: Seq<EventView>, batch: Seq<EventView>) -> Seq<EventView>
    decreases batch.len(),
{
    if batch.len() == 0 {
        events
    } else {
        insert_one(insert_all(events, batch.drop_last()), batch.last())
    }
}

/// The events of the contract at `address` (already case-folded) in the
/// blocks `from` to `to`, both included.
pub open spec fn emitted_in(address: Seq<char>, from: u64, to: u64) -> spec_fn(EventView) -> bool {
    |event: EventView|
        event.contract_address == address && from <= event.block_number <= to
}

/// The events whose id is none of `ids`.
pub open spec fn id_not_in(ids: Seq<u128>) -> spec_fn(EventView) -> bool {
    |event: EventView| !ids.contains(event.id)
}

/// The events that a rewrite of `chain_id` from `block_number` on leaves
/// in place: those of other chains and those of earlier blocks.
pub open spec fn survives_reorg(chain_id: ChainId, block_number: u64) -> spec_fn(
    EventView,
) -> bool {
    |event: EventView| !(event.chain_id == chain_id && event.block_number >= block_number)
}

/// Dropping rows keeps the table's invariant.
pub(crate) proof fn lemma_filter_keeps_events_wf(
    events: Seq<EventView>,
    kept: spec_fn(EventView) -> bool,
)
    requires
        events_wf(events),
    ensures
        events_wf(events.filter(kept)),
    decreases events.len(),
{
    reveal(Seq::filter);
    if events.len() > 0 {
        let init = events.drop_last();
        lemma_filter_keeps_events_wf(init, kept);
        if kept(events.last()) {
            let rest = init.filter(kept);
            assert forall|i: int, j: int| 0 <= i < j < rest.len() + 1 implies !conflicts(
                #[trigger] events.filter(kept)[i],
                #[trigger] events.filter(kept)[j],
            ) by {
                if j == rest.len() {
                    init.lemma_filter_contains_rev(kept, rest[i]);
                }
            }
        }
    }
}

/// What a batch of inserts leaves in the table: what was stored stays in
/// place, every row behind it is an event of the batch, every event of the
/// batch is stored or kept out by a stored one, and the table's invariant
/// holds on.
pub proof fn lemma_insert_all_rows(events: Seq<EventView>, batch: Seq<EventView>)
    ensures
        events.len() <= insert_all(events, batch).len() <= events.len() + batch.len(),
        forall|p: int|
            0 <= p < events.len() ==> #[trigger] insert_all(events, batch)[p] == events[p],
        forall|p: int|
            events.len() <= p < insert_all(events, batch).len() ==> exists|j: int|
                0 <= j < batch.len() && #[trigger] batch[j] == #[trigger] insert_all(
                    events,
                    batch,
                )[p],
        forall|j: int|
            0 <= j < batch.len() ==> has_conflict(insert_all(events, batch), #[trigger] batch[j]),
        events_wf(events) ==> events_wf(insert_all(events, batch)),
    decreases batch.len(),
{
    if batch.len() > 0 {
        let init = batch.drop_last();
        let last = batch.last();
        let prev = insert_all(events, init);
        let result = insert_all(events, batch);
        lemma_insert_all_rows(events, init);
        assert forall|p: int| events.len() <= p < result.len() implies exists|j: int|
            0 <= j < batch.len() && #[trigger] batch[j] == #[trigger] result[p] by {
            if p < prev.len() {
                let j = choose|j: int| 0 <= j < init.len() && #[trigger] init[j] == prev[p];
                assert(batch[j] == result[p]);
            } else {
                assert(batch[batch.len() - 1] == result[p]);
            }
        }
        assert forall|j: int| 0 <= j < batch.len() implies has_conflict(
            result,
            #[trigger] batch[j],
        ) by {
            if j < init.len() {
                let w = choose|i: int|
                    0 <= i < prev.len() && conflicts(#[trigger] prev[i], init[j]);
                assert(conflicts(result[w], batch[j]));
            } else if !has_conflict(prev, last) {
                assert(conflicts(result[prev.len() as int], last));
            }
        }
    }
}

/// Whether the table holds an event for the log that `event` stands for.
pub open spec fn has_same_log(events: Seq<EventView>, event: EventView) -> bool {
    exists|i: int| 0 <= i < events.len() && same_log(#[trigger] events[i], event)
}

/// Whether the ids of a batch are fresh: an id of the batch that a stored
/// event or another event of the batch carries too stands for the same log
/// there.
pub open spec fn ids_are_fresh(events: Seq<EventView>, batch: Seq<EventView>) -> bool {
    &&& forall|i: int, j: int|
        0 <= i < events.len() && 0 <= j < batch.len() && (#[trigger] events[i]).id
            == (#[trigger] batch[j]).id ==> same_log(events[i], batch[j])
    &&& forall|j: int, k: int|
        0 <= j < k < batch.len() && (#[trigger] batch[j]).id == (#[trigger] batch[k]).id
            ==> same_log(batch[j], batch[k])
}

/// After a batch with fresh ids, the table holds an event for every log of
/// the batch.
pub proof fn lemma_insert_all_stores_every_log(events: Seq<EventView>, batch: Seq<EventView>)
    requires
        ids_are_fresh(events, batch),
    ensures
        forall|j: int|
            0 <= j < batch.len() ==> has_same_log(insert_all(events, batch), #[trigger] batch[j]),
{
    let result = insert_all(events, batch);
    lemma_insert_all_rows(events, batch);
    assert forall|j: int| 0 <= j < batch.len() implies has_same_log(
        result,
        #[trigger] batch[j],
    ) by {
        let w = choose|i: int| 0 <= i < result.len() && conflicts(#[trigger] result[i], batch[j]);
        assert(same_log(result[w], batch[j]));
    }
}

/// Inserting events that stored ones keep out changes nothing.
pub proof fn lemma_insert_known_is_noop(events: Seq<EventView>, batch: Seq<EventView>)
    requires
        forall|j: int| 0 <= j < batch.len() ==> has_conflict(events, #[trigger] batch[j]),
    ensures
        insert_all(events, batch) == events,
    decreases batch.len(),
{
    if batch.len() > 0 {
        let init = batch.drop_last();
        lemma_insert_known_is_noop(events, init);
    }
}

/// Replaying a batch of logs changes nothing: once a batch with fresh ids
/// is stored, a batch whose events each stand for a log of the first, under
/// whatever ids, leaves the table as it is.
pub proof fn lemma_replay_is_noop(
    events: Seq<EventView>,
    batch: Seq<EventView>,
    replay: Seq<EventView>,
)
    requires
        ids_are_fresh(events, batch),
        forall|j: int|
            0 <= j < replay.len() ==> exists|k: int|
                0 <= k < batch.len() && same_log(#[trigger] batch[k], #[trigger] replay[j]),
    ensures
        insert_all(insert_all(events, batch), replay) == insert_all(events, batch),
{
    let stored = insert_all(events, batch);
    lemma_insert_all_stores_every_log(events, batch);
    lemma_insert_known_is_noop(stored, replay);
}

} // verus!
