//! Contracts, their addresses and the registry that holds the addresses with
//! their cursors.

use crate::chains::ChainId;
use vstd::prelude::*;
use vstd::string::*;

verus! {

/// The lower-case form of a text, as `str::to_lowercase` computes it.
pub uninterp spec fn lowercase(text: Seq<char>) -> Seq<char>;

/// Calls `str::to_lowercase` of the standard library. Nothing is proved of
/// the conversion itself: the result is known only as `lowercase` of the
/// argument, that is, as a function of the text alone.
#[verifier::external_body]
pub(crate) fn to_lowercase(text: &str) -> (lowered: String)
    ensures
        lowered@ == lowercase(text@),
{
    text.to_lowercase()
}

/// Whether a text is the lower-case form of some text.
pub open spec fn is_case_folded(text: Seq<char>) -> bool {
    exists|raw: Seq<char>| text == #[trigger] lowercase(raw)
}

/// What an `UnsavedContractAddress` holds, as mathematical values.
pub struct UnsavedContractAddressView {
    pub contract_name: Seq<char>,
    pub address: Seq<char>,
    pub chain_id: ChainId,
    pub start_block_number: u64,
}

/// A contract address that is about to enter the registry.
#[derive(Debug)]
pub struct UnsavedContractAddress {
    pub contract_name: String,
    pub address: String,
    pub chain_id: ChainId,
    pub start_block_number: u64,
}

impl View for UnsavedContractAddress {
    type V = UnsavedContractAddressView;

    open spec fn view(&self) -> UnsavedContractAddressView {
        UnsavedContractAddressView {
            contract_name: self.contract_name@,
            address: self.address@,
            chain_id: self.chain_id,
            start_block_number: self.start_block_number,
        }
    }
}

impl Clone for UnsavedContractAddress {
    fn clone(&self) -> (copy: Self)
        ensures
            copy == *self,
    {
        UnsavedContractAddress {
            contract_name: self.contract_name.clone(),
            address: self.address.clone(),
            chain_id: self.chain_id,
            start_block_number: self.start_block_number,
        }
    }
}

impl UnsavedContractAddress {
    /// Describes a contract deployed at `address` on `chain_id`, to be
    /// indexed from `start_block_number` on. The address is case-folded.
    pub fn new(
        contract_name: &str,
        address: &str,
        chain_id: &ChainId,
        start_block_number: u64,
    ) -> (unsaved: Self)
        ensures
            unsaved@.contract_name == contract_name@,
            unsaved@.address == lowercase(address@),
            is_case_folded(unsaved@.address),
            unsaved@.chain_id == *chain_id,
            unsaved@.start_block_number == start_block_number,
    {
        UnsavedContractAddress {
            contract_name: String::from_str(contract_name),
            address: to_lowercase(address),
            chain_id: *chain_id,
            start_block_number,
        }
    }
}

/// A batch of unsaved addresses, as mathematical values.
pub open spec fn unsaved_views(batch: Seq<UnsavedContractAddress>) -> Seq<
    UnsavedContractAddressView,
> {
    batch.map_values(|unsaved: UnsavedContractAddress| unsaved@)
}

/// Copies a list of unsaved addresses.
fn clone_unsaved(batch: &Vec<UnsavedContractAddress>) -> (copy: Vec<UnsavedContractAddress>)
    ensures
        unsaved_views(copy@) == unsaved_views(batch@),
{
    let mut copy: Vec<UnsavedContractAddress> = Vec::new();
    let mut i: usize = 0;
    while i < batch.len()
        invariant
            i <= batch.len(),
            copy.len() == i,
            forall|j: int| 0 <= j < i ==> (#[trigger] copy@[j])@ == batch@[j]@,
        decreases batch.len() - i,
    {
        copy.push(batch[i].clone());
        i += 1;
    }
    copy
}

/// What a `ContractAddress` holds, as mathematical values.
pub struct ContractAddressView {
    pub id: u64,
    pub chain_id: ChainId,
    pub next_block_number_to_ingest_from: u64,
    pub next_block_number_to_handle_from: u64,
    pub next_block_number_for_side_effects: u64,
    pub start_block_number: u64,
    pub address: Seq<char>,
    pub contract_name: Seq<char>,
}

/// A row of the contract address registry. Its identity is the pair of
/// `chain_id` and `address`; the three `next_` fields are its cursors.
#[derive(Debug)]
pub struct ContractAddress {
    pub id: u64,
    pub chain_id: ChainId,
    pub next_block_number_to_ingest_from: u64,
    pub next_block_number_to_handle_from: u64,
    pub next_block_number_for_side_effects: u64,
    pub start_block_number: u64,
    pub address: String,
    pub contract_name: String,
}

impl View for ContractAddress {
    type V = ContractAddressView;

    open spec fn view(&self) -> ContractAddressView {
        ContractAddressView {
            id: self.id,
            chain_id: self.chain_id,
            next_block_number_to_ingest_from: self.next_block_number_to_ingest_from,
            next_block_number_to_handle_from: self.next_block_number_to_handle_from,
            next_block_number_for_side_effects: self.next_block_number_for_side_effects,
            start_block_number: self.start_block_number,
            address: self.address@,
            contract_name: self.contract_name@,
        }
    }
}

impl Clone for ContractAddress {
    fn clone(&self) -> (copy: Self)
        ensures
            copy == *self,
    {
        ContractAddress {
            id: self.id,
            chain_id: self.chain_id,
            next_block_number_to_ingest_from: self.next_block_number_to_ingest_from,
            next_block_number_to_handle_from: self.next_block_number_to_handle_from,
            next_block_number_for_side_effects: self.next_block_number_for_side_effects,
            start_block_number: self.start_block_number,
            address: self.address.clone(),
            contract_name: self.contract_name.clone(),
        }
    }
}

/// What a `ContractEvent` holds, as mathematical values.
pub struct ContractEventView {
    pub abi: Seq<char>,
    pub topic: Seq<char>,
}

/// An event of a contract: its ABI in human-readable form, such as
/// `event Transfer(address indexed from, address indexed to, uint256 value)`,
/// and the topic that its logs carry first, which is the hash of the event's
/// signature in hex, `0x` first.
#[derive(Debug)]
pub struct ContractEvent {
    pub abi: String,
    pub topic: String,
}

impl View for ContractEvent {
    type V = ContractEventView;

    open spec fn view(&self) -> ContractEventView {
        ContractEventView { abi: self.abi@, topic: self.topic@ }
    }
}

impl Clone for ContractEvent {
    fn clone(&self) -> (copy: Self)
        ensures
            copy == *self,
    {
        ContractEvent { abi: self.abi.clone(), topic: self.topic.clone() }
    }
}

impl ContractEvent {
    /// The event with this ABI whose logs carry `topic` first.
    pub fn new(abi: &str, topic: &str) -> (event: Self)
        ensures
            event@ == (ContractEventView { abi: abi@, topic: topic@ }),
    {
        ContractEvent { abi: String::from_str(abi), topic: String::from_str(topic) }
    }
}

/// A list of contract events, as mathematical values.
pub open spec fn contract_event_views(events: Seq<ContractEvent>) -> Seq<ContractEventView> {
    events.map_values(|event: ContractEvent| event@)
}

/// What a `Contract` holds, as mathematical values.
pub struct ContractView {
    pub name: Seq<char>,
    pub addresses: Seq<UnsavedContractAddressView>,
    pub events: Seq<ContractEventView>,
}

/// A contract to index: its name, the addresses it is deployed at and the
/// events to index.
#[derive(Debug)]
pub struct Contract {
    pub name: String,
    pub addresses: Vec<UnsavedContractAddress>,
    pub events: Vec<ContractEvent>,
}

impl View for Contract {
    type V = ContractView;

    open spec fn view(&self) -> ContractView {
        ContractView {
            name: self.name@,
            addresses: unsaved_views(self.addresses@),
            events: contract_event_views(self.events@),
        }
    }
}

/// A list of contracts, as mathematical values.
pub open spec fn contract_views(contracts: Seq<Contract>) -> Seq<ContractView> {
    contracts.map_values(|contract: Contract| contract@)
}

impl Contract {
    /// A contract called `name`, deployed nowhere yet and with no event.
    pub fn new(name: &str) -> (contract: Self)
        ensures
            contract@ == (ContractView {
                name: name@,
                addresses: Seq::empty(),
                events: Seq::empty(),
            }),
    {
        let contract = Contract {
            name: String::from_str(name),
            addresses: Vec::new(),
            events: Vec::new(),
        };
        assert(contract@.addresses =~= Seq::empty());
        assert(contract@.events =~= Seq::empty());
        contract
    }

    /// The contract with one more deployment: at `address` on `chain_id`, to
    /// be indexed from `start_block_number` on.
    pub fn add_address(
        self,
        address: &str,
        chain_id: &ChainId,
        start_block_number: u64,
    ) -> (contract: Self)
        ensures
            contract@ == (ContractView {
                addresses: self@.addresses.push(
                    UnsavedContractAddressView {
                        contract_name: self.name@,
                        address: lowercase(address@),
                        chain_id: *chain_id,
                        start_block_number,
                    },
                ),
                ..self@
            }),
    {
        let mut contract = self;
        let unsaved = UnsavedContractAddress::new(
            contract.name.as_str(),
            address,
            chain_id,
            start_block_number,
        );
        contract.addresses.push(unsaved);
        assert(unsaved_views(contract.addresses@) =~= unsaved_views(self.addresses@).push(
            unsaved@,
        ));
        contract
    }

    /// The contract with one more event to index.
    pub fn add_event(self, event: ContractEvent) -> (contract: Self)
        ensures
            contract@ == (ContractView { events: self@.events.push(event@), ..self@ }),
    {
        let mut contract = self;
        contract.events.push(event);
        assert(contract_event_views(contract.events@) =~= contract_event_views(
            self.events@,
        ).push(event@));
        contract
    }

    /// The addresses the contract is deployed at, in the order they were
    /// added.
    pub fn get_addresses(&self) -> (addresses: Vec<UnsavedContractAddress>)
        ensures
            unsaved_views(addresses@) == self@.addresses,
    {
        clone_unsaved(&self.addresses)
    }
}

impl Clone for Contract {
    fn clone(&self) -> (copy: Self)
        ensures
            copy@ == self@,
    {
        let mut events: Vec<ContractEvent> = Vec::new();
        let mut i: usize = 0;
        while i < self.events.len()
            invariant
                i <= self.events.len(),
                events.len() == i,
                forall|j: int| 0 <= j < i ==> (#[trigger] events@[j])@ == self.events@[j]@,
            decreases self.events.len() - i,
        {
            events.push(self.events[i].clone());
            i += 1;
        }
        assert(contract_event_views(events@) =~= contract_event_views(self.events@));
        Contract { name: self.name.clone(), addresses: clone_unsaved(&self.addresses), events }
    }
}

/// Whether a row is the one for `address` on `chain_id`.
pub open spec fn is_address(
    row: ContractAddressView,
    chain_id: ChainId,
    address: Seq<char>,
) -> bool {
    row.chain_id == chain_id && row.address == address
}

/// Whether the registry knows `address` on `chain_id`.
pub open spec fn has_address(
    rows: Seq<ContractAddressView>,
    chain_id: ChainId,
    address: Seq<char>,
) -> bool {
    exists|i: int| 0 <= i < rows.len() && is_address(#[trigger] rows[i], chain_id, address)
}

/// The registry's invariant: the row at position `i` has id `i + 1`, and no
/// pair of chain and address occurs twice.
pub open spec fn registry_wf(rows: Seq<ContractAddressView>) -> bool {
    &&& forall|i: int| 0 <= i < rows.len() ==> (#[trigger] rows[i]).id == i + 1
    &&& forall|i: int, j: int|
        0 <= i < j < rows.len() ==> !is_address(
            #[trigger] rows[j],
            (#[trigger] rows[i]).chain_id,
            rows[i].address,
        )
}

/// The row a newly registered address gets: all three cursors start at its
/// start block.
pub open spec fn fresh_row(id: u64, unsaved: UnsavedContractAddressView) -> ContractAddressView {
    ContractAddressView {
        id,
        chain_id: unsaved.chain_id,
        next_block_number_to_ingest_from: unsaved.start_block_number,
        next_block_number_to_handle_from: unsaved.start_block_number,
        next_block_number_for_side_effects: unsaved.start_block_number,
        start_block_number: unsaved.start_block_number,
        address: unsaved.address,
        contract_name: unsaved.contract_name,
    }
}

/// A known row after an upsert of the same identity: name and start block
/// are taken over, id and cursors stay.
pub open spec fn overwritten(
    row: ContractAddressView,
    unsaved: UnsavedContractAddressView,
) -> ContractAddressView {
    ContractAddressView {
        contract_name: unsaved.contract_name,
        start_block_number: unsaved.start_block_number,
        ..row
    }
}

/// The registry after one upsert.
pub open spec fn upsert_one(
    rows: Seq<ContractAddressView>,
    unsaved: UnsavedContractAddressView,
) -> Seq<ContractAddressView> {
    if has_address(rows, unsaved.chain_id, unsaved.address) {
        rows.map_values(
            |row: ContractAddressView|
                if is_address(row, unsaved.chain_id, unsaved.address) {
                    overwritten(row, unsaved)
                } else {
                    row
                },
        )
    } else {
        rows.push(fresh_row((rows.len() + 1) as u64, unsaved))
    }
}

/// The registry after the upserts of a batch, first to last.
pub open spec fn upsert_all(
    rows: Seq<ContractAddressView>,
    batch: Seq<UnsavedContractAddressView>,
) -> Seq<ContractAddressView>
    decreases batch.len(),
{
    if batch.len() == 0 {
        rows
    } else {
        upsert_one(upsert_all(rows, batch.drop_last()), batch.last())
    }
}

/// The registry after a create: a known identity is left as it is.
pub open spec fn create_one(
    rows: Seq<ContractAddressView>,
    unsaved: UnsavedContractAddressView,
) -> Seq<ContractAddressView> {
    if has_address(rows, unsaved.chain_id, unsaved.address) {
        rows
    } else {
        rows.push(fresh_row((rows.len() + 1) as u64, unsaved))
    }
}

/// The registry with the ingestion cursor of the row `id` at `block_number`.
pub open spec fn with_ingest_cursor(
    rows: Seq<ContractAddressView>,
    id: u64,
    block_number: u64,
) -> Seq<ContractAddressView> {
    rows.map_values(
        |row: ContractAddressView|
            if row.id == id {
                ContractAddressView { next_block_number_to_ingest_from: block_number, ..row }
            } else {
                row
            },
    )
}

/// The registry with the handler cursor of the row `id` at `block_number`.
pub open spec fn with_handle_cursor(
    rows: Seq<ContractAddressView>,
    id: u64,
    block_number: u64,
) -> Seq<ContractAddressView> {
    rows.map_values(
        |row: ContractAddressView|
            if row.id == id {
                ContractAddressView { next_block_number_to_handle_from: block_number, ..row }
            } else {
                row
            },
    )
}

/// The registry with the side-effect cursor of the row `id` at
/// `block_number`.
pub open spec fn with_side_effects_cursor(
    rows: Seq<ContractAddressView>,
    id: u64,
    block_number: u64,
) -> Seq<ContractAddressView> {
    rows.map_values(
        |row: ContractAddressView|
            if row.id == id {
                ContractAddressView { next_block_number_for_side_effects: block_number, ..row }
            } else {
                row
            },
    )
}

/// One upsert keeps the registry's invariant, and the ids, identities and
/// cursors of the rows it found.
pub(crate) proof fn lemma_upsert_one_wf(
    rows: Seq<ContractAddressView>,
    unsaved: UnsavedContractAddressView,
)
    requires
        registry_wf(rows),
        rows.len() < u64::MAX,
    ensures
        registry_wf(upsert_one(rows, unsaved)),
        has_address(upsert_one(rows, unsaved), unsaved.chain_id, unsaved.address),
        rows.len() <= upsert_one(rows, unsaved).len() <= rows.len() + 1,
        upsert_one(rows, unsaved).len() == rows.len() <==> has_address(
            rows,
            unsaved.chain_id,
            unsaved.address,
        ),
{
    let after = upsert_one(rows, unsaved);
    if has_address(rows, unsaved.chain_id, unsaved.address) {
        let i = choose|i: int|
            0 <= i < rows.len() && is_address(
                #[trigger] rows[i],
                unsaved.chain_id,
                unsaved.address,
            );
        assert(is_address(after[i], unsaved.chain_id, unsaved.address));
    } else {
        assert(is_address(after[rows.len() as int], unsaved.chain_id, unsaved.address));
    }
}

/// Whether two rows agree in id, identity and all three cursors.
pub open spec fn same_identity_and_cursors(
    before: ContractAddressView,
    after: ContractAddressView,
) -> bool {
    &&& after.id == before.id
    &&& after.chain_id == before.chain_id
    &&& after.address == before.address
    &&& after.next_block_number_to_ingest_from == before.next_block_number_to_ingest_from
    &&& after.next_block_number_to_handle_from == before.next_block_number_to_handle_from
    &&& after.next_block_number_for_side_effects == before.next_block_number_for_side_effects
}

/// The last entry of a batch for `address` on `chain_id`, if there is one.
pub open spec fn last_upsert_of(
    batch: Seq<UnsavedContractAddressView>,
    chain_id: ChainId,
    address: Seq<char>,
) -> Option<UnsavedContractAddressView>
    decreases batch.len(),
{
    if batch.len() == 0 {
        None
    } else if batch.last().chain_id == chain_id && batch.last().address == address {
        Some(batch.last())
    } else {
        last_upsert_of(batch.drop_last(), chain_id, address)
    }
}

/// Where `last_upsert_of` finds its entry: at the last position of the batch
/// that names the identity.
proof fn lemma_last_upsert_of(
    batch: Seq<UnsavedContractAddressView>,
    chain_id: ChainId,
    address: Seq<char>,
)
    ensures
        match last_upsert_of(batch, chain_id, address) {
            Some(unsaved) => exists|l: int|
                0 <= l < batch.len() && #[trigger] batch[l] == unsaved && unsaved.chain_id
                    == chain_id && unsaved.address == address && forall|m: int|
                    l < m < batch.len() ==> !((#[trigger] batch[m]).chain_id == chain_id
                        && batch[m].address == address),
            None => forall|m: int|
                0 <= m < batch.len() ==> !((#[trigger] batch[m]).chain_id == chain_id
                    && batch[m].address == address),
        },
    decreases batch.len(),
{
    if batch.len() > 0 {
        let init = batch.drop_last();
        lemma_last_upsert_of(init, chain_id, address);
        let names_it = batch.last().chain_id == chain_id && batch.last().address == address;
        if !names_it {
            match last_upsert_of(init, chain_id, address) {
                Some(unsaved) => {
                    let l = choose|l: int|
                        0 <= l < init.len() && #[trigger] init[l] == unsaved && forall|m: int|
                            l < m < init.len() ==> !((#[trigger] init[m]).chain_id == chain_id
                                && init[m].address == address);
                    assert forall|m: int| l < m < batch.len() implies !((
                    #[trigger] batch[m]).chain_id == chain_id && batch[m].address == address) by {
                        if m < init.len() {
                            assert(batch[m] == init[m]);
                        }
                    }
                },
                None => {
                    assert forall|m: int| 0 <= m < batch.len() implies !((
                    #[trigger] batch[m]).chain_id == chain_id && batch[m].address == address) by {
                        if m < init.len() {
                            assert(batch[m] == init[m]);
                        }
                    }
                },
            }
        }
    }
}

/// What a batch of upserts leaves in each row.
///
/// Rows that were there keep their place, id, identity and cursors. A row
/// whose identity the batch names carries the name and start block of the
/// batch's last entry for it; every other row is untouched. Every identity of
/// the batch is known afterwards, and a row that the batch added has the
/// start block of one of its entries as ingestion cursor.
pub proof fn lemma_upsert_all_rows(
    rows: Seq<ContractAddressView>,
    batch: Seq<UnsavedContractAddressView>,
)
    ensures
        rows.len() <= upsert_all(rows, batch).len() <= rows.len() + batch.len(),
        forall|p: int|
            0 <= p < rows.len() ==> same_identity_and_cursors(
                rows[p],
                #[trigger] upsert_all(rows, batch)[p],
            ),
        forall|p: int|
            0 <= p < upsert_all(rows, batch).len() ==> match last_upsert_of(
                batch,
                (#[trigger] upsert_all(rows, batch)[p]).chain_id,
                upsert_all(rows, batch)[p].address,
            ) {
                Some(unsaved) => upsert_all(rows, batch)[p].contract_name == unsaved.contract_name
                    && upsert_all(rows, batch)[p].start_block_number
                    == unsaved.start_block_number,
                None => p < rows.len() && upsert_all(rows, batch)[p] == rows[p],
            },
        forall|j: int|
            0 <= j < batch.len() ==> has_address(
                upsert_all(rows, batch),
                (#[trigger] batch[j]).chain_id,
                batch[j].address,
            ),
        forall|p: int|
            rows.len() <= p < upsert_all(rows, batch).len() ==> exists|m: int|
                0 <= m < batch.len() && is_address(
                    #[trigger] upsert_all(rows, batch)[p],
                    (#[trigger] batch[m]).chain_id,
                    batch[m].address,
                ) && upsert_all(rows, batch)[p].next_block_number_to_ingest_from
                    == batch[m].start_block_number,
        (forall|j: int|
            0 <= j < batch.len() ==> has_address(
                rows,
                (#[trigger] batch[j]).chain_id,
                batch[j].address,
            )) ==> upsert_all(rows, batch).len() == rows.len(),
    decreases batch.len(),
{
    if batch.len() > 0 {
        let init = batch.drop_last();
        let last = batch.last();
        let prev = upsert_all(rows, init);
        let result = upsert_all(rows, batch);
        lemma_upsert_all_rows(rows, init);
        if has_address(prev, last.chain_id, last.address) {
            let w = choose|i: int|
                0 <= i < prev.len() && is_address(#[trigger] prev[i], last.chain_id, last.address);
            assert(is_address(result[w], last.chain_id, last.address));
        } else {
            assert(is_address(result[prev.len() as int], last.chain_id, last.address));
        }
        assert forall|j: int| 0 <= j < batch.len() implies has_address(
            result,
            (#[trigger] batch[j]).chain_id,
            batch[j].address,
        ) by {
            if j < init.len() {
                let q = choose|i: int|
                    0 <= i < prev.len() && is_address(
                        #[trigger] prev[i],
                        init[j].chain_id,
                        init[j].address,
                    );
                assert(is_address(result[q], batch[j].chain_id, batch[j].address));
            }
        }
        if forall|j: int|
            0 <= j < batch.len() ==> has_address(
                rows,
                (#[trigger] batch[j]).chain_id,
                batch[j].address,
            ) {
            let q = choose|i: int|
                0 <= i < rows.len() && is_address(#[trigger] rows[i], last.chain_id, last.address);
            assert(is_address(prev[q], last.chain_id, last.address));
        }
    }
}

/// An upsert overwrites name and start block of the rows it names and
/// moves no cursor: after a batch, every row that was there has its id,
/// chain, address and all three cursors as before.
pub proof fn lemma_upsert_keeps_cursors(
    rows: Seq<ContractAddressView>,
    batch: Seq<UnsavedContractAddressView>,
)
    ensures
        rows.len() <= upsert_all(rows, batch).len(),
        forall|p: int|
            0 <= p < rows.len() ==> same_identity_and_cursors(
                rows[p],
                #[trigger] upsert_all(rows, batch)[p],
            ),
        forall|p: int|
            0 <= p < rows.len() ==> match last_upsert_of(
                batch,
                (#[trigger] rows[p]).chain_id,
                rows[p].address,
            ) {
                Some(unsaved) => upsert_all(rows, batch)[p].contract_name == unsaved.contract_name
                    && upsert_all(rows, batch)[p].start_block_number
                    == unsaved.start_block_number,
                None => upsert_all(rows, batch)[p] == rows[p],
            },
{
    lemma_upsert_all_rows(rows, batch);
}

/// Upserting the same batch twice leaves the registry as upserting it once.
pub proof fn lemma_upsert_is_idempotent(
    rows: Seq<ContractAddressView>,
    batch: Seq<UnsavedContractAddressView>,
)
    ensures
        upsert_all(upsert_all(rows, batch), batch) == upsert_all(rows, batch),
{
    lemma_upsert_all_rows(rows, batch);
    lemma_upsert_all_rows(upsert_all(rows, batch), batch);
}

/// Whether every row's ingestion cursor stands at or after its start block.
pub open spec fn ingests_from_start_on(rows: Seq<ContractAddressView>) -> bool {
    forall|i: int|
        0 <= i < rows.len() ==> (#[trigger] rows[i]).start_block_number
            <= rows[i].next_block_number_to_ingest_from
}

/// A create leaves every ingestion cursor at or after its start block.
pub proof fn lemma_create_ingests_from_start_on(
    rows: Seq<ContractAddressView>,
    unsaved: UnsavedContractAddressView,
)
    requires
        ingests_from_start_on(rows),
    ensures
        ingests_from_start_on(create_one(rows, unsaved)),
{
}

/// One upsert leaves every ingestion cursor at or after its start block
/// exactly when it does not raise a known row's start block above that row's
/// ingestion cursor.
pub proof fn lemma_upsert_one_ingests_from_start_on(
    rows: Seq<ContractAddressView>,
    unsaved: UnsavedContractAddressView,
)
    requires
        ingests_from_start_on(rows),
    ensures
        ingests_from_start_on(upsert_one(rows, unsaved)) <==> (forall|i: int|
            0 <= i < rows.len() && is_address(#[trigger] rows[i], unsaved.chain_id, unsaved.address)
                ==> unsaved.start_block_number <= rows[i].next_block_number_to_ingest_from),
{
    let after = upsert_one(rows, unsaved);
    if ingests_from_start_on(after) {
        assert forall|i: int|
            0 <= i < rows.len() && is_address(
                #[trigger] rows[i],
                unsaved.chain_id,
                unsaved.address,
            ) implies unsaved.start_block_number <= rows[i].next_block_number_to_ingest_from by {
            assert(after[i] == overwritten(rows[i], unsaved));
        }
    }
}

/// A batch of upserts leaves every ingestion cursor at or after its start
/// block, provided no entry raises a start block above the ingestion cursor
/// of the row it names: neither that of a row that was there, nor, among
/// entries for one identity, above the start block of an earlier entry.
pub proof fn lemma_upsert_ingests_from_start_on(
    rows: Seq<ContractAddressView>,
    batch: Seq<UnsavedContractAddressView>,
)
    requires
        ingests_from_start_on(rows),
        forall|i: int, j: int|
            0 <= i < rows.len() && 0 <= j < batch.len() && is_address(
                #[trigger] rows[i],
                (#[trigger] batch[j]).chain_id,
                batch[j].address,
            ) ==> batch[j].start_block_number <= rows[i].next_block_number_to_ingest_from,
        forall|j: int, k: int|
            0 <= j < k < batch.len() && (#[trigger] batch[k]).chain_id == (
            #[trigger] batch[j]).chain_id && batch[k].address == batch[j].address
                ==> batch[k].start_block_number <= batch[j].start_block_number,
    ensures
        ingests_from_start_on(upsert_all(rows, batch)),
{
    let result = upsert_all(rows, batch);
    lemma_upsert_all_rows(rows, batch);
    assert forall|p: int| 0 <= p < result.len() implies (#[trigger] result[p]).start_block_number
        <= result[p].next_block_number_to_ingest_from by {
        lemma_last_upsert_of(batch, result[p].chain_id, result[p].address);
    }
}

/// Moving an ingestion cursor leaves every ingestion cursor at or after its
/// start block exactly when the new position is not before the start block
/// of the row it is set on.
pub proof fn lemma_with_ingest_cursor_ingests_from_start_on(
    rows: Seq<ContractAddressView>,
    id: u64,
    block_number: u64,
)
    requires
        ingests_from_start_on(rows),
    ensures
        ingests_from_start_on(with_ingest_cursor(rows, id, block_number)) <==> (forall|i: int|
            0 <= i < rows.len() && (#[trigger] rows[i]).id == id ==> rows[i].start_block_number
                <= block_number),
{
    let after = with_ingest_cursor(rows, id, block_number);
    if ingests_from_start_on(after) {
        assert forall|i: int|
            0 <= i < rows.len() && (#[trigger] rows[i]).id
                == id implies rows[i].start_block_number <= block_number by {
            assert(after[i].start_block_number <= after[i].next_block_number_to_ingest_from);
        }
    } else {
        let i = choose|i: int|
            0 <= i < after.len() && !((#[trigger] after[i]).start_block_number
                <= after[i].next_block_number_to_ingest_from);
        assert(rows[i].start_block_number <= rows[i].next_block_number_to_ingest_from);
    }
}

/// Whether every row holds its address case-folded.
pub open spec fn holds_addresses_case_folded(rows: Seq<ContractAddressView>) -> bool {
    forall|i: int| 0 <= i < rows.len() ==> is_case_folded((#[trigger] rows[i]).address)
}

/// The registry holds addresses case-folded: where it did before and
/// every address of a batch is case-folded, it does after the upserts of the
/// batch and after the create of any of its entries.
pub proof fn lemma_registry_holds_addresses_case_folded(
    rows: Seq<ContractAddressView>,
    batch: Seq<UnsavedContractAddressView>,
)
    requires
        holds_addresses_case_folded(rows),
        forall|j: int| 0 <= j < batch.len() ==> is_case_folded((#[trigger] batch[j]).address),
    ensures
        holds_addresses_case_folded(upsert_all(rows, batch)),
        forall|j: int|
            0 <= j < batch.len() ==> holds_addresses_case_folded(
                create_one(rows, #[trigger] batch[j]),
            ),
{
    lemma_upsert_all_rows(rows, batch);
    assert forall|j: int| 0 <= j < batch.len() implies holds_addresses_case_folded(
        create_one(rows, #[trigger] batch[j]),
    ) by {}
}

/// A cursor over the registry rows of one chain, read page by page in id
/// order. A page is read from the store as it is at that moment, so rows
/// registered meanwhile are picked up.
#[derive(Debug)]
pub struct ContractAddressesStream {
    pub chain_id: ChainId,
    pub last_seen_id: u64,
    pub page_size: usize,
}

/// The rows a stream for `chain_id` still has to hand out once it has seen
/// the row `last_seen_id`: those of the chain with a greater id.
pub open spec fn streams_after(chain_id: ChainId, last_seen_id: u64) -> spec_fn(
    ContractAddressView,
) -> bool {
    |row: ContractAddressView| row.chain_id == chain_id && row.id > last_seen_id
}

/// All rows of `chain_id` after the row `last_seen_id`, in table order.
pub open spec fn rows_after(
    rows: Seq<ContractAddressView>,
    chain_id: ChainId,
    last_seen_id: u64,
) -> Seq<ContractAddressView> {
    rows.filter(streams_after(chain_id, last_seen_id))
}

/// The next page of a stream: the first `page_size` of the rows that are
/// left, or all of them where fewer are left.
pub open spec fn page_after(
    rows: Seq<ContractAddressView>,
    chain_id: ChainId,
    last_seen_id: u64,
    page_size: nat,
) -> Seq<ContractAddressView> {
    let rest = rows_after(rows, chain_id, last_seen_id);
    if rest.len() <= page_size {
        rest
    } else {
        rest.take(page_size as int)
    }
}

/// Whether the ids of a list of rows ascend.
pub open spec fn ids_ascend(rows: Seq<ContractAddressView>) -> bool {
    forall|i: int, j: int|
        0 <= i < j < rows.len() ==> (#[trigger] rows[i]).id < (#[trigger] rows[j]).id
}

/// Dropping rows keeps the ids in ascending order.
proof fn lemma_filter_keeps_ids_ascending(
    rows: Seq<ContractAddressView>,
    kept: spec_fn(ContractAddressView) -> bool,
)
    requires
        ids_ascend(rows),
    ensures
        ids_ascend(rows.filter(kept)),
    decreases rows.len(),
{
    reveal(Seq::filter);
    if rows.len() > 0 {
        let init = rows.drop_last();
        lemma_filter_keeps_ids_ascending(init, kept);
        if kept(rows.last()) {
            let rest = init.filter(kept);
            assert forall|i: int, j: int| 0 <= i < j < rest.len() + 1 implies (
            #[trigger] rows.filter(kept)[i]).id < (#[trigger] rows.filter(kept)[j]).id by {
                if j == rest.len() {
                    init.lemma_filter_contains_rev(kept, rest[i]);
                }
            }
        }
    }
}

/// Filtering twice is filtering once by both conditions.
proof fn lemma_filter_twice(
    rows: Seq<ContractAddressView>,
    first: spec_fn(ContractAddressView) -> bool,
    second: spec_fn(ContractAddressView) -> bool,
    both: spec_fn(ContractAddressView) -> bool,
)
    requires
        forall|row: ContractAddressView| #[trigger] both(row) == (first(row) && second(row)),
    ensures
        rows.filter(first).filter(second) == rows.filter(both),
    decreases rows.len(),
{
    reveal(Seq::filter);
    if rows.len() > 0 {
        let init = rows.drop_last();
        lemma_filter_twice(init, first, second, both);
        if first(rows.last()) {
            assert(init.filter(first).push(rows.last()).drop_last() =~= init.filter(first));
        }
    }
}

/// In a list with ascending ids, the rows with an id above that of the row
/// at position `k - 1` are the rows from position `k` on.
proof fn lemma_rows_above(rows: Seq<ContractAddressView>, k: int, id: u64)
    requires
        0 <= k <= rows.len(),
        forall|i: int| 0 <= i < k ==> (#[trigger] rows[i]).id <= id,
        forall|i: int| k <= i < rows.len() ==> (#[trigger] rows[i]).id > id,
    ensures
        rows.filter(|row: ContractAddressView| row.id > id) == rows.skip(k),
    decreases rows.len(),
{
    reveal(Seq::filter);
    if rows.len() > 0 {
        let init = rows.drop_last();
        if k == rows.len() {
            lemma_rows_above(init, k - 1, id);
        } else {
            lemma_rows_above(init, k, id);
        }
    }
}

/// A stream hands out every row of its chain once: what is left before a
/// page is the page followed by what is left behind the page's last row.
/// An empty page of a stream with pages of at least one row means that
/// nothing is left.
pub proof fn lemma_stream_hands_out_every_row_once(
    rows: Seq<ContractAddressView>,
    chain_id: ChainId,
    last_seen_id: u64,
    page_size: nat,
)
    requires
        registry_wf(rows),
    ensures
        page_after(rows, chain_id, last_seen_id, page_size).len() > 0 ==> rows_after(
            rows,
            chain_id,
            last_seen_id,
        ) == page_after(rows, chain_id, last_seen_id, page_size) + rows_after(
            rows,
            chain_id,
            page_after(rows, chain_id, last_seen_id, page_size).last().id,
        ),
        page_after(rows, chain_id, last_seen_id, page_size).len() == 0 && page_size > 0
            ==> rows_after(rows, chain_id, last_seen_id).len() == 0,
{
    let left = rows_after(rows, chain_id, last_seen_id);
    let page = page_after(rows, chain_id, last_seen_id, page_size);
    if page.len() > 0 {
        let k = page.len() as int;
        let id = page.last().id;
        let above = |row: ContractAddressView| row.id > id;
        lemma_filter_keeps_ids_ascending(rows, streams_after(chain_id, last_seen_id));
        lemma_rows_above(left, k, id);
        lemma_filter_twice(
            rows,
            streams_after(chain_id, last_seen_id),
            above,
            streams_after(chain_id, id),
        );
    }
}

} // verus!
