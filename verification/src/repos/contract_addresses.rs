//! The operations of the store on the registry of contract addresses.

use crate::chains::ChainId;
use crate::contracts::{
    create_one, has_address, is_address, lemma_stream_hands_out_every_row_once,
    lemma_upsert_all_rows, lemma_upsert_one_wf, page_after, rows_after, same_identity_and_cursors,
    streams_after, unsaved_views, upsert_all, upsert_one, with_handle_cursor, with_ingest_cursor,
    with_side_effects_cursor, ContractAddress, ContractAddressesStream, UnsavedContractAddress,
};
use crate::repos::{contract_address_views, Store, StoreView};
use vstd::prelude::*;

verus! {

impl Store {
    /// Where the row for `address` on `chain_id` stands, if the registry
    /// knows it.
    fn find_contract_address(&self, chain_id: ChainId, address: &String) -> (found: Option<usize>)
        ensures
            match found {
                Some(i) => i < self.contract_addresses.len() && is_address(
                    self@.contract_addresses[i as int],
                    chain_id,
                    address@,
                ),
                None => !has_address(self@.contract_addresses, chain_id, address@),
            },
    {
        let mut i: usize = 0;
        while i < self.contract_addresses.len()
            invariant
                i <= self.contract_addresses.len(),
                forall|j: int|
                    0 <= j < i ==> !is_address(
                        #[trigger] self@.contract_addresses[j],
                        chain_id,
                        address@,
                    ),
            decreases self.contract_addresses.len() - i,
        {
            let row = &self.contract_addresses[i];
            if row.chain_id == chain_id && row.address == *address {
                return Some(i);
            }
            i += 1;
        }
        None
    }

    /// Registers one address, or takes over name and start block where the
    /// registry knows its identity already.
    fn upsert_contract_address(&mut self, unsaved: &UnsavedContractAddress)
        requires
            old(self).wf(),
            old(self).contract_addresses.len() < usize::MAX,
        ensures
            final(self).wf(),
            final(self)@ == (StoreView {
                contract_addresses: upsert_one(old(self)@.contract_addresses, unsaved@),
                ..old(self)@
            }),
    {
        match self.find_contract_address(unsaved.chain_id, &unsaved.address) {
            Some(i) => {
                let ghost before = self@.contract_addresses;
                self.contract_addresses[i].contract_name = unsaved.contract_name.clone();
                self.contract_addresses[i].start_block_number = unsaved.start_block_number;
                assert(self@.contract_addresses =~= upsert_one(before, unsaved@));
            },
            None => {
                let id = (self.contract_addresses.len() + 1) as u64;
                self.contract_addresses.push(
                    ContractAddress {
                        id,
                        chain_id: unsaved.chain_id,
                        next_block_number_to_ingest_from: unsaved.start_block_number,
                        next_block_number_to_handle_from: unsaved.start_block_number,
                        next_block_number_for_side_effects: unsaved.start_block_number,
                        start_block_number: unsaved.start_block_number,
                        address: unsaved.address.clone(),
                        contract_name: unsaved.contract_name.clone(),
                    },
                );
                assert(self@.contract_addresses =~= upsert_one(
                    old(self)@.contract_addresses,
                    unsaved@,
                ));
            },
        }
    }

    /// Registers a batch of addresses, first to last. Where the registry
    /// knows the chain and address of one already, only its name and start
    /// block are taken over: id and cursors stay as they are.
    pub fn upsert_contract_addresses(&mut self, contract_addresses: &Vec<UnsavedContractAddress>)
        requires
            old(self).wf(),
            old(self).contract_addresses.len() + contract_addresses.len() <= usize::MAX,
        ensures
            final(self).wf(),
            final(self)@ == (StoreView {
                contract_addresses: upsert_all(
                    old(self)@.contract_addresses,
                    unsaved_views(contract_addresses@),
                ),
                ..old(self)@
            }),
            old(self)@.contract_addresses.len() <= final(self)@.contract_addresses.len(),
            forall|p: int|
                0 <= p < old(self)@.contract_addresses.len() ==> same_identity_and_cursors(
                    old(self)@.contract_addresses[p],
                    #[trigger] final(self)@.contract_addresses[p],
                ),
    {
        let ghost batch = unsaved_views(contract_addresses@);
        let mut i: usize = 0;
        while i < contract_addresses.len()
            invariant
                i <= contract_addresses.len(),
                batch == unsaved_views(contract_addresses@),
                self.wf(),
                self.contract_addresses.len() <= old(self).contract_addresses.len() + i,
                old(self).contract_addresses.len() + contract_addresses.len() <= usize::MAX,
                self@ == (StoreView {
                    contract_addresses: upsert_all(
                        old(self)@.contract_addresses,
                        batch.take(i as int),
                    ),
                    ..old(self)@
                }),
            decreases contract_addresses.len() - i,
        {
            proof {
                assert(batch.take(i + 1).drop_last() =~= batch.take(i as int));
                lemma_upsert_one_wf(self@.contract_addresses, batch[i as int]);
            }
            self.upsert_contract_address(&contract_addresses[i]);
            i += 1;
        }
        proof {
            assert(batch.take(i as int) =~= batch);
            lemma_upsert_all_rows(old(self)@.contract_addresses, batch);
        }
    }

    /// Registers one address unless the registry knows its chain and address
    /// already; a known row is left untouched.
    pub fn create_contract_address(&mut self, contract_address: &UnsavedContractAddress)
        requires
            old(self).wf(),
            old(self).contract_addresses.len() < usize::MAX,
        ensures
            final(self).wf(),
            final(self)@ == (StoreView {
                contract_addresses: create_one(old(self)@.contract_addresses, contract_address@),
                ..old(self)@
            }),
    {
        match self.find_contract_address(contract_address.chain_id, &contract_address.address) {
            Some(_) => {},
            None => {
                let id = (self.contract_addresses.len() + 1) as u64;
                self.contract_addresses.push(
                    ContractAddress {
                        id,
                        chain_id: contract_address.chain_id,
                        next_block_number_to_ingest_from: contract_address.start_block_number,
                        next_block_number_to_handle_from: contract_address.start_block_number,
                        next_block_number_for_side_effects: contract_address.start_block_number,
                        start_block_number: contract_address.start_block_number,
                        address: contract_address.address.clone(),
                        contract_name: contract_address.contract_name.clone(),
                    },
                );
                assert(self@.contract_addresses =~= create_one(
                    old(self)@.contract_addresses,
                    contract_address@,
                ));
            },
        }
    }

    /// Every row of the registry, in id order.
    pub fn get_all_contract_addresses(&self) -> (rows: Vec<ContractAddress>)
        ensures
            contract_address_views(rows@) == self@.contract_addresses,
    {
        let mut rows: Vec<ContractAddress> = Vec::new();
        let mut i: usize = 0;
        while i < self.contract_addresses.len()
            invariant
                i <= self.contract_addresses.len(),
                rows.len() == i,
                contract_address_views(rows@) == self@.contract_addresses.take(i as int),
            decreases self.contract_addresses.len() - i,
        {
            let row = self.contract_addresses[i].clone();
            rows.push(row);
            i += 1;
        }
        rows
    }

    /// Moves the ingestion cursor of the row with the id of
    /// `contract_address` to `block_number`. No row changes where the
    /// registry holds no such id.
    pub fn update_next_block_number_to_ingest_from(
        &mut self,
        contract_address: &ContractAddress,
        block_number: u64,
    )
        requires
            old(self).wf(),
        ensures
            final(self).wf(),
            final(self)@ == (StoreView {
                contract_addresses: with_ingest_cursor(
                    old(self)@.contract_addresses,
                    contract_address.id,
                    block_number,
                ),
                ..old(self)@
            }),
    {
        let id = contract_address.id;
        if 1 <= id && id - 1 < self.contract_addresses.len() as u64 {
            self.contract_addresses[(id - 1) as usize].next_block_number_to_ingest_from =
                block_number;
        }
        assert(self@.contract_addresses =~= with_ingest_cursor(
            old(self)@.contract_addresses,
            id,
            block_number,
        ));
    }

    /// Moves the handler cursor of the row with the id of `contract_address`
    /// to `block_number`. No row changes where the registry holds no such id.
    pub fn update_next_block_number_to_handle_from(
        &mut self,
        contract_address: &ContractAddress,
        block_number: u64,
    )
        requires
            old(self).wf(),
        ensures
            final(self).wf(),
            final(self)@ == (StoreView {
                contract_addresses: with_handle_cursor(
                    old(self)@.contract_addresses,
                    contract_address.id,
                    block_number,
                ),
                ..old(self)@
            }),
    {
        let id = contract_address.id;
        if 1 <= id && id - 1 < self.contract_addresses.len() as u64 {
            self.contract_addresses[(id - 1) as usize].next_block_number_to_handle_from =
                block_number;
        }
        assert(self@.contract_addresses =~= with_handle_cursor(
            old(self)@.contract_addresses,
            id,
            block_number,
        ));
    }

    /// Moves the side-effect cursor of the row with the id of
    /// `contract_address` to `block_number`. No row changes where the
    /// registry holds no such id.
    pub fn update_next_block_number_for_side_effects(
        &mut self,
        contract_address: &ContractAddress,
        block_number: u64,
    )
        requires
            old(self).wf(),
        ensures
            final(self).wf(),
            final(self)@ == (StoreView {
                contract_addresses: with_side_effects_cursor(
                    old(self)@.contract_addresses,
                    contract_address.id,
                    block_number,
                ),
                ..old(self)@
            }),
    {
        let id = contract_address.id;
        if 1 <= id && id - 1 < self.contract_addresses.len() as u64 {
            self.contract_addresses[(id - 1) as usize].next_block_number_for_side_effects =
                block_number;
        }
        assert(self@.contract_addresses =~= with_side_effects_cursor(
            old(self)@.contract_addresses,
            id,
            block_number,
        ));
    }
}

impl Store {
    /// A stream over the registry rows of `chain_id` that starts before the
    /// first row and hands out `page_size` rows at a time.
    pub fn get_contract_addresses_stream_by_chain(
        chain_id: ChainId,
        page_size: usize,
    ) -> (stream: ContractAddressesStream)
        ensures
            stream.chain_id == chain_id,
            stream.last_seen_id == 0,
            stream.page_size == page_size,
    {
        ContractAddressesStream { chain_id, last_seen_id: 0, page_size }
    }
}

impl ContractAddressesStream {
    /// Reads the next page from `store`: the rows of this stream's chain
    /// whose id is greater than the last one handed out, in id order, at most
    /// `page_size` of them. An empty page means that the stream is drained.
    /// On a store that stays as it is, the pages of a stream are the rows of
    /// its chain, each once: what was left before a page is the page
    /// followed by what is left after it.
    pub fn next(&mut self, store: &Store) -> (page: Vec<ContractAddress>)
        ensures
            store.wf() && page@.len() > 0 ==> rows_after(
                store@.contract_addresses,
                old(self).chain_id,
                old(self).last_seen_id,
            ) == contract_address_views(page@) + rows_after(
                store@.contract_addresses,
                final(self).chain_id,
                final(self).last_seen_id,
            ),
            contract_address_views(page@) == page_after(
                store@.contract_addresses,
                old(self).chain_id,
                old(self).last_seen_id,
                old(self).page_size as nat,
            ),
            final(self).chain_id == old(self).chain_id,
            final(self).page_size == old(self).page_size,
            final(self).last_seen_id == if page@.len() == 0 {
                old(self).last_seen_id
            } else {
                page@.last().id
            },
    {
        let ghost rows = store@.contract_addresses;
        let ghost wanted = streams_after(self.chain_id, self.last_seen_id);
        let mut page: Vec<ContractAddress> = Vec::new();
        let mut i: usize = 0;
        while i < store.contract_addresses.len() && page.len() < self.page_size
            invariant
                i <= store.contract_addresses.len(),
                rows == store@.contract_addresses,
                wanted == streams_after(self.chain_id, self.last_seen_id),
                page.len() <= self.page_size,
                contract_address_views(page@) == rows.take(i as int).filter(wanted),
            decreases store.contract_addresses.len() - i,
        {
            let row = &store.contract_addresses[i];
            proof {
                reveal(Seq::filter);
                assert(rows.take(i + 1).drop_last() =~= rows.take(i as int));
            }
            if row.chain_id == self.chain_id && row.id > self.last_seen_id {
                page.push(row.clone());
            }
            i += 1;
        }
        proof {
            assert(rows =~= rows.take(i as int) + rows.skip(i as int));
            if store.wf() {
                lemma_stream_hands_out_every_row_once(
                    rows,
                    self.chain_id,
                    self.last_seen_id,
                    self.page_size as nat,
                );
            }
        }
        if page.len() > 0 {
            self.last_seen_id = page[page.len() - 1].id;
        }
        page
    }
}

} // verus!
