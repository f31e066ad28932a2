//! Hashing of a contract's storage pages.

use vstd::prelude::*;
use std::marker::PhantomData;
use crate::address::{lemma_address_add, spec_address_add, Address};
use crate::le_bytes::le_value;
use crate::key_hasher::{DefaultKeyHasher, KeyHasher};
use crate::page::{PageHash, PageIndex};

verus! {

/// Computes the digest of one page of a contract's storage.
pub trait PageHasher {
    /// The digest of the page `page_idx` of the contract at `contract_addr`,
    /// holding `page_data`.
    fn hash(contract_addr: Address, page_idx: PageIndex, page_data: &[u8]) -> PageHash;
}

/// The page digest of `PageHasherImpl<H>`:
/// `page_addr = contract_addr + page_idx` and
/// `HASH(page_addr || HASH(page_data))`.
pub open spec fn spec_page_hash<H: KeyHasher>(
    contract_addr: Seq<u8>,
    page_idx: u32,
    page_data: Seq<u8>,
) -> Seq<u8> {
    H::spec_hash(spec_address_add(contract_addr, page_idx) + H::spec_hash(page_data))
}

/// The page digest is `HASH(page_addr || HASH(page_data))`, where `page_addr`
/// is the 33-byte little-endian sum of the whole 32-byte contract address and
/// the page index, and `page_data` is hashed whole.
pub proof fn lemma_spec_page_hash<H: KeyHasher>(
    contract_addr: Seq<u8>,
    page_idx: u32,
    page_data: Seq<u8>,
)
    requires
        contract_addr.len() == 32,
    ensures
        exists|page_addr: Seq<u8>|
            {
                &&& page_addr.len() == 33
                &&& le_value(page_addr) == le_value(contract_addr) + page_idx
                &&& spec_page_hash::<H>(contract_addr, page_idx, page_data) == H::spec_hash(
                    page_addr + H::spec_hash(page_data),
                )
            },
{
    lemma_address_add(contract_addr, page_idx);
    let page_addr = spec_address_add(contract_addr, page_idx);
    assert(page_addr.len() == 33 && le_value(page_addr) == le_value(contract_addr) + page_idx
        && spec_page_hash::<H>(contract_addr, page_idx, page_data) == H::spec_hash(
        page_addr + H::spec_hash(page_data),
    ));
}

/// A `PageHasher` built on the key hasher `H`.
pub struct PageHasherImpl<H> {
    marker: PhantomData<H>,
}

impl<H: KeyHasher> PageHasher for PageHasherImpl<H> {
    /// page_addr = contract_addr + page_idx
    /// ph = HASH(page_addr || HASH(page_data))
    fn hash(contract_addr: Address, page_idx: PageIndex, page_data: &[u8]) -> (ph: PageHash)
        ensures
            ph.0@ == spec_page_hash::<H>(contract_addr@, page_idx.0, page_data@),
            exists|page_addr: Seq<u8>|
                {
                    &&& page_addr.len() == 33
                    &&& le_value(page_addr) == le_value(contract_addr@) + page_idx.0
                    &&& ph.0@ == H::spec_hash(page_addr + H::spec_hash(page_data@))
                },
    {
        let page_data_hash = H::hash(page_data);
        let page_addr: [u8; 33] = contract_addr.add(page_idx.0);

        let mut data: Vec<u8> = Vec::with_capacity(65);
        data.extend_from_slice(page_addr.as_slice());
        data.extend_from_slice(page_data_hash.as_slice());
        assert(data@ =~= page_addr@ + page_data_hash@);

        let ph = H::hash(data.as_slice());
        assert(page_addr@.len() == 33 && le_value(page_addr@) == le_value(contract_addr@)
            + page_idx.0 && ph@ == H::spec_hash(page_addr@ + H::spec_hash(page_data@)));
        PageHash(ph)
    }
}

/// A default implementation for the `PageHasher` trait.
pub type DefaultPageHasher = PageHasherImpl<DefaultKeyHasher>;

} // verus!
