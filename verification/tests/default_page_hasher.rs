use svm::address::Address;
use svm::key_hasher::{DefaultKeyHasher, KeyHasher};
use svm::page::PageIndex;
use svm::page_hasher::{DefaultPageHasher, PageHasher};

#[test]
fn default_page_hasher_sanity() {
    let page_addr = [
        0x14, 0x22, 0x33, 0x44, 0x00, 0x00, 0x00, 0x00, 0x00, 0x00, 0x00, 0x00, 0x00, 0x00,
        0x00, 0x00, 0x00, 0x00, 0x00, 0x00, 0x00, 0x00, 0x00, 0x00, 0x00, 0x00, 0x00, 0x00,
        0x00, 0x00, 0x00, 0x00, 0x00,
    ];

    let page_data_hash = DefaultKeyHasher::hash(&[10, 20, 30]);
    let mut data = Vec::with_capacity(page_addr.len() + page_data_hash.len());
    data.extend_from_slice(&page_addr);
    data.extend_from_slice(&page_data_hash);
    let expected = DefaultKeyHasher::hash(data.as_slice());

    let addr = Address::from(0x44_33_22_11 as u32);
    let page_idx = PageIndex(3);
    let page_data = vec![10, 20, 30];

    let actual = DefaultPageHasher::hash(addr, page_idx, page_data.as_slice());

    assert_eq!(expected, actual.0);
}

#[test]
fn keccak256_of_empty_input() {
    let expected: [u8; 32] = [
        0xc5, 0xd2, 0x46, 0x01, 0x86, 0xf7, 0x23, 0x3c, 0x92, 0x7e, 0x7d, 0xb2, 0xdc, 0xc7, 0x03,
        0xc0, 0xe5, 0x00, 0xb6, 0x53, 0xca, 0x82, 0x27, 0x3b, 0x7b, 0xfa, 0xd8, 0x04, 0x5d, 0x85,
        0xa4, 0x70,
    ];
    assert_eq!(expected, DefaultKeyHasher::hash(&[]));
}

#[test]
fn key_hasher_is_deterministic_and_input_sensitive() {
    let a = DefaultKeyHasher::hash(&[1, 2, 3]);
    let b = DefaultKeyHasher::hash(&[1, 2, 3]);
    let c = DefaultKeyHasher::hash(&[1, 2, 4]);
    assert_eq!(a, b);
    assert_ne!(a, c);
}

#[test]
fn page_hash_depends_on_page_index_and_data() {
    let addr = Address::from(7u32);
    let h0 = DefaultPageHasher::hash(addr, PageIndex(0), &[1, 2]);
    let h1 = DefaultPageHasher::hash(addr, PageIndex(1), &[1, 2]);
    let h2 = DefaultPageHasher::hash(addr, PageIndex(0), &[1, 3]);
    let h0_again = DefaultPageHasher::hash(addr, PageIndex(0), &[1, 2]);
    assert_ne!(h0.0, h1.0);
    assert_ne!(h0.0, h2.0);
    assert_eq!(h0.0, h0_again.0);
}

#[test]
fn page_address_of_next_address_and_previous_page_agree() {
    // (n + 1) + k and n + (k + 1) name the same page address, hence the same hash.
    let a = DefaultPageHasher::hash(Address::from(0x100u32), PageIndex(4), &[9]);
    let b = DefaultPageHasher::hash(Address::from(0xffu32), PageIndex(5), &[9]);
    assert_eq!(a.0, b.0);
}
