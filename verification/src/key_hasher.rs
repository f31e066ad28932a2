//! Hashing of storage keys.

use vstd::prelude::*;

verus! {

/// A hash function from byte strings to 32-byte digests.
pub trait KeyHasher {
    /// The digest of `key`.
    spec fn spec_hash(key: Seq<u8>) -> Seq<u8>;

    /// Hashes `key`.
    fn hash(key: &[u8]) -> (digest: [u8; 32])
        ensures
            digest@ == Self::spec_hash(key@),
    ;
}

/// The Keccak-256 digest of `data`.
pub uninterp spec fn keccak256(data: Seq<u8>) -> Seq<u8>;

/// Calls `tiny_keccak::keccak256`, which returns the 32-byte Keccak-256
/// digest of its argument; the contract names that digest `keccak256(data@)`.
#[verifier::external_body]
fn keccak256_digest(data: &[u8]) -> (digest: [u8; 32])
    ensures
        digest@ == keccak256(data@),
{
    tiny_keccak::keccak256(data)
}

/// The default key hasher: Keccak-256.
pub struct DefaultKeyHasher;

impl KeyHasher for DefaultKeyHasher {
    open spec fn spec_hash(key: Seq<u8>) -> Seq<u8> {
        keccak256(key)
    }

    /// The Keccak-256 digest of exactly `key`'s bytes, in order.
    fn hash(key: &[u8]) -> (digest: [u8; 32])
        ensures
            digest@ == keccak256(key@),
    {
        keccak256_digest(key)
    }
}

/// The default key hasher's digest of a key is the Keccak-256 digest of that
/// key's bytes, as given.
pub proof fn lemma_default_key_hasher_is_keccak256(key: Seq<u8>)
    ensures
        DefaultKeyHasher::spec_hash(key) == keccak256(key),
{
}

} // verus!
