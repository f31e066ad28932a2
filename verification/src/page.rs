//! Identifiers and digests of storage pages.

use vstd::prelude::*;

verus! {

/// The index of a page within a contract's storage.
#[derive(Debug, Copy, Clone, PartialEq, Eq, Hash, Structural)]
pub struct PageIndex(pub u32);

/// The 32-byte digest of a page.
#[derive(Debug, Copy, Clone, Hash)]
pub struct PageHash(pub [u8; 32]);

} // verus!
