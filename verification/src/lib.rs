//! Verified core of a smart-contract VM's storage and register layer:
//! byte-array primitives such as `Address`, hashing of storage pages, and
//! the register file that wasm instances read from and write to.

pub mod le_bytes;
pub mod address;
pub mod key_hasher;
pub mod page;
pub mod page_hasher;
pub mod register;
pub mod wasmer_storage;
