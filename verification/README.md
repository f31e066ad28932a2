# svm

The storage and register layer of a smart-contract virtual machine, written
in Verus.

- `src/le_bytes.rs`: little-endian encodings of integers and their value.
- `src/address.rs`: `Address`, 32 bytes; conversions from integers and
  slices, and `add`, which adds a page index to an address (33-byte result).
- `src/key_hasher.rs`: the `KeyHasher` trait and `DefaultKeyHasher`
  (Keccak-256, through `tiny-keccak`).
- `src/page.rs`, `src/page_hasher.rs`: page indices, page digests and
  `PageHasherImpl`, which hashes `HASH(contract_addr + page_idx || HASH(page_data))`.
- `src/register.rs`, `src/wasmer_storage.rs`: 64-bit registers, the context
  shared with wasm instances, and the copies between memory and registers.
- `app/`: the glue to the wasm runtime's context and memory, raw pointers,
  and a serde copy of `Address`.
