//! `Address`: a 32-byte account address.

use vstd::prelude::*;
use vstd::std_specs::cmp::PartialEqSpecImpl;
use vstd::std_specs::convert::FromSpecImpl;
use crate::le_bytes::{
    le_encoding, le_value, lemma_le_encoding_exists, lemma_le_value_bound, lemma_le_value_injective,
    lemma_le_value_take_step, lemma_le_value_zeros, lemma_pow256_monotonic, lemma_u32_le_value,
    lemma_u64_le_value, pow256,
    spec_u32_le, spec_u64_le, u32_to_le_array, u64_to_le_array, zeros,
};

verus! {

broadcast use vstd::array::axiom_array_ext_equal;

/// An address consists of exactly 32 bytes.
#[derive(Debug, Copy, Clone, Hash)]
pub struct Address([u8; 32]);

impl View for Address {
    type V = Seq<u8>;

    closed spec fn view(&self) -> Seq<u8> {
        self.0@
    }
}

/// The 32-byte array holding the first `k` bytes of `bytes`, then zeros.
pub closed spec fn array_prefix(bytes: Seq<u8>, k: nat) -> [u8; 32]
    decreases k,
{
    if k == 0 {
        vstd::array::spec_array_fill_for_copy_type::<u8, 32>(0u8)
    } else {
        vstd::array::spec_array_update(
            array_prefix(bytes, (k - 1) as nat),
            k - 1,
            bytes[k - 1],
        )
    }
}

proof fn lemma_array_prefix(bytes: Seq<u8>, k: nat)
    requires
        k <= 32,
        k <= bytes.len(),
    ensures
        array_prefix(bytes, k)@ == bytes.take(k as int) + zeros((32 - k) as nat),
    decreases k,
{
    broadcast use vstd::array::axiom_spec_array_fill_for_copy_type;
    broadcast use vstd::array::axiom_spec_array_update;
    broadcast use vstd::array::array_len_matches_n;

    if k == 0 {
        let f = vstd::array::spec_array_fill_for_copy_type::<u8, 32>(0u8);
        assert(f@.len() == 32);
        assert(f@ =~= bytes.take(0) + zeros(32));
    } else {
        lemma_array_prefix(bytes, (k - 1) as nat);
        let prev = array_prefix(bytes, (k - 1) as nat);
        assert(prev@.len() == 32);
        assert(array_prefix(bytes, k)@ =~= bytes.take(k as int) + zeros((32 - k) as nat));
    }
}

/// The address whose bytes are `bytes` (meaningful when `bytes.len() == 32`).
pub closed spec fn address_of_bytes(bytes: Seq<u8>) -> Address {
    Address(array_prefix(bytes, 32))
}

/// `address_of_bytes` builds the address holding exactly the given 32 bytes.
pub proof fn lemma_address_of_bytes_view(bytes: Seq<u8>)
    requires
        bytes.len() == 32,
    ensures
        address_of_bytes(bytes)@ == bytes,
{
    lemma_array_prefix(bytes, 32);
    assert(bytes.take(32) + zeros(0) =~= bytes);
}

/// An address is determined by its bytes, and every address has 32 of them.
pub proof fn lemma_address_of_bytes(a: Address)
    ensures
        address_of_bytes(a@) == a,
        a@.len() == 32,
{
    broadcast use vstd::array::array_len_matches_n;

    assert(a.0@.len() == 32);
    lemma_address_of_bytes_view(a@);
    let c = address_of_bytes(a@);
    assert(c.0 =~= a.0);
}

/// Two addresses with the same bytes are the same address.
pub proof fn lemma_address_view_injective(a: Address, b: Address)
    requires
        a@ == b@,
    ensures
        a == b,
{
    lemma_address_of_bytes(a);
    lemma_address_of_bytes(b);
}

/// The 33 little-endian bytes of the address `address` read as an unsigned
/// integer, plus `rhs`. (There is exactly one such sequence: see
/// `lemma_le_value_injective`.)
pub open spec fn spec_address_add(address: Seq<u8>, rhs: u32) -> Seq<u8> {
    choose|s: Seq<u8>| s.len() == 33 && le_value(s) == le_value(address) + rhs
}

/// The bytes of the address built from `n`: its four little-endian bytes, then zeros.
pub open spec fn spec_u32_address_bytes(n: u32) -> Seq<u8> {
    spec_u32_le(n) + zeros(28)
}

/// The bytes of the address built from `n`: its eight little-endian bytes, then zeros.
pub open spec fn spec_u64_address_bytes(n: u64) -> Seq<u8> {
    spec_u64_le(n) + zeros(24)
}

/// `Address::from(n)` for a `u32` holds the four little-endian bytes of `n`
/// followed by zeros; read as a little-endian number it is `n`.
pub proof fn lemma_from_u32(n: u32)
    ensures
        address_of_bytes(spec_u32_address_bytes(n))@ == spec_u32_address_bytes(n),
        le_value(spec_u32_address_bytes(n)) == n,
{
    lemma_u32_le_value(n);
    lemma_le_value_zeros(spec_u32_le(n), 28);
    lemma_address_of_bytes_view(spec_u32_address_bytes(n));
}

/// `Address::from(n)` for a `u64` holds the eight little-endian bytes of `n`
/// followed by zeros; read as a little-endian number it is `n`.
pub proof fn lemma_from_u64(n: u64)
    ensures
        address_of_bytes(spec_u64_address_bytes(n))@ == spec_u64_address_bytes(n),
        le_value(spec_u64_address_bytes(n)) == n,
{
    lemma_u64_le_value(n);
    lemma_le_value_zeros(spec_u64_le(n), 24);
    lemma_address_of_bytes_view(spec_u64_address_bytes(n));
}

/// Adding `rhs` to a 32-byte address always has a 33-byte result, whose
/// value is the address' value plus `rhs`.
pub proof fn lemma_address_add(address: Seq<u8>, rhs: u32)
    requires
        address.len() == 32,
    ensures
        spec_address_add(address, rhs).len() == 33,
        le_value(spec_address_add(address, rhs)) == le_value(address) + rhs,
{
    let v = (le_value(address) + rhs) as nat;
    lemma_le_value_bound(address);
    lemma_pow256_monotonic(4, 32);
    reveal_with_fuel(pow256, 5);
    assert(v < pow256(33));
    lemma_le_encoding_exists(v, 33);
    let w = le_encoding(v, 33);
    assert(w.len() == 33 && le_value(w) == le_value(address) + rhs);
}

/// The page address of page `k` of the contract whose address is built
/// from `n` is the number `n + k`.
pub proof fn lemma_add_to_u32_address(n: u32, k: u32)
    ensures
        le_value(spec_address_add(address_of_bytes(spec_u32_address_bytes(n))@, k)) == n + k,
{
    lemma_from_u32(n);
    lemma_address_add(spec_u32_address_bytes(n), k);
}

impl Address {
    /// Builds an address from a slice of exactly 32 bytes.
    pub fn from_slice(slice: &[u8]) -> (a: Address)
        requires
            slice@.len() == 32,
        ensures
            a@ == slice@,
    {
        let mut buf = [0u8; 32];
        let mut i: usize = 0;
        while i < 32
            invariant
                i <= 32,
                slice@.len() == 32,
                forall|j: int| 0 <= j < i ==> buf@[j] == slice@[j],
            decreases 32 - i,
        {
            buf[i] = slice[i];
            i = i + 1;
        }
        let a = Address(buf);
        assert(a@ =~= slice@);
        a
    }

    /// Returns a slice into the address' internal array.
    pub fn as_slice(&self) -> (s: &[u8])
        ensures
            s@ == self@,
    {
        self.0.as_slice()
    }

    /// Returns a copy of the address' internal array.
    pub fn bytes(&self) -> (b: [u8; 32])
        ensures
            b@ == self@,
    {
        self.0
    }

    /// Returns the number of bytes of an address.
    pub fn len() -> (n: usize)
        ensures
            n == 32,
    {
        32
    }

    /// Adds `rhs` to the address read as a little-endian unsigned integer.
    /// The sum takes 33 bytes, so nothing is lost to overflow.
    pub fn add(self, rhs: u32) -> (sum: [u8; 33])
        ensures
            le_value(sum@) == le_value(self@) + rhs,
            sum@ == spec_address_add(self@, rhs),
    {
        let rhs_bytes = u32_to_le_array(rhs);
        let ghost a = self.0@;
        let ghost r = rhs_bytes@ + zeros(28);
        proof {
            lemma_le_value_zeros(rhs_bytes@, 28);
            assert(a.take(0) =~= Seq::<u8>::empty());
            assert(r.take(0) =~= Seq::<u8>::empty());
        }
        let mut res = [0u8; 33];
        let mut carry: u16 = 0;
        let mut i: usize = 0;
        while i < 32
            invariant
                i <= 32,
                a == self.0@,
                r == rhs_bytes@ + zeros(28),
                r.len() == 32,
                carry <= 1,
                le_value(res@.take(i as int)) + (carry as nat) * pow256(i as nat) == le_value(
                    a.take(i as int),
                ) + le_value(r.take(i as int)),
            decreases 32 - i,
        {
            let rb: u8 = if i < 4 {
                rhs_bytes[i]
            } else {
                0
            };
            assert(rb == r[i as int]);
            let sum: u16 = self.0[i] as u16 + rb as u16 + carry;
            let ghost old_res = res@;
            res[i] = (sum % 256) as u8;
            let new_carry: u16 = sum / 256;
            proof {
                assert(res@.take(i as int) =~= old_res.take(i as int));
                lemma_le_value_take_step(res@, i as int);
                lemma_le_value_take_step(a, i as int);
                lemma_le_value_take_step(r, i as int);
                let p = pow256(i as nat);
                assert(pow256((i + 1) as nat) == 256 * p);
                assert((sum % 256) as nat * p + (new_carry as nat) * (256 * p) == (sum as nat)
                    * p) by (nonlinear_arith)
                    requires
                        new_carry == sum / 256,
                ;
                assert((sum as nat) * p == (self.0@[i as int] as nat) * p + (rb as nat) * p + (
                carry as nat) * p) by (nonlinear_arith)
                    requires
                        sum == self.0@[i as int] + rb + carry,
                ;
            }
            carry = new_carry;
            i = i + 1;
        }
        let ghost before = res@;
        res[32] = carry as u8;
        proof {
            assert(res@.take(32) =~= before.take(32));
            lemma_le_value_take_step(res@, 32);
            assert(res@.take(33) =~= res@);
            assert(a.take(32) =~= a);
            assert(r.take(32) =~= r);
            let c = spec_address_add(self@, rhs);
            assert(res@.len() == 33 && le_value(res@) == le_value(self@) + rhs);
            lemma_le_value_injective(c, res@);
        }
        res
    }
}

impl PartialEq for Address {
    /// Two addresses are equal when all their bytes are.
    fn eq(&self, other: &Address) -> (r: bool) {
        let mut i: usize = 0;
        while i < 32
            invariant
                i <= 32,
                self@.len() == 32,
                other@.len() == 32,
                forall|j: int| 0 <= j < i ==> self@[j] == other@[j],
            decreases 32 - i,
        {
            if self.0[i] != other.0[i] {
                return false;
            }
            i = i + 1;
        }
        assert(self@ =~= other@);
        true
    }
}

impl PartialEqSpecImpl for Address {
    open spec fn obeys_eq_spec() -> bool {
        true
    }

    open spec fn eq_spec(&self, other: &Address) -> bool {
        self@ == other@
    }
}

impl Eq for Address {

}

impl From<u32> for Address {
    /// The little-endian bytes of `n`, followed by zeros.
    fn from(n: u32) -> (a: Address) {
        let le = u32_to_le_array(n);
        let mut buf = [0u8; 32];
        buf[0] = le[0];
        buf[1] = le[1];
        buf[2] = le[2];
        buf[3] = le[3];
        let a = Address(buf);
        proof {
            assert(a@ =~= spec_u32_address_bytes(n));
            lemma_address_of_bytes(a);
        }
        a
    }
}

impl FromSpecImpl<u32> for Address {
    open spec fn obeys_from_spec() -> bool {
        true
    }

    open spec fn from_spec(n: u32) -> Address {
        address_of_bytes(spec_u32_address_bytes(n))
    }
}

impl From<u64> for Address {
    /// The little-endian bytes of `n`, followed by zeros.
    fn from(n: u64) -> (a: Address) {
        let le = u64_to_le_array(n);
        let mut buf = [0u8; 32];
        buf[0] = le[0];
        buf[1] = le[1];
        buf[2] = le[2];
        buf[3] = le[3];
        buf[4] = le[4];
        buf[5] = le[5];
        buf[6] = le[6];
        buf[7] = le[7];
        let a = Address(buf);
        proof {
            assert(a@ =~= spec_u64_address_bytes(n));
            lemma_address_of_bytes(a);
        }
        a
    }
}

impl FromSpecImpl<u64> for Address {
    open spec fn obeys_from_spec() -> bool {
        true
    }

    open spec fn from_spec(n: u64) -> Address {
        address_of_bytes(spec_u64_address_bytes(n))
    }
}

impl From<i32> for Address {
    /// The address built from the two's-complement bits of `n` read as a `u32`.
    fn from(n: i32) -> (a: Address) {
        Address::from(n as u32)
    }
}

impl FromSpecImpl<i32> for Address {
    open spec fn obeys_from_spec() -> bool {
        true
    }

    open spec fn from_spec(n: i32) -> Address {
        address_of_bytes(spec_u32_address_bytes(n as u32))
    }
}

} // verus!
