//! Little-endian byte encodings of unsigned integers.

use vstd::prelude::*;

verus! {

/// `256` raised to the power `n`.
pub open spec fn pow256(n: nat) -> nat
    decreases n,
{
    if n == 0 {
        1
    } else {
        256 * pow256((n - 1) as nat)
    }
}

/// The unsigned integer whose little-endian encoding is `bytes`:
/// `bytes[0]` is the least significant byte.
pub open spec fn le_value(bytes: Seq<u8>) -> nat
    decreases bytes.len(),
{
    if bytes.len() == 0 {
        0
    } else {
        le_value(bytes.drop_last()) + (bytes.last() as nat) * pow256((bytes.len() - 1) as nat)
    }
}

/// `n` zero bytes.
pub open spec fn zeros(n: nat) -> Seq<u8> {
    Seq::new(n, |i: int| 0u8)
}

/// The four bytes of `n`, least significant first.
pub open spec fn spec_u32_le(n: u32) -> Seq<u8> {
    seq![
        (n % 256) as u8,
        ((n / 256) % 256) as u8,
        ((n / 65536) % 256) as u8,
        (n / 16777216) as u8,
    ]
}

/// The eight bytes of `n`, least significant first.
pub open spec fn spec_u64_le(n: u64) -> Seq<u8> {
    seq![
        (n % 256) as u8,
        ((n / 0x100) % 256) as u8,
        ((n / 0x1_0000) % 256) as u8,
        ((n / 0x100_0000) % 256) as u8,
        ((n / 0x1_0000_0000) % 256) as u8,
        ((n / 0x100_0000_0000) % 256) as u8,
        ((n / 0x1_0000_0000_0000) % 256) as u8,
        (n / 0x100_0000_0000_0000) as u8,
    ]
}

pub proof fn lemma_pow256_positive(n: nat)
    ensures
        pow256(n) >= 1,
    decreases n,
{
    if n > 0 {
        lemma_pow256_positive((n - 1) as nat);
    }
}

/// `256^0 == 1` and each further power multiplies by 256.
pub proof fn lemma_pow256_step(n: nat)
    ensures
        pow256(0) == 1,
        pow256(n + 1) == 256 * pow256(n),
{
}

/// The empty byte string has value 0; a single byte has its own value.
pub proof fn lemma_le_value_short(b: u8)
    ensures
        le_value(Seq::<u8>::empty()) == 0,
        le_value(seq![b]) == b,
{
    assert(seq![b].drop_last() =~= Seq::<u8>::empty());
    assert(le_value(seq![b].drop_last()) == 0);
    assert(seq![b].last() == b);
    assert(pow256(0) == 1);
    assert(seq![b].len() == 1);
    assert(le_value(seq![b]) == le_value(seq![b].drop_last()) + (seq![b].last() as nat) * pow256(
        0,
    ));
}

/// Appending a byte adds it at the next power of 256.
pub proof fn lemma_le_value_push(s: Seq<u8>, b: u8)
    ensures
        le_value(s.push(b)) == le_value(s) + (b as nat) * pow256(s.len()),
{
    assert(s.push(b).drop_last() =~= s);
}

/// Appending zero bytes leaves the value unchanged.
pub proof fn lemma_le_value_zeros(s: Seq<u8>, n: nat)
    ensures
        le_value(s + zeros(n)) == le_value(s),
    decreases n,
{
    if n > 0 {
        let m = (n - 1) as nat;
        lemma_le_value_zeros(s, m);
        assert(s + zeros(n) =~= (s + zeros(m)).push(0u8));
        lemma_le_value_push(s + zeros(m), 0u8);
    }
}

/// A value encoded in `s.len()` bytes is less than `256^s.len()`.
pub proof fn lemma_le_value_bound(s: Seq<u8>)
    ensures
        le_value(s) < pow256(s.len()),
    decreases s.len(),
{
    if s.len() > 0 {
        let k = (s.len() - 1) as nat;
        lemma_le_value_bound(s.drop_last());
        let p = pow256(k);
        let b = s.last() as nat;
        assert(le_value(s.drop_last()) + b * p < 256 * p) by (nonlinear_arith)
            requires
                le_value(s.drop_last()) < p,
                b <= 255,
        ;
    }
}

/// Two byte strings of the same length with the same value are equal:
/// the little-endian encoding of a value in a fixed width is unique.
pub proof fn lemma_le_value_injective(a: Seq<u8>, b: Seq<u8>)
    requires
        a.len() == b.len(),
        le_value(a) == le_value(b),
    ensures
        a == b,
    decreases a.len(),
{
    if a.len() > 0 {
        let k = (a.len() - 1) as nat;
        let p = pow256(k);
        lemma_le_value_bound(a.drop_last());
        lemma_le_value_bound(b.drop_last());
        let x = le_value(a.drop_last());
        let y = le_value(b.drop_last());
        let u = a.last() as nat;
        let v = b.last() as nat;
        assert(u == v && x == y) by (nonlinear_arith)
            requires
                x < p,
                y < p,
                x + u * p == y + v * p,
        {
            if u < v {
                assert(u * p + p <= v * p);
            } else if v < u {
                assert(v * p + p <= u * p);
            }
        }
        lemma_le_value_injective(a.drop_last(), b.drop_last());
        assert(a =~= a.drop_last().push(a.last()));
        assert(b =~= b.drop_last().push(b.last()));
    } else {
        assert(a =~= b);
    }
}

/// The encoding of `n` in four bytes has value `n`.
pub proof fn lemma_u32_le_value(n: u32)
    ensures
        le_value(spec_u32_le(n)) == n,
        spec_u32_le(n).len() == 4,
{
    let s = spec_u32_le(n);
    let b0 = (n % 256) as nat;
    let b1 = ((n / 256) % 256) as nat;
    let b2 = ((n / 65536) % 256) as nat;
    let b3 = (n / 16777216) as nat;
    reveal_with_fuel(pow256, 4);
    assert(le_value(s.take(1)) == b0) by {
        assert(s.take(1).drop_last() =~= Seq::<u8>::empty());
        assert(le_value(s.take(1).drop_last()) == 0);
        assert(s.take(1).last() == s[0]);
    }
    assert(le_value(s.take(2)) == b0 + b1 * 256) by {
        assert(s.take(2).drop_last() =~= s.take(1));
    }
    assert(le_value(s.take(3)) == b0 + b1 * 256 + b2 * 65536) by {
        assert(s.take(3).drop_last() =~= s.take(2));
    }
    assert(le_value(s) == b0 + b1 * 256 + b2 * 65536 + b3 * 16777216) by {
        assert(s.drop_last() =~= s.take(3));
    }
    assert(b0 + b1 * 256 + b2 * 65536 + b3 * 16777216 == n) by (nonlinear_arith)
        requires
            b0 == n % 256,
            b1 == (n / 256) % 256,
            b2 == (n / 65536) % 256,
            b3 == n / 16777216,
            n < 0x1_0000_0000,
    ;
}

/// Splits `n` into its four bytes, least significant first.
pub fn u32_to_le_array(n: u32) -> (bytes: [u8; 4])
    ensures
        bytes@ == spec_u32_le(n),
        le_value(bytes@) == n,
{
    let bytes = [
        (n % 256) as u8,
        ((n / 256) % 256) as u8,
        ((n / 65536) % 256) as u8,
        (n / 16777216) as u8,
    ];
    proof {
        assert(bytes@ =~= spec_u32_le(n));
        lemma_u32_le_value(n);
    }
    bytes
}

/// Extending a prefix by one byte adds that byte at its power of 256.
pub proof fn lemma_le_value_take_step(s: Seq<u8>, k: int)
    requires
        0 <= k < s.len(),
    ensures
        le_value(s.take(k + 1)) == le_value(s.take(k)) + (s[k] as nat) * pow256(k as nat),
{
    assert(s.take(k + 1) =~= s.take(k).push(s[k]));
    lemma_le_value_push(s.take(k), s[k]);
}

/// The encoding of `n` in eight bytes has value `n`.
pub proof fn lemma_u64_le_value(n: u64)
    ensures
        le_value(spec_u64_le(n)) == n,
        spec_u64_le(n).len() == 8,
{
    let s = spec_u64_le(n);
    reveal_with_fuel(pow256, 8);
    assert(s.take(0) =~= Seq::<u8>::empty());
    lemma_le_value_take_step(s, 0);
    lemma_le_value_take_step(s, 1);
    lemma_le_value_take_step(s, 2);
    lemma_le_value_take_step(s, 3);
    lemma_le_value_take_step(s, 4);
    lemma_le_value_take_step(s, 5);
    lemma_le_value_take_step(s, 6);
    lemma_le_value_take_step(s, 7);
    assert(s.take(8) =~= s);
    assert(n == (n % 256) + ((n / 0x100) % 256) * 0x100 + ((n / 0x1_0000) % 256) * 0x1_0000
        + ((n / 0x100_0000) % 256) * 0x100_0000 + ((n / 0x1_0000_0000) % 256) * 0x1_0000_0000
        + ((n / 0x100_0000_0000) % 256) * 0x100_0000_0000
        + ((n / 0x1_0000_0000_0000) % 256) * 0x1_0000_0000_0000
        + (n / 0x100_0000_0000_0000) * 0x100_0000_0000_0000) by (bit_vector);
}

/// Splits `n` into its eight bytes, least significant first.
pub fn u64_to_le_array(n: u64) -> (bytes: [u8; 8])
    ensures
        bytes@ == spec_u64_le(n),
        le_value(bytes@) == n,
{
    let bytes = [
        (n % 256) as u8,
        ((n / 0x100) % 256) as u8,
        ((n / 0x1_0000) % 256) as u8,
        ((n / 0x100_0000) % 256) as u8,
        ((n / 0x1_0000_0000) % 256) as u8,
        ((n / 0x100_0000_0000) % 256) as u8,
        ((n / 0x1_0000_0000_0000) % 256) as u8,
        (n / 0x100_0000_0000_0000) as u8,
    ];
    proof {
        assert(bytes@ =~= spec_u64_le(n));
        lemma_u64_le_value(n);
    }
    bytes
}

/// The `n` least significant bytes of `v`, least significant first.
pub open spec fn le_encoding(v: nat, n: nat) -> Seq<u8>
    decreases n,
{
    if n == 0 {
        Seq::empty()
    } else {
        le_encoding(v, (n - 1) as nat).push(((v / pow256((n - 1) as nat)) % 256) as u8)
    }
}

/// The `n`-byte encoding of `v` holds `v` modulo `256^n`.
pub proof fn lemma_le_encoding(v: nat, n: nat)
    ensures
        le_encoding(v, n).len() == n,
        le_value(le_encoding(v, n)) == v % pow256(n),
    decreases n,
{
    if n > 0 {
        let k = (n - 1) as nat;
        lemma_le_encoding(v, k);
        lemma_pow256_positive(k);
        let p = pow256(k);
        lemma_le_value_push(le_encoding(v, k), ((v / p) % 256) as u8);
        vstd::arithmetic::div_mod::lemma_mod_breakdown(v as int, p as int, 256);
        assert(p * 256 == pow256(n));
        let d = (v / p) % 256;
        assert(d < 256);
        assert((d as u8) as nat == d);
        assert(d * p == p * d) by (nonlinear_arith);
        assert(le_value(le_encoding(v, n)) == v % p + d * p);
    } else {
        assert(v % 1 == 0);
    }
}

/// `256^m <= 256^n` when `m <= n`.
pub proof fn lemma_pow256_monotonic(m: nat, n: nat)
    requires
        m <= n,
    ensures
        pow256(m) <= pow256(n),
    decreases n,
{
    if m < n {
        lemma_pow256_monotonic(m, (n - 1) as nat);
    }
}

/// Every value below `256^n` has an `n`-byte encoding.
pub proof fn lemma_le_encoding_exists(v: nat, n: nat)
    requires
        v < pow256(n),
    ensures
        le_encoding(v, n).len() == n,
        le_value(le_encoding(v, n)) == v,
{
    lemma_le_encoding(v, n);
    vstd::arithmetic::div_mod::lemma_small_mod(v, pow256(n));
}

} // verus!
