//! Pure conversions between byte strings and unsigned integer values.
//!
//! A byte string of length `n` denotes a value below `pow256(n)`, read either
//! little-endian ([`le_value`]) or big-endian ([`be_value`]).  The inverse
//! direction is given by [`le_bytes`] and [`be_bytes`], and the round-trip
//! lemmas below show that the two directions are mutually inverse.  The
//! executable [`le_decode`] / [`be_decode`] and [`le_encode`] / [`be_encode`]
//! realise these functions on machine integers up to 16 bytes wide.

use vstd::arithmetic::div_mod::lemma_fundamental_div_mod;
use vstd::arithmetic::div_mod::lemma_fundamental_div_mod_converse;
use vstd::prelude::*;
use vstd::slice::slice_index_get;

use crate::Endidness;

verus! {

/// `256^n`: the number of values a byte string of length `n` can denote.
pub open spec fn pow256(n: nat) -> nat
    decreases n,
{
    if n == 0 {
        1
    } else {
        256 * pow256((n - 1) as nat)
    }
}

/// The value denoted by `s` read little-endian: the first byte is the least
/// significant.
pub open spec fn le_value(s: Seq<u8>) -> nat
    decreases s.len(),
{
    if s.len() == 0 {
        0
    } else {
        s[0] as nat + 256 * le_value(s.drop_first())
    }
}

/// The value denoted by `s` read big-endian: the last byte is the least
/// significant.
pub open spec fn be_value(s: Seq<u8>) -> nat
    decreases s.len(),
{
    if s.len() == 0 {
        0
    } else {
        256 * be_value(s.drop_last()) + s.last() as nat
    }
}

/// The value denoted by `s` under the byte order `endidness`.
pub open spec fn endian_value(endidness: Endidness, s: Seq<u8>) -> nat {
    match endidness {
        Endidness::Big => be_value(s),
        Endidness::Little => le_value(s),
    }
}

/// The two's-complement reading of an unsigned value `v` that occupies `w`
/// bytes: values at or above `pow256(w) / 2` wrap around to negatives.
pub open spec fn signed_value(v: nat, w: nat) -> int {
    if v < pow256(w) / 2 {
        v as int
    } else {
        v as int - pow256(w) as int
    }
}

/// The `n`-byte little-endian encoding of `v % pow256(n)`.
pub open spec fn le_bytes(v: nat, n: nat) -> Seq<u8>
    decreases n,
{
    if n == 0 {
        Seq::empty()
    } else {
        seq![(v % 256) as u8] + le_bytes(v / 256, (n - 1) as nat)
    }
}

/// The `n`-byte big-endian encoding of `v % pow256(n)`.
pub open spec fn be_bytes(v: nat, n: nat) -> Seq<u8>
    decreases n,
{
    if n == 0 {
        Seq::empty()
    } else {
        be_bytes(v / 256, (n - 1) as nat) + seq![(v % 256) as u8]
    }
}

/// The concrete powers of 256 that the decoders and the integer widths use.
pub proof fn lemma_pow256_values()
    ensures
        pow256(0) == 1,
        pow256(1) == 0x100,
        pow256(2) == 0x1_0000,
        pow256(4) == 0x1_0000_0000,
        pow256(8) == 0x1_0000_0000_0000_0000,
        pow256(15) == 0x100_0000_0000_0000_0000_0000_0000_0000,
        pow256(16) == 0x1_0000_0000_0000_0000_0000_0000_0000_0000,
{
    assert(pow256(0) == 1);
    assert(pow256(1) == 0x100);
    assert(pow256(2) == 0x1_0000);
    assert(pow256(3) == 0x100_0000);
    assert(pow256(4) == 0x1_0000_0000);
    assert(pow256(5) == 0x100_0000_0000);
    assert(pow256(6) == 0x1_0000_0000_0000);
    assert(pow256(7) == 0x100_0000_0000_0000);
    assert(pow256(8) == 0x1_0000_0000_0000_0000);
    assert(pow256(9) == 0x100_0000_0000_0000_0000);
    assert(pow256(10) == 0x1_0000_0000_0000_0000_0000);
    assert(pow256(11) == 0x100_0000_0000_0000_0000_0000);
    assert(pow256(12) == 0x1_0000_0000_0000_0000_0000_0000);
    assert(pow256(13) == 0x100_0000_0000_0000_0000_0000_0000);
    assert(pow256(14) == 0x1_0000_0000_0000_0000_0000_0000_0000);
    assert(pow256(15) == 0x100_0000_0000_0000_0000_0000_0000_0000);
    assert(pow256(16) == 0x1_0000_0000_0000_0000_0000_0000_0000_0000);
}

/// Powers of 256 grow monotonically.
pub proof fn lemma_pow256_mono(a: nat, b: nat)
    requires
        a <= b,
    ensures
        pow256(a) <= pow256(b),
        pow256(a) >= 1,
    decreases b,
{
    if b == 0 {
    } else if a == b {
        lemma_pow256_mono((a - 1) as nat, (b - 1) as nat);
    } else {
        lemma_pow256_mono(a, (b - 1) as nat);
        assert(pow256(b) == 256 * pow256((b - 1) as nat));
    }
}

/// A byte string of length `n` denotes a value below `pow256(n)`.
pub proof fn lemma_le_value_bound(s: Seq<u8>)
    ensures
        le_value(s) < pow256(s.len()),
    decreases s.len(),
{
    if s.len() == 0 {
    } else {
        let rest = le_value(s.drop_first());
        let p = pow256((s.len() - 1) as nat);
        lemma_le_value_bound(s.drop_first());
        assert(256 * rest <= 256 * (p - 1)) by (nonlinear_arith)
            requires rest <= p - 1;
    }
}

/// A byte string of length `n` denotes a value below `pow256(n)`.
pub proof fn lemma_be_value_bound(s: Seq<u8>)
    ensures
        be_value(s) < pow256(s.len()),
    decreases s.len(),
{
    if s.len() == 0 {
    } else {
        let rest = be_value(s.drop_last());
        let p = pow256((s.len() - 1) as nat);
        lemma_be_value_bound(s.drop_last());
        assert(256 * rest <= 256 * (p - 1)) by (nonlinear_arith)
            requires rest <= p - 1;
    }
}

/// Decoding a byte string little-endian and re-encoding the value over the
/// same length reproduces the byte string exactly.
pub proof fn lemma_le_bytes_of_value(s: Seq<u8>)
    ensures
        le_bytes(le_value(s), s.len()) == s,
    decreases s.len(),
{
    if s.len() == 0 {
        assert(le_bytes(le_value(s), s.len()) =~= s);
    } else {
        let v = le_value(s);
        let rest = le_value(s.drop_first());
        lemma_fundamental_div_mod_converse(v as int, 256, rest as int, s[0] as int);
        lemma_le_bytes_of_value(s.drop_first());
        assert(le_bytes(v, s.len()) =~= s);
    }
}

/// Decoding a byte string big-endian and re-encoding the value over the same
/// length reproduces the byte string exactly.
pub proof fn lemma_be_bytes_of_value(s: Seq<u8>)
    ensures
        be_bytes(be_value(s), s.len()) == s,
    decreases s.len(),
{
    if s.len() == 0 {
        assert(be_bytes(be_value(s), s.len()) =~= s);
    } else {
        let v = be_value(s);
        let rest = be_value(s.drop_last());
        lemma_fundamental_div_mod_converse(v as int, 256, rest as int, s.last() as int);
        lemma_be_bytes_of_value(s.drop_last());
        assert(be_bytes(v, s.len()) =~= s);
    }
}

/// Encoding a value below `pow256(n)` over `n` bytes little-endian and
/// decoding the bytes again reproduces the value exactly.
pub proof fn lemma_le_value_of_bytes(v: nat, n: nat)
    requires
        v < pow256(n),
    ensures
        le_value(le_bytes(v, n)) == v,
    decreases n,
{
    if n == 0 {
    } else {
        let d = v % 256;
        let q = v / 256;
        assert(q < pow256((n - 1) as nat)) by (nonlinear_arith)
            requires v < 256 * pow256((n - 1) as nat), q == v / 256;
        lemma_le_value_of_bytes(q, (n - 1) as nat);
        let s = le_bytes(v, n);
        assert(s.drop_first() =~= le_bytes(q, (n - 1) as nat));
        lemma_fundamental_div_mod(v as int, 256);
    }
}

/// Encoding a value below `pow256(n)` over `n` bytes big-endian and decoding
/// the bytes again reproduces the value exactly.
pub proof fn lemma_be_value_of_bytes(v: nat, n: nat)
    requires
        v < pow256(n),
    ensures
        be_value(be_bytes(v, n)) == v,
    decreases n,
{
    if n == 0 {
    } else {
        let d = v % 256;
        let q = v / 256;
        assert(q < pow256((n - 1) as nat)) by (nonlinear_arith)
            requires v < 256 * pow256((n - 1) as nat), q == v / 256;
        lemma_be_value_of_bytes(q, (n - 1) as nat);
        let s = be_bytes(v, n);
        assert(s.drop_last() =~= be_bytes(q, (n - 1) as nat));
        assert(s.last() == (v % 256) as u8);
        lemma_fundamental_div_mod(v as int, 256);
    }
}

/// Reads up to 16 bytes as a little-endian unsigned value.
pub fn le_decode(bytes: &[u8]) -> (r: u128)
    requires
        bytes@.len() <= 16,
    ensures
        r == le_value(bytes@),
{
    let n = bytes.len();
    let mut acc: u128 = 0;
    let mut i: usize = n;
    proof {
        assert(bytes@.subrange(n as int, n as int) =~= Seq::<u8>::empty());
    }
    while i > 0
        invariant
            i <= n,
            n == bytes@.len(),
            n <= 16,
            acc == le_value(bytes@.subrange(i as int, n as int)),
        decreases i,
    {
        i = i - 1;
        let b = *slice_index_get(bytes, i);
        proof {
            let cur = bytes@.subrange(i as int, n as int);
            let tail = bytes@.subrange(i as int + 1, n as int);
            assert(cur.drop_first() =~= tail);
            lemma_le_value_bound(tail);
            lemma_pow256_mono(tail.len(), 15);
            lemma_pow256_values();
        }
        acc = acc * 256 + (b as u128);
    }
    proof {
        assert(bytes@.subrange(0, n as int) =~= bytes@);
    }
    acc
}

/// Reads up to 16 bytes as a big-endian unsigned value.
pub fn be_decode(bytes: &[u8]) -> (r: u128)
    requires
        bytes@.len() <= 16,
    ensures
        r == be_value(bytes@),
{
    let n = bytes.len();
    let mut acc: u128 = 0;
    let mut i: usize = 0;
    proof {
        assert(bytes@.subrange(0, 0) =~= Seq::<u8>::empty());
    }
    while i < n
        invariant
            i <= n,
            n == bytes@.len(),
            n <= 16,
            acc == be_value(bytes@.subrange(0, i as int)),
        decreases n - i,
    {
        let b = *slice_index_get(bytes, i);
        proof {
            let cur = bytes@.subrange(0, i as int + 1);
            let head = bytes@.subrange(0, i as int);
            assert(cur.drop_last() =~= head);
            assert(cur.last() == bytes@[i as int]);
            lemma_be_value_bound(head);
            lemma_pow256_mono(head.len(), 15);
            lemma_pow256_values();
        }
        acc = acc * 256 + (b as u128);
        i = i + 1;
    }
    proof {
        assert(bytes@.subrange(0, n as int) =~= bytes@);
    }
    acc
}

/// Writes `v` over `n` bytes little-endian.
pub fn le_encode(v: u128, n: usize) -> (r: Vec<u8>)
    requires
        n <= 16,
        v < pow256(n as nat),
    ensures
        r@ == le_bytes(v as nat, n as nat),
        r@.len() == n,
{
    let mut r: Vec<u8> = Vec::new();
    let mut cur = v;
    let mut i: usize = 0;
    while i < n
        invariant
            i <= n,
            le_bytes(v as nat, n as nat) == r@ + le_bytes(cur as nat, (n - i) as nat),
            r@.len() == i,
        decreases n - i,
    {
        let ghost pre = r@;
        let ghost m = (n - i) as nat;
        let d = (cur % 256) as u8;
        r.push(d);
        proof {
            assert(le_bytes(cur as nat, m) == seq![d] + le_bytes(cur as nat / 256, (m - 1) as nat));
            assert(pre + (seq![d] + le_bytes(cur as nat / 256, (m - 1) as nat)) =~= (pre + seq![d])
                + le_bytes(cur as nat / 256, (m - 1) as nat));
        }
        cur = cur / 256;
        i = i + 1;
    }
    proof {
        assert(r@ + le_bytes(cur as nat, 0) =~= r@);
    }
    r
}

/// Writes `v` over `n` bytes big-endian.
pub fn be_encode(v: u128, n: usize) -> (r: Vec<u8>)
    requires
        n <= 16,
        v < pow256(n as nat),
    ensures
        r@ == be_bytes(v as nat, n as nat),
        r@.len() == n,
{
    let mut r: Vec<u8> = Vec::new();
    let mut cur = v;
    let mut i: usize = 0;
    while i < n
        invariant
            i <= n,
            be_bytes(v as nat, n as nat) == be_bytes(cur as nat, (n - i) as nat) + r@,
            r@.len() == i,
        decreases n - i,
    {
        let ghost pre = r@;
        let ghost m = (n - i) as nat;
        let d = (cur % 256) as u8;
        r.insert(0, d);
        proof {
            assert(be_bytes(cur as nat, m) == be_bytes(cur as nat / 256, (m - 1) as nat) + seq![d]);
            assert(r@ =~= seq![d] + pre);
            assert((be_bytes(cur as nat / 256, (m - 1) as nat) + seq![d]) + pre =~= be_bytes(
                cur as nat / 256,
                (m - 1) as nat,
            ) + (seq![d] + pre));
        }
        cur = cur / 256;
        i = i + 1;
    }
    proof {
        assert(be_bytes(cur as nat, 0) + r@ =~= r@);
    }
    r
}

} // verus!
