//! The family of fixed-width integers that a segment can decode.

use vstd::prelude::*;

use crate::codec::be_value;
use crate::codec::endian_value;
use crate::codec::le_value;
use crate::codec::lemma_be_value_bound;
use crate::codec::lemma_le_value_bound;
use crate::codec::lemma_pow256_values;
use crate::codec::signed_value;
use crate::codec::be_decode;
use crate::codec::le_decode;
use crate::Endidness;

verus! {

/// A fixed-width integer that can be decoded from exactly
/// [`Integer::spec_width`] bytes under a chosen byte order.
///
/// [`Integer::spec_from`] maps the unsigned value that the bytes denote to
/// the integer: unsigned widths take the value as is, signed widths read it
/// as two's complement.
pub trait Integer: Sized + Copy {
    /// How many bytes one value of this type occupies.
    spec fn spec_width() -> nat;

    /// The value of this type denoted by the unsigned value `v`, for
    /// `v < pow256(spec_width())`.
    spec fn spec_from(v: nat) -> Self;

    /// How many bytes one value of this type occupies.
    fn width() -> (w: usize)
        ensures
            w == Self::spec_width(),
            1 <= w <= 16,
    ;

    /// Decodes a value of this type from little-endian bytes.
    fn from_le(bytes: &[u8]) -> (r: Self)
        requires
            bytes@.len() == Self::spec_width(),
        ensures
            r == Self::spec_from(le_value(bytes@)),
    ;

    /// Decodes a value of this type from big-endian bytes.
    fn from_be(bytes: &[u8]) -> (r: Self)
        requires
            bytes@.len() == Self::spec_width(),
        ensures
            r == Self::spec_from(be_value(bytes@)),
    ;

    /// Decodes a value of this type under the given byte order.
    fn with_endidness(bytes: &[u8], endidness: Endidness) -> (r: Self)
        requires
            bytes@.len() == Self::spec_width(),
        ensures
            r == Self::spec_from(endian_value(endidness, bytes@)),
    {
        match endidness {
            Endidness::Big => Self::from_be(bytes),
            Endidness::Little => Self::from_le(bytes),
        }
    }
}

impl Integer for u8 {
    open spec fn spec_width() -> nat {
        1
    }

    open spec fn spec_from(v: nat) -> Self {
        v as u8
    }

    fn width() -> usize {
        1
    }

    fn from_le(bytes: &[u8]) -> Self {
        let v = le_decode(bytes);
        proof {
            lemma_le_value_bound(bytes@);
            lemma_pow256_values();
        }
        v as u8
    }

    fn from_be(bytes: &[u8]) -> Self {
        let v = be_decode(bytes);
        proof {
            lemma_be_value_bound(bytes@);
            lemma_pow256_values();
        }
        v as u8
    }
}

impl Integer for u16 {
    open spec fn spec_width() -> nat {
        2
    }

    open spec fn spec_from(v: nat) -> Self {
        v as u16
    }

    fn width() -> usize {
        2
    }

    fn from_le(bytes: &[u8]) -> Self {
        let v = le_decode(bytes);
        proof {
            lemma_le_value_bound(bytes@);
            lemma_pow256_values();
        }
        v as u16
    }

    fn from_be(bytes: &[u8]) -> Self {
        let v = be_decode(bytes);
        proof {
            lemma_be_value_bound(bytes@);
            lemma_pow256_values();
        }
        v as u16
    }
}

impl Integer for u32 {
    open spec fn spec_width() -> nat {
        4
    }

    open spec fn spec_from(v: nat) -> Self {
        v as u32
    }

    fn width() -> usize {
        4
    }

    fn from_le(bytes: &[u8]) -> Self {
        let v = le_decode(bytes);
        proof {
            lemma_le_value_bound(bytes@);
            lemma_pow256_values();
        }
        v as u32
    }

    fn from_be(bytes: &[u8]) -> Self {
        let v = be_decode(bytes);
        proof {
            lemma_be_value_bound(bytes@);
            lemma_pow256_values();
        }
        v as u32
    }
}

impl Integer for u64 {
    open spec fn spec_width() -> nat {
        8
    }

    open spec fn spec_from(v: nat) -> Self {
        v as u64
    }

    fn width() -> usize {
        8
    }

    fn from_le(bytes: &[u8]) -> Self {
        let v = le_decode(bytes);
        proof {
            lemma_le_value_bound(bytes@);
            lemma_pow256_values();
        }
        v as u64
    }

    fn from_be(bytes: &[u8]) -> Self {
        let v = be_decode(bytes);
        proof {
            lemma_be_value_bound(bytes@);
            lemma_pow256_values();
        }
        v as u64
    }
}

impl Integer for u128 {
    open spec fn spec_width() -> nat {
        16
    }

    open spec fn spec_from(v: nat) -> Self {
        v as u128
    }

    fn width() -> usize {
        16
    }

    fn from_le(bytes: &[u8]) -> Self {
        let v = le_decode(bytes);
        proof {
            lemma_le_value_bound(bytes@);
            lemma_pow256_values();
        }
        v
    }

    fn from_be(bytes: &[u8]) -> Self {
        let v = be_decode(bytes);
        proof {
            lemma_be_value_bound(bytes@);
            lemma_pow256_values();
        }
        v
    }
}

impl Integer for i8 {
    open spec fn spec_width() -> nat {
        1
    }

    open spec fn spec_from(v: nat) -> Self {
        signed_value(v, 1) as i8
    }

    fn width() -> usize {
        1
    }

    fn from_le(bytes: &[u8]) -> Self {
        let v = le_decode(bytes);
        proof {
            lemma_le_value_bound(bytes@);
            lemma_pow256_values();
        }
        if v < 0x80 {
            v as i8
        } else {
            i8::MIN + ((v - 0x80) as i8)
        }
    }

    fn from_be(bytes: &[u8]) -> Self {
        let v = be_decode(bytes);
        proof {
            lemma_be_value_bound(bytes@);
            lemma_pow256_values();
        }
        if v < 0x80 {
            v as i8
        } else {
            i8::MIN + ((v - 0x80) as i8)
        }
    }
}

impl Integer for i16 {
    open spec fn spec_width() -> nat {
        2
    }

    open spec fn spec_from(v: nat) -> Self {
        signed_value(v, 2) as i16
    }

    fn width() -> usize {
        2
    }

    fn from_le(bytes: &[u8]) -> Self {
        let v = le_decode(bytes);
        proof {
            lemma_le_value_bound(bytes@);
            lemma_pow256_values();
        }
        if v < 0x8000 {
            v as i16
        } else {
            i16::MIN + ((v - 0x8000) as i16)
        }
    }

    fn from_be(bytes: &[u8]) -> Self {
        let v = be_decode(bytes);
        proof {
            lemma_be_value_bound(bytes@);
            lemma_pow256_values();
        }
        if v < 0x8000 {
            v as i16
        } else {
            i16::MIN + ((v - 0x8000) as i16)
        }
    }
}

impl Integer for i32 {
    open spec fn spec_width() -> nat {
        4
    }

    open spec fn spec_from(v: nat) -> Self {
        signed_value(v, 4) as i32
    }

    fn width() -> usize {
        4
    }

    fn from_le(bytes: &[u8]) -> Self {
        let v = le_decode(bytes);
        proof {
            lemma_le_value_bound(bytes@);
            lemma_pow256_values();
        }
        if v < 0x8000_0000 {
            v as i32
        } else {
            i32::MIN + ((v - 0x8000_0000) as i32)
        }
    }

    fn from_be(bytes: &[u8]) -> Self {
        let v = be_decode(bytes);
        proof {
            lemma_be_value_bound(bytes@);
            lemma_pow256_values();
        }
        if v < 0x8000_0000 {
            v as i32
        } else {
            i32::MIN + ((v - 0x8000_0000) as i32)
        }
    }
}

impl Integer for i64 {
    open spec fn spec_width() -> nat {
        8
    }

    open spec fn spec_from(v: nat) -> Self {
        signed_value(v, 8) as i64
    }

    fn width() -> usize {
        8
    }

    fn from_le(bytes: &[u8]) -> Self {
        let v = le_decode(bytes);
        proof {
            lemma_le_value_bound(bytes@);
            lemma_pow256_values();
        }
        if v < 0x8000_0000_0000_0000 {
            v as i64
        } else {
            i64::MIN + ((v - 0x8000_0000_0000_0000) as i64)
        }
    }

    fn from_be(bytes: &[u8]) -> Self {
        let v = be_decode(bytes);
        proof {
            lemma_be_value_bound(bytes@);
            lemma_pow256_values();
        }
        if v < 0x8000_0000_0000_0000 {
            v as i64
        } else {
            i64::MIN + ((v - 0x8000_0000_0000_0000) as i64)
        }
    }
}

impl Integer for i128 {
    open spec fn spec_width() -> nat {
        16
    }

    open spec fn spec_from(v: nat) -> Self {
        signed_value(v, 16) as i128
    }

    fn width() -> usize {
        16
    }

    fn from_le(bytes: &[u8]) -> Self {
        let v = le_decode(bytes);
        proof {
            lemma_le_value_bound(bytes@);
            lemma_pow256_values();
        }
        if v < 0x8000_0000_0000_0000_0000_0000_0000_0000 {
            v as i128
        } else {
            i128::MIN + ((v - 0x8000_0000_0000_0000_0000_0000_0000_0000) as i128)
        }
    }

    fn from_be(bytes: &[u8]) -> Self {
        let v = be_decode(bytes);
        proof {
            lemma_be_value_bound(bytes@);
            lemma_pow256_values();
        }
        if v < 0x8000_0000_0000_0000_0000_0000_0000_0000 {
            v as i128
        } else {
            i128::MIN + ((v - 0x8000_0000_0000_0000_0000_0000_0000_0000) as i128)
        }
    }
}

} // verus!
