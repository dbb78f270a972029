//! Fractional numbers as whole numbers with the same order.
//!
//! A caller that keeps its numbers in the common binary format of 32 bits (one
//! bit of sign, then size: eight bits of exponent over twenty-three of fraction)
//! hands over their bit patterns. Read as sign and size, two patterns that stand
//! for numbers compare as the numbers do, so a pattern's key can take the
//! number's place wherever only order and sign are asked about.

use vstd::prelude::*;

verus! {

/// The largest size of a pattern that stands for a number: that of infinity.
/// Larger sizes stand for no number.
pub const LARGEST_SIZE: u32 = 0x7f80_0000;

/// The size of a pattern: all its bits but the sign.
pub open spec fn size_of(bits: u32) -> u32 {
    bits & 0x7fff_ffff
}

/// Whether the sign of a pattern is set.
pub open spec fn is_negative(bits: u32) -> bool {
    bits >> 31 == 1
}

/// Whether a pattern stands for a number, finite or infinite.
pub open spec fn stands_for_number(bits: u32) -> bool {
    size_of(bits) <= LARGEST_SIZE
}

/// The key of a pattern: its size, negative where the sign is set. Both zeros
/// have the key zero.
pub open spec fn key(bits: u32) -> int {
    if is_negative(bits) {
        -(size_of(bits) as int)
    } else {
        size_of(bits) as int
    }
}

/// The pattern of a key: its size, with the sign set where the key is negative.
pub open spec fn pattern(k: int) -> u32 {
    if k < 0 {
        0x8000_0000u32 | ((-k) as u32)
    } else {
        k as u32
    }
}

proof fn lemma_split(bits: u32)
    by (bit_vector)
    ensures
        bits & 0x7fff_ffff <= 0x7fff_ffff,
        bits >> 31 == 0 || bits >> 31 == 1,
        bits >> 31 == 1 ==> bits == 0x8000_0000u32 | (bits & 0x7fff_ffff),
        bits >> 31 == 0 ==> bits == bits & 0x7fff_ffff,
        (bits ^ 0x8000_0000) & 0x7fff_ffff == bits & 0x7fff_ffff,
        ((bits ^ 0x8000_0000) >> 31 == 1) <==> (bits >> 31 == 0),
{
}

proof fn lemma_compare(a: u32, b: u32)
    by (bit_vector)
    ensures
        a >> 31 == b >> 31 ==> (a < b <==> (a & 0x7fff_ffff) < (b & 0x7fff_ffff)),
        a >> 31 == b >> 31 ==> (a == b <==> (a & 0x7fff_ffff) == (b & 0x7fff_ffff)),
        0x8000_0000u32 >> 31 == 1,
        0x8000_0000u32 & 0x7fff_ffff == 0,
        0u32 >> 31 == 0,
        0u32 & 0x7fff_ffff == 0,
{
}

/// Whether a pattern stands for a number.
pub fn is_number(bits: u32) -> (number: bool)
    ensures
        number == stands_for_number(bits),
{
    (bits & 0x7fff_ffff) <= LARGEST_SIZE
}

/// The key of a pattern.
pub fn key_of_bits(bits: u32) -> (k: i64)
    ensures
        k == key(bits),
        -0x7fff_ffff <= k <= 0x7fff_ffff,
{
    proof {
        lemma_split(bits);
    }
    let size = (bits & 0x7fff_ffff) as i64;
    if bits >> 31 == 1 {
        -size
    } else {
        size
    }
}

/// The pattern of a key.
pub fn bits_of_key(k: i64) -> (bits: u32)
    requires
        -0x7fff_ffff <= k <= 0x7fff_ffff,
    ensures
        bits == pattern(k as int),
        key(bits) == k,
{
    proof {
        lemma_key_of_pattern(k as int);
    }
    if k < 0 {
        0x8000_0000u32 | ((-k) as u32)
    } else {
        k as u32
    }
}

/// The key of a signed distance. A pattern that stands for no number lies on no
/// side of a boundary; it gets the key of a point outside.
pub fn distance_key(bits: u32) -> (k: i64)
    ensures
        k == (if stands_for_number(bits) {
            key(bits)
        } else {
            -1
        }),
{
    if is_number(bits) {
        key_of_bits(bits)
    } else {
        -1
    }
}

/// The key of a depth. A pattern that stands for no number gets the largest key
/// there is: it is put behind everything else.
pub fn depth_key(bits: u32) -> (k: i64)
    ensures
        k == (if stands_for_number(bits) {
            key(bits)
        } else {
            i64::MAX as int
        }),
{
    if is_number(bits) {
        key_of_bits(bits)
    } else {
        i64::MAX
    }
}

/// A key gives back the pattern it was taken from, but for the zero with its
/// sign set, which gives back the plain zero.
pub proof fn lemma_pattern_of_key(bits: u32)
    ensures
        bits != 0x8000_0000 ==> pattern(key(bits)) == bits,
        pattern(key(0x8000_0000)) == 0,
{
    lemma_split(bits);
    lemma_compare(bits, 0x8000_0000);
    let size = size_of(bits);
    if is_negative(bits) && size > 0 {
        assert(pattern(-(size as int)) == 0x8000_0000u32 | size);
    }
}

/// The pattern of a key has that key.
pub proof fn lemma_key_of_pattern(k: int)
    requires
        -0x7fff_ffff <= k <= 0x7fff_ffff,
    ensures
        key(pattern(k)) == k,
{
    let bits = pattern(k);
    lemma_split(bits);
    if k < 0 {
        let size = (-k) as u32;
        assert((0x8000_0000u32 | size) >> 31 == 1 && (0x8000_0000u32 | size) & 0x7fff_ffff == size)
            by (bit_vector)
            requires
                0 < size <= 0x7fff_ffffu32,
        ;
    } else {
        let size = k as u32;
        assert(size >> 31 == 0 && size & 0x7fff_ffff == size) by (bit_vector)
            requires
                size <= 0x7fff_ffffu32,
        ;
    }
}

/// Turning the sign of a pattern turns the sign of its key.
pub proof fn lemma_key_of_opposite(bits: u32)
    ensures
        key(bits ^ 0x8000_0000) == -key(bits),
{
    lemma_split(bits);
}

/// Among patterns without the sign the larger pattern has the larger key, among
/// patterns with the sign the smaller; and no key of a pattern with the sign is
/// above a key of one without.
pub proof fn lemma_key_order(a: u32, b: u32)
    ensures
        !is_negative(a) && !is_negative(b) ==> (a < b <==> key(a) < key(b)),
        is_negative(a) && is_negative(b) ==> (a < b <==> key(a) > key(b)),
        is_negative(a) && !is_negative(b) ==> key(a) <= key(b),
        key(a) == key(b) <==> (a == b || (size_of(a) == 0 && size_of(b) == 0)),
{
    lemma_split(a);
    lemma_split(b);
    lemma_compare(a, b);
}

} // verus!
