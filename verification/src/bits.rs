//! Facts about single bits of a byte, used by the frame bitmap.
use vstd::prelude::*;

verus! {

/// Bit `k` (counted from the least significant bit) of `b` is one.
pub open spec fn bit_set(b: u8, k: u8) -> bool {
    (b >> k) & 1u8 == 1u8
}

/// Setting bit `k` changes that bit only.
pub proof fn lemma_or_bit(b: u8, k: u8, j: u8)
    requires
        k < 8,
        j < 8,
    ensures
        bit_set(b | (1u8 << k), j) == (j == k || bit_set(b, j)),
{
    assert(((b | (1u8 << k)) >> j) & 1u8 == 1u8 <==> (j == k || (b >> j) & 1u8 == 1u8))
        by (bit_vector)
        requires
            k < 8,
            j < 8,
    ;
}

/// Clearing bit `k` changes that bit only.
pub proof fn lemma_and_not_bit(b: u8, k: u8, j: u8)
    requires
        k < 8,
        j < 8,
    ensures
        bit_set(b & !(1u8 << k), j) == (j != k && bit_set(b, j)),
{
    assert(((b & !(1u8 << k)) >> j) & 1u8 == 1u8 <==> (j != k && (b >> j) & 1u8 == 1u8))
        by (bit_vector)
        requires
            k < 8,
            j < 8,
    ;
}

/// Masking with `1 << k` tests bit `k`.
pub proof fn lemma_mask_bit(b: u8, k: u8)
    requires
        k < 8,
    ensures
        ((b & (1u8 << k)) == 0) == !bit_set(b, k),
{
    assert(((b & (1u8 << k)) == 0u8) == !((b >> k) & 1u8 == 1u8)) by (bit_vector)
        requires
            k < 8,
    ;
}

/// A byte is `0xFF` exactly when its eight bits are all one.
pub proof fn lemma_full_byte(b: u8)
    ensures
        (b == 0xFFu8) == (bit_set(b, 0) && bit_set(b, 1) && bit_set(b, 2) && bit_set(b, 3)
            && bit_set(b, 4) && bit_set(b, 5) && bit_set(b, 6) && bit_set(b, 7)),
{
    assert((b == 0xFFu8) == ((b >> 0u8) & 1u8 == 1u8 && (b >> 1u8) & 1u8 == 1u8 && (b >> 2u8) & 1u8
        == 1u8 && (b >> 3u8) & 1u8 == 1u8 && (b >> 4u8) & 1u8 == 1u8 && (b >> 5u8) & 1u8 == 1u8
        && (b >> 6u8) & 1u8 == 1u8 && (b >> 7u8) & 1u8 == 1u8)) by (bit_vector);
}

} // verus!
