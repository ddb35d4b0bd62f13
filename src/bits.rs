//! Facts about single bits of bytes.

use vstd::prelude::*;

verus! {

/// Bit `k` (0 = least significant) of `b`.
pub open spec fn bit_of(b: u8, k: int) -> bool {
    (b >> (k as u8)) & 1u8 == 1u8
}

/// `b` with bit `k` set.
pub open spec fn set_bit(b: u8, k: int) -> u8 {
    b | (1u8 << (k as u8))
}

/// `b` with bit `k` cleared.
pub open spec fn clear_bit(b: u8, k: int) -> u8 {
    b & !(1u8 << (k as u8))
}

proof fn lemma_set_bit_u8(b: u8, k: u8, j: u8)
    requires
        k < 8,
        j < 8,
    ensures
        ((b | (1u8 << k)) >> j) & 1u8 == 1u8 <==> (j == k || (b >> j) & 1u8 == 1u8),
{
    assert(((b | (1u8 << k)) >> j) & 1u8 == 1u8 <==> (j == k || (b >> j) & 1u8 == 1u8))
        by (bit_vector)
        requires
            k < 8,
            j < 8,
    ;
}

proof fn lemma_clear_bit_u8(b: u8, k: u8, j: u8)
    requires
        k < 8,
        j < 8,
    ensures
        ((b & !(1u8 << k)) >> j) & 1u8 == 1u8 <==> (j != k && (b >> j) & 1u8 == 1u8),
{
    assert(((b & !(1u8 << k)) >> j) & 1u8 == 1u8 <==> (j != k && (b >> j) & 1u8 == 1u8))
        by (bit_vector)
        requires
            k < 8,
            j < 8,
    ;
}

pub proof fn lemma_set_bit(b: u8, k: int, j: int)
    requires
        0 <= k < 8,
        0 <= j < 8,
    ensures
        bit_of(set_bit(b, k), j) <==> (j == k || bit_of(b, j)),
{
    lemma_set_bit_u8(b, k as u8, j as u8);
}

pub proof fn lemma_clear_bit(b: u8, k: int, j: int)
    requires
        0 <= k < 8,
        0 <= j < 8,
    ensures
        bit_of(clear_bit(b, k), j) <==> (j != k && bit_of(b, j)),
{
    lemma_clear_bit_u8(b, k as u8, j as u8);
}

pub proof fn lemma_set_bit_idempotent(b: u8, k: int)
    requires
        0 <= k < 8,
    ensures
        set_bit(set_bit(b, k), k) == set_bit(b, k),
{
    let kk = k as u8;
    assert((b | (1u8 << kk)) | (1u8 << kk) == b | (1u8 << kk)) by (bit_vector);
}

pub proof fn lemma_zero_bits(k: int)
    requires
        0 <= k < 8,
    ensures
        !bit_of(0u8, k),
{
    let kk = k as u8;
    assert((0u8 >> kk) & 1u8 == 0u8) by (bit_vector);
}

/// Bit 0 of `b` decides its parity.
pub proof fn lemma_low_bit(b: u8)
    ensures
        (b & 1u8 == 1u8) <==> (b & 1u8 != 0u8),
        bit_of(b, 0) <==> (b & 1u8 == 1u8),
{
    assert((b & 1u8 == 1u8) <==> (b & 1u8 != 0u8)) by (bit_vector);
    assert(((b >> 0u8) & 1u8 == 1u8) <==> (b & 1u8 == 1u8)) by (bit_vector);
}

} // verus!
