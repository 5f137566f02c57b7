//! Single-bit views of a byte, and the masking lemmas the framebuffer and
//! the protocol decoder rely on.

use vstd::prelude::*;

verus! {

/// Bit `k` of `b`, counted from the least significant end.
pub open spec fn nth_bit(b: u8, k: u8) -> bool {
    b >> k & 1 == 1
}

/// OR-ing in the mask `1 << k` sets bit `k` and leaves every other bit alone.
pub proof fn lemma_or_bit(c: u8, k: u8, j: u8)
    by (bit_vector)
    requires
        k < 8,
        j < 8,
    ensures
        nth_bit(c | 1u8 << k, j) == (j == k || nth_bit(c, j)),
{
}

/// AND-ing with the complement of `1 << k` clears bit `k` and leaves every
/// other bit alone.
pub proof fn lemma_and_not_bit(c: u8, k: u8, j: u8)
    by (bit_vector)
    requires
        k < 8,
        j < 8,
    ensures
        nth_bit(c & !(1u8 << k), j) == (j != k && nth_bit(c, j)),
{
}

/// Every bit of the zero byte is clear.
pub proof fn lemma_zero_bit(j: u8)
    by (bit_vector)
    ensures
        !nth_bit(0u8, j),
{
}

/// Two bytes that agree on all eight bits are equal.
pub proof fn lemma_bit_ext(a: u8, b: u8)
    by (bit_vector)
    requires
        nth_bit(a, 0) == nth_bit(b, 0),
        nth_bit(a, 1) == nth_bit(b, 1),
        nth_bit(a, 2) == nth_bit(b, 2),
        nth_bit(a, 3) == nth_bit(b, 3),
        nth_bit(a, 4) == nth_bit(b, 4),
        nth_bit(a, 5) == nth_bit(b, 5),
        nth_bit(a, 6) == nth_bit(b, 6),
        nth_bit(a, 7) == nth_bit(b, 7),
    ensures
        a == b,
{
}

} // verus!
