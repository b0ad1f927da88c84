//! Bit-level helpers for the 64-bit coverage mask: one bit per lane of an
//! 8x8 tile.

use vstd::prelude::*;
use vstd::std_specs::bits::u64_trailing_zeros;

verus! {

/// Lane `i` is flagged in mask `m`.
pub open spec fn nth_bit(m: u64, i: u64) -> bool {
    (m >> i) & 1u64 == 1u64
}

/// Index of the lowest flagged lane (64 when no lane is flagged).
pub open spec fn lowest_lane(m: u64) -> int {
    u64_trailing_zeros(m) as int
}

pub proof fn lemma_bit_or(a: u64, b: u64, i: u64)
    by (bit_vector)
    requires
        i < 64,
    ensures
        nth_bit(a | b, i) == (nth_bit(a, i) || nth_bit(b, i)),
{
}

pub proof fn lemma_bit_and(a: u64, b: u64, i: u64)
    by (bit_vector)
    requires
        i < 64,
    ensures
        nth_bit(a & b, i) == (nth_bit(a, i) && nth_bit(b, i)),
{
}

pub proof fn lemma_bit_not(a: u64, i: u64)
    by (bit_vector)
    requires
        i < 64,
    ensures
        nth_bit(!a, i) == !nth_bit(a, i),
{
}

pub proof fn lemma_bit_zero(i: u64)
    by (bit_vector)
    requires
        i < 64,
    ensures
        !nth_bit(0u64, i),
{
}

pub proof fn lemma_bit_single(k: u64, i: u64)
    by (bit_vector)
    requires
        k < 64,
        i < 64,
    ensures
        nth_bit(1u64 << k, i) == (i == k),
{
}

/// A mask is zero exactly when no lane is flagged.
pub proof fn lemma_mask_zero(m: u64)
    ensures
        (m == 0) <==> (forall|i: u64| i < 64 ==> !nth_bit(m, i)),
{
    if m == 0 {
        assert forall|i: u64| i < 64 implies !nth_bit(m, i) by {
            lemma_bit_zero(i);
        }
    } else {
        lemma_lowest_lane(m);
    }
}

/// What the lowest flagged lane of a non-zero mask is: flagged itself, with
/// nothing flagged below it.
pub proof fn lemma_lowest_lane(m: u64)
    requires
        m != 0,
    ensures
        0 <= lowest_lane(m) < 64,
        nth_bit(m, lowest_lane(m) as u64),
        forall|i: u64| i < lowest_lane(m) ==> !nth_bit(m, i),
{
    vstd::std_specs::bits::axiom_u64_trailing_zeros(m);
}

} // verus!
