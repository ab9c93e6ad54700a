//! Densities are carried as IEEE-754 single-precision bit patterns, so that
//! the sign test against the iso-surface cutoff is an exact integer predicate.

use vstd::prelude::*;

verus! {

/// Bit pattern of negative zero: the smallest pattern with the sign bit set.
pub const NEGATIVE_ZERO: u32 = 0x8000_0000;

/// Bit pattern of negative infinity: the largest pattern with the sign bit
/// set that is still a number.
pub const NEGATIVE_INFINITY: u32 = 0xFF80_0000;

/// Bit pattern of positive infinity.
pub const POSITIVE_INFINITY: u32 = 0x7F80_0000;

/// A density lies strictly below the cutoff (zero) exactly when it is a
/// negative number: sign bit set, not negative zero, not a NaN.
pub open spec fn below_cutoff(bits: u32) -> bool {
    NEGATIVE_ZERO < bits && bits <= NEGATIVE_INFINITY
}

/// A value is positive exactly when its sign bit is clear and it is neither
/// zero nor a NaN.
pub open spec fn positive(bits: u32) -> bool {
    0 < bits && bits <= POSITIVE_INFINITY
}

/// Tests whether the density with the given bit pattern is strictly below
/// the cutoff.
pub fn is_below_cutoff(bits: u32) -> (below: bool)
    ensures
        below == below_cutoff(bits),
{
    NEGATIVE_ZERO < bits && bits <= NEGATIVE_INFINITY
}

/// Tests whether the value with the given bit pattern is a positive number.
pub fn is_positive(bits: u32) -> (pos: bool)
    ensures
        pos == positive(bits),
{
    0 < bits && bits <= POSITIVE_INFINITY
}

/// The pattern without its sign bit.
pub open spec fn magnitude(bits: u32) -> int {
    bits as int % 0x8000_0000
}

/// Whether the pattern is that of a NaN: beyond infinity in magnitude.
pub open spec fn not_a_number(bits: u32) -> bool {
    magnitude(bits) > POSITIVE_INFINITY
}

/// The place of a number on the number line, as an integer that grows with
/// the number: the magnitude, negated where the sign bit is set. Both zeros
/// have rank zero.
pub open spec fn rank(bits: u32) -> int {
    if bits >= NEGATIVE_ZERO {
        -magnitude(bits)
    } else {
        magnitude(bits)
    }
}

/// Whether the first number is less than the second. A NaN is neither less
/// nor greater than anything.
pub open spec fn less(a: u32, b: u32) -> bool {
    !not_a_number(a) && !not_a_number(b) && rank(a) < rank(b)
}

/// Whether two numbers are equal. A NaN equals nothing, and the two zeros
/// equal each other.
pub open spec fn equal(a: u32, b: u32) -> bool {
    !not_a_number(a) && !not_a_number(b) && rank(a) == rank(b)
}

/// To lie below the cutoff is to be less than zero.
pub proof fn lemma_below_cutoff_is_less_than_zero(bits: u32)
    ensures
        below_cutoff(bits) == less(bits, 0),
        positive(bits) == less(0, bits),
{
}

/// The rank of a number, or `None` for a NaN.
fn rank_of(bits: u32) -> (found: Option<i64>)
    ensures
        found is None <==> not_a_number(bits),
        found is Some ==> found->0 == rank(bits),
{
    let magnitude: u32 = bits % 0x8000_0000;
    if magnitude > POSITIVE_INFINITY {
        None
    } else if bits >= NEGATIVE_ZERO {
        Some(-(magnitude as i64))
    } else {
        Some(magnitude as i64)
    }
}

/// Tests whether the first number is less than the second.
pub fn is_less(a: u32, b: u32) -> (lt: bool)
    ensures
        lt == less(a, b),
{
    match (rank_of(a), rank_of(b)) {
        (Some(first), Some(second)) => first < second,
        _ => false,
    }
}

/// Tests whether two numbers are equal.
pub fn is_equal(a: u32, b: u32) -> (eq: bool)
    ensures
        eq == equal(a, b),
{
    match (rank_of(a), rank_of(b)) {
        (Some(first), Some(second)) => first == second,
        _ => false,
    }
}

} // verus!
