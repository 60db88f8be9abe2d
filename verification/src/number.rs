//! Numbers of the language are IEEE-754 doubles, carried as their 64-bit
//! pattern. Sign, ordering and equality are decided here on the pattern;
//! arithmetic that rounds is left to the embedding program.

use vstd::prelude::*;

verus! {

pub const SIGN_BIT: u64 = 0x8000_0000_0000_0000;

pub const MAGNITUDE_MASK: u64 = 0x7fff_ffff_ffff_ffff;

/// The pattern of positive infinity: every larger magnitude is a NaN.
pub const INFINITY_BITS: u64 = 0x7ff0_0000_0000_0000;

/// The pattern without its sign bit.
pub open spec fn magnitude(bits: u64) -> u64 {
    bits & MAGNITUDE_MASK
}

pub open spec fn is_negative(bits: u64) -> bool {
    bits & SIGN_BIT != 0
}

pub open spec fn is_nan(bits: u64) -> bool {
    magnitude(bits) > INFINITY_BITS
}

pub open spec fn is_zero(bits: u64) -> bool {
    magnitude(bits) == 0
}

/// An integer that orders the non-NaN patterns as the numbers they stand
/// for are ordered; both zeros share the key 0.
pub open spec fn order_key(bits: u64) -> int {
    if is_negative(bits) {
        -(magnitude(bits) as int)
    } else {
        magnitude(bits) as int
    }
}

pub open spec fn equals(left: u64, right: u64) -> bool {
    !is_nan(left) && !is_nan(right) && order_key(left) == order_key(right)
}

pub open spec fn less(left: u64, right: u64) -> bool {
    !is_nan(left) && !is_nan(right) && order_key(left) < order_key(right)
}

pub open spec fn negated(bits: u64) -> u64 {
    bits ^ SIGN_BIT
}

pub fn number_is_nan(bits: u64) -> (r: bool)
    ensures
        r == is_nan(bits),
{
    (bits & MAGNITUDE_MASK) > INFINITY_BITS
}

pub fn number_is_zero(bits: u64) -> (r: bool)
    ensures
        r == is_zero(bits),
{
    (bits & MAGNITUDE_MASK) == 0
}

/// `==` of the language on two numbers: a NaN equals nothing, the two
/// zeros equal each other.
pub fn number_equals(left: u64, right: u64) -> (r: bool)
    ensures
        r == equals(left, right),
{
    if number_is_nan(left) || number_is_nan(right) {
        return false;
    }
    let left_magnitude: u64 = left & MAGNITUDE_MASK;
    let right_magnitude: u64 = right & MAGNITUDE_MASK;
    if left_magnitude == 0 && right_magnitude == 0 {
        return true;
    }
    let left_negative: bool = (left & SIGN_BIT) != 0;
    let right_negative: bool = (right & SIGN_BIT) != 0;
    left_negative == right_negative && left_magnitude == right_magnitude
}

/// `<` of the language on two numbers; false whenever a NaN takes part.
pub fn number_less(left: u64, right: u64) -> (r: bool)
    ensures
        r == less(left, right),
{
    if number_is_nan(left) || number_is_nan(right) {
        return false;
    }
    let left_magnitude: u64 = left & MAGNITUDE_MASK;
    let right_magnitude: u64 = right & MAGNITUDE_MASK;
    let left_negative: bool = (left & SIGN_BIT) != 0;
    let right_negative: bool = (right & SIGN_BIT) != 0;
    if left_negative {
        if right_negative {
            left_magnitude > right_magnitude
        } else {
            left_magnitude != 0 || right_magnitude != 0
        }
    } else {
        if right_negative {
            false
        } else {
            left_magnitude < right_magnitude
        }
    }
}

/// Unary minus flips the sign and nothing else.
pub fn number_negate(bits: u64) -> (r: u64)
    ensures
        r == negated(bits),
{
    bits ^ SIGN_BIT
}

/// Unary minus changes the sign and only the sign: negating twice gives
/// the pattern back, and a negated number keeps its magnitude.
pub proof fn law_negation_flips_only_the_sign(bits: u64)
    ensures
        negated(negated(bits)) == bits,
        magnitude(negated(bits)) == magnitude(bits),
        is_negative(negated(bits)) == !is_negative(bits),
{
    assert((bits ^ 0x8000_0000_0000_0000u64) ^ 0x8000_0000_0000_0000u64 == bits) by (bit_vector);
    assert((bits ^ 0x8000_0000_0000_0000u64) & 0x7fff_ffff_ffff_ffffu64 == bits
        & 0x7fff_ffff_ffff_ffffu64) by (bit_vector);
    assert(((bits ^ 0x8000_0000_0000_0000u64) & 0x8000_0000_0000_0000u64 != 0) == !(bits
        & 0x8000_0000_0000_0000u64 != 0)) by (bit_vector);
}

} // verus!
