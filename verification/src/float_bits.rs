//! Floating-point values cross into this library as their IEEE-754 binary64
//! bit patterns (what `f64::to_bits` returns). The library never computes with
//! them; it copies them and orders them. The order of two binary64 values is a
//! function of their bit patterns alone: the sign bit and the 63 magnitude bits
//! give a sign-magnitude integer whose order is the order of the values, both
//! zeros are equal, and a NaN is unordered with everything.

use vstd::prelude::*;

verus! {

pub const SIGN_BIT: u64 = 0x8000_0000_0000_0000;
pub const INFINITY_BITS: u64 = 0x7ff0_0000_0000_0000;
/// The bit pattern of `1.0`.
pub const ONE_BITS: u64 = 0x3ff0_0000_0000_0000;

/// Whether the bit pattern is a NaN.
pub open spec fn is_nan(b: u64) -> bool {
    b % SIGN_BIT > INFINITY_BITS
}

/// An integer whose order is the numeric order of the value `b` stands for.
pub open spec fn order_key(b: u64) -> int {
    if b < SIGN_BIT {
        b as int
    } else {
        -((b - SIGN_BIT) as int)
    }
}

/// The outcome of `f64::compare`.
#[derive(Debug, Clone, Copy, PartialEq, Eq, Structural)]
pub enum FloatOrder {
    Less,
    Equal,
    Greater,
    Unordered,
}

/// What `f64::partial_cmp` gives for the values with bit patterns `a` and `b`.
pub open spec fn compare_spec(a: u64, b: u64) -> FloatOrder {
    if is_nan(a) || is_nan(b) {
        FloatOrder::Unordered
    } else if order_key(a) < order_key(b) {
        FloatOrder::Less
    } else if order_key(a) == order_key(b) {
        FloatOrder::Equal
    } else {
        FloatOrder::Greater
    }
}

/// Compares two values given by their bit patterns, as `f64::partial_cmp` does.
pub fn compare(a: u64, b: u64) -> (r: FloatOrder)
    ensures
        r == compare_spec(a, b),
{
    if a % SIGN_BIT > INFINITY_BITS || b % SIGN_BIT > INFINITY_BITS {
        return FloatOrder::Unordered;
    }
    let a_negative = a >= SIGN_BIT;
    let b_negative = b >= SIGN_BIT;
    let a_magnitude = a % SIGN_BIT;
    let b_magnitude = b % SIGN_BIT;
    if a_magnitude == 0 && b_magnitude == 0 {
        return FloatOrder::Equal;
    }
    if a_negative && !b_negative {
        FloatOrder::Less
    } else if !a_negative && b_negative {
        FloatOrder::Greater
    } else if a_magnitude == b_magnitude {
        FloatOrder::Equal
    } else if (a_magnitude < b_magnitude) != a_negative {
        FloatOrder::Less
    } else {
        FloatOrder::Greater
    }
}

/// Whether `a == b` holds for the values the bit patterns stand for.
pub open spec fn float_eq_spec(a: u64, b: u64) -> bool {
    compare_spec(a, b) == FloatOrder::Equal
}

/// `a == b` on the values given by their bit patterns.
pub fn float_eq(a: u64, b: u64) -> (r: bool)
    ensures
        r == float_eq_spec(a, b),
{
    compare(a, b) == FloatOrder::Equal
}

/// `a <= b` on the values given by their bit patterns.
pub fn float_le(a: u64, b: u64) -> (r: bool)
    ensures
        r == (compare_spec(a, b) == FloatOrder::Less || compare_spec(a, b)
            == FloatOrder::Equal),
{
    let o = compare(a, b);
    o == FloatOrder::Less || o == FloatOrder::Equal
}

} // verus!
