//! Floating-point values are carried as IEEE-754 binary64 bit patterns.
//! Classification, equality, ordering and negation are computed on the bits
//! here; arithmetic and conversions come from the host through [`FloatArith`].
use vstd::prelude::*;

verus! {

pub const SIGN_MASK: u64 = 0x8000_0000_0000_0000;

pub const MAGNITUDE_MASK: u64 = 0x7fff_ffff_ffff_ffff;

pub const EXPONENT_MASK: u64 = 0x7ff0_0000_0000_0000;

pub const MANTISSA_MASK: u64 = 0x000f_ffff_ffff_ffff;

/// Floating-point arithmetic supplied by the host. Each method takes and
/// returns binary64 bit patterns and is expected to behave as the
/// corresponding IEEE-754 operation with round-to-nearest-even.
pub trait FloatArith {
    /// The nearest binary64 value to `i`.
    fn from_int(&self, i: i64) -> u64;

    fn add(&self, a: u64, b: u64) -> u64;

    fn sub(&self, a: u64, b: u64) -> u64;

    fn mul(&self, a: u64, b: u64) -> u64;

    fn div(&self, a: u64, b: u64) -> u64;

    /// The remainder of truncating division.
    fn rem(&self, a: u64, b: u64) -> u64;

    /// `a` raised to the power `b`.
    fn pow(&self, a: u64, b: u64) -> u64;

    /// The shortest decimal text that reads back as `a`.
    fn to_text(&self, a: u64) -> String;
}

pub open spec fn spec_is_nan(x: u64) -> bool {
    (x & EXPONENT_MASK) == EXPONENT_MASK && (x & MANTISSA_MASK) != 0
}

/// Positive and negative zero.
pub open spec fn spec_is_zero(x: u64) -> bool {
    (x & MAGNITUDE_MASK) == 0
}

/// IEEE equality: NaN equals nothing, the two zeros are equal, otherwise the
/// bit patterns must agree.
pub open spec fn spec_float_eq(a: u64, b: u64) -> bool {
    !spec_is_nan(a) && !spec_is_nan(b) && (a == b || (spec_is_zero(a) && spec_is_zero(b)))
}

/// The position of a non-NaN value on the number line: sign and magnitude
/// read as a signed integer, with both zeros at 0. Binary64 magnitudes are
/// ordered as their bit patterns are.
pub open spec fn spec_order_key(x: u64) -> int {
    if x & SIGN_MASK == 0 {
        (x & MAGNITUDE_MASK) as int
    } else {
        -((x & MAGNITUDE_MASK) as int)
    }
}

pub open spec fn spec_float_lt(a: u64, b: u64) -> bool {
    !spec_is_nan(a) && !spec_is_nan(b) && spec_order_key(a) < spec_order_key(b)
}

pub open spec fn spec_float_le(a: u64, b: u64) -> bool {
    !spec_is_nan(a) && !spec_is_nan(b) && spec_order_key(a) <= spec_order_key(b)
}

pub fn is_nan(x: u64) -> (r: bool)
    ensures
        r == spec_is_nan(x),
{
    (x & EXPONENT_MASK) == EXPONENT_MASK && (x & MANTISSA_MASK) != 0
}

pub fn is_zero(x: u64) -> (r: bool)
    ensures
        r == spec_is_zero(x),
{
    (x & MAGNITUDE_MASK) == 0
}

pub fn float_eq(a: u64, b: u64) -> (r: bool)
    ensures
        r == spec_float_eq(a, b),
{
    !is_nan(a) && !is_nan(b) && (a == b || (is_zero(a) && is_zero(b)))
}

fn order_key(x: u64) -> (r: i64)
    ensures
        r as int == spec_order_key(x),
{
    let m = x & MAGNITUDE_MASK;
    assert(m <= MAGNITUDE_MASK) by (bit_vector)
        requires
            m == x & MAGNITUDE_MASK,
    ;
    if x & SIGN_MASK == 0 {
        m as i64
    } else {
        -(m as i64)
    }
}

pub fn float_lt(a: u64, b: u64) -> (r: bool)
    ensures
        r == spec_float_lt(a, b),
{
    !is_nan(a) && !is_nan(b) && order_key(a) < order_key(b)
}

pub fn float_le(a: u64, b: u64) -> (r: bool)
    ensures
        r == spec_float_le(a, b),
{
    !is_nan(a) && !is_nan(b) && order_key(a) <= order_key(b)
}

/// Negation flips the sign bit.
pub fn float_neg(x: u64) -> (r: u64)
    ensures
        r == x ^ SIGN_MASK,
{
    x ^ SIGN_MASK
}

} // verus!
