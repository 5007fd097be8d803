//! Comparisons of IEEE 754 double-precision numbers held as their bit patterns.
//!
//! A number is carried through the library as the `u64` that `f64::to_bits`
//! gives. Two such patterns compare as the numbers do: a NaN compares with
//! nothing, both zeros are equal, and otherwise the order of the magnitudes,
//! read as integers, is the order of the numbers of equal sign.
use vstd::prelude::*;

verus! {

/// 2 to the power 63: the sign bit.
pub open spec fn sign_bit() -> int {
    0x8000_0000_0000_0000
}

/// Whether the pattern is a NaN: every exponent bit set and a mantissa that is not zero.
pub open spec fn f64_is_nan(b: u64) -> bool {
    (b % 0x8000_0000_0000_0000) / 0x10_0000_0000_0000 == 0x7ff && b % 0x10_0000_0000_0000 != 0
}

/// The position of a number that is not NaN on a line where the order is that of the numbers.
pub open spec fn f64_key(b: u64) -> int {
    let magnitude = (b % 0x8000_0000_0000_0000) as int;
    if b >= sign_bit() { -magnitude } else { magnitude }
}

/// `a < b` on the numbers.
pub open spec fn f64_lt(a: u64, b: u64) -> bool {
    !f64_is_nan(a) && !f64_is_nan(b) && f64_key(a) < f64_key(b)
}

/// `a <= b` on the numbers.
pub open spec fn f64_le(a: u64, b: u64) -> bool {
    !f64_is_nan(a) && !f64_is_nan(b) && f64_key(a) <= f64_key(b)
}

/// `a == b` on the numbers.
pub open spec fn f64_eq(a: u64, b: u64) -> bool {
    !f64_is_nan(a) && !f64_is_nan(b) && f64_key(a) == f64_key(b)
}

/// Whether the pattern is a NaN.
pub fn is_nan_bits(b: u64) -> (r: bool)
    ensures
        r == f64_is_nan(b),
{
    (b % 0x8000_0000_0000_0000) / 0x10_0000_0000_0000 == 0x7ff && b % 0x10_0000_0000_0000 != 0
}

/// `a < b` on the numbers whose patterns are `a` and `b`.
pub fn lt_bits(a: u64, b: u64) -> (r: bool)
    ensures
        r == f64_lt(a, b),
{
    if is_nan_bits(a) || is_nan_bits(b) {
        return false;
    }
    let ma = a % 0x8000_0000_0000_0000;
    let mb = b % 0x8000_0000_0000_0000;
    let na = a >= 0x8000_0000_0000_0000;
    let nb = b >= 0x8000_0000_0000_0000;
    if na && nb {
        mb < ma
    } else if na {
        !(ma == 0 && mb == 0)
    } else if nb {
        false
    } else {
        ma < mb
    }
}

/// `a <= b` on the numbers whose patterns are `a` and `b`.
pub fn le_bits(a: u64, b: u64) -> (r: bool)
    ensures
        r == f64_le(a, b),
{
    if is_nan_bits(a) || is_nan_bits(b) {
        return false;
    }
    !lt_bits(b, a)
}

/// `a == b` on the numbers whose patterns are `a` and `b`.
pub fn eq_bits(a: u64, b: u64) -> (r: bool)
    ensures
        r == f64_eq(a, b),
{
    le_bits(a, b) && le_bits(b, a)
}

} // verus!
