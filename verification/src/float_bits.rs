use vstd::prelude::*;

verus! {

// This crate does no floating-point arithmetic. Where a setting is a
// double-precision number it is carried as its IEEE-754 bit pattern, and the
// few checks made on such a setting are stated on that pattern.

pub open spec fn sign_bit_set(b: u64) -> bool {
    b >= 0x8000_0000_0000_0000
}

/// The bits without the sign.
pub open spec fn magnitude(b: u64) -> int {
    if sign_bit_set(b) {
        b - 0x8000_0000_0000_0000
    } else {
        b as int
    }
}

pub open spec fn is_nan(b: u64) -> bool {
    magnitude(b) > 0x7ff0_0000_0000_0000
}

/// The number is finite and strictly greater than zero.
pub open spec fn is_positive_finite(b: u64) -> bool {
    0 < b < 0x7ff0_0000_0000_0000
}

/// The number compares `<= 0.0` (both zeros, every negative number).
pub open spec fn is_at_most_zero(b: u64) -> bool {
    !is_nan(b) && (sign_bit_set(b) || b == 0)
}

/// The number compares `>= 1.0`.
pub open spec fn is_at_least_one(b: u64) -> bool {
    !is_nan(b) && !sign_bit_set(b) && b >= 0x3ff0_0000_0000_0000
}

/// Whether the double with bit pattern `b` is finite and greater than zero.
pub fn positive_finite(b: u64) -> (r: bool)
    ensures
        r == is_positive_finite(b),
{
    0 < b && b < 0x7ff0_0000_0000_0000
}

/// Whether the double with bit pattern `b` compares `<= 0.0` or `>= 1.0`.
pub fn outside_open_unit_interval(b: u64) -> (r: bool)
    ensures
        r == (is_at_most_zero(b) || is_at_least_one(b)),
{
    let sign = b >= 0x8000_0000_0000_0000;
    let mag = if sign {
        b - 0x8000_0000_0000_0000
    } else {
        b
    };
    let nan = mag > 0x7ff0_0000_0000_0000;
    !nan && (sign || b == 0 || b >= 0x3ff0_0000_0000_0000)
}

/// In terms of the fields of a double (sign bit 63, exponent bits 52 to 62,
/// fraction below): it is positive and finite exactly when the sign is
/// clear, the exponent is not all ones (infinity and NaN), and the number is
/// not zero. So every positive finite value, such as 1.0 or 1.5, counts,
/// and no zero, negative number, infinity or NaN does.
pub proof fn lemma_positive_finite_fields(b: u64)
    ensures
        is_positive_finite(b) <==> (b / 0x8000_0000_0000_0000 == 0 && (b / 0x10_0000_0000_0000)
            % 0x800 != 0x7ff && b != 0),
{
    if b < 0x8000_0000_0000_0000 {
        assert(b / 0x8000_0000_0000_0000 == 0);
        assert(b / 0x10_0000_0000_0000 < 0x800);
        assert((b / 0x10_0000_0000_0000) % 0x800 == b / 0x10_0000_0000_0000);
        assert(b < 0x7ff0_0000_0000_0000 <==> b / 0x10_0000_0000_0000 < 0x7ff);
    } else {
        assert(b / 0x8000_0000_0000_0000 == 1);
    }
}

/// In terms of the fields of a double: it compares `<= 0.0` or `>= 1.0`
/// exactly when it is not a NaN (exponent all ones with a non-zero fraction)
/// and its sign is set, or it is +0, or its exponent field is at least that
/// of 1.0. Every number strictly between 0 and 1, and every NaN, is outside
/// this set.
pub proof fn lemma_unit_interval_fields(b: u64)
    ensures
        (is_at_most_zero(b) || is_at_least_one(b)) <==> (!((b / 0x10_0000_0000_0000) % 0x800
            == 0x7ff && b % 0x10_0000_0000_0000 != 0) && (b / 0x8000_0000_0000_0000 == 1 || b == 0
            || (b / 0x10_0000_0000_0000) % 0x800 >= 0x3ff)),
{
    let m = magnitude(b);
    if b >= 0x8000_0000_0000_0000 {
        assert(b / 0x8000_0000_0000_0000 == 1);
        assert(b / 0x10_0000_0000_0000 == 0x800 + m / 0x10_0000_0000_0000);
        assert((b / 0x10_0000_0000_0000) % 0x800 == m / 0x10_0000_0000_0000);
        assert(b % 0x10_0000_0000_0000 == m % 0x10_0000_0000_0000);
    } else {
        assert(b / 0x8000_0000_0000_0000 == 0);
        assert((b / 0x10_0000_0000_0000) % 0x800 == m / 0x10_0000_0000_0000);
    }
    assert(is_nan(b) <==> (m / 0x10_0000_0000_0000 == 0x7ff && m % 0x10_0000_0000_0000 != 0));
}

} // verus!
