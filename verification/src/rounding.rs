//! Rounding an integer to the seven digits of a coefficient.
//!
//! An integer with more than seven digits is stored as its seven leading
//! digits, rounded to nearest with ties to even, and the number of digits
//! dropped, by which the exponent is raised.
use crate::decimal32::COEFFECIENT_MAX;
use vstd::prelude::*;

verus! {

/// Ten to the power `k`, for `k` up to 3.
pub open spec fn pow10(k: nat) -> nat {
    if k == 0 {
        1
    } else if k == 1 {
        10
    } else if k == 2 {
        100
    } else {
        1000
    }
}

/// The number of digits that `num` has beyond seven.
pub open spec fn excess_digits(num: u32) -> nat {
    if num <= 9_999_999 {
        0
    } else if num <= 99_999_999 {
        1
    } else if num <= 999_999_999 {
        2
    } else {
        3
    }
}

/// `num` divided by `unit` and rounded to the nearest integer, a tie going
/// to the even one.
pub open spec fn round_half_even(num: nat, unit: nat) -> nat {
    let quotient = num / unit;
    let rest = num % unit;
    if 2 * rest > unit || (2 * rest == unit && quotient % 2 == 1) {
        quotient + 1
    } else {
        quotient
    }
}

/// The number of low digits that rounding `num` to seven digits drops. It is
/// one more than the excess where rounding up carries into an eighth digit.
pub open spec fn rounded_shift(num: u32) -> nat {
    let excess = excess_digits(num);
    if round_half_even(num as nat, pow10(excess)) > COEFFECIENT_MAX {
        excess + 1
    } else {
        excess
    }
}

/// The seven digits that `num` is rounded to.
pub open spec fn rounded_coeffecient(num: u32) -> nat {
    let nearest = round_half_even(num as nat, pow10(excess_digits(num)));
    if nearest > COEFFECIENT_MAX {
        1_000_000
    } else {
        nearest
    }
}

/// Rounding keeps a number of up to seven digits as it is. A longer one
/// keeps seven significant digits, and what is stored differs from it by at
/// most half a unit of the last digit kept.
pub proof fn lemma_rounded(num: u32)
    ensures
        rounded_coeffecient(num) <= COEFFECIENT_MAX,
        rounded_shift(num) <= 3,
        num <= COEFFECIENT_MAX ==> rounded_coeffecient(num) == num && rounded_shift(num) == 0,
        num > COEFFECIENT_MAX ==> rounded_coeffecient(num) >= 1_000_000 && rounded_shift(num)
            >= 1,
        2 * (rounded_coeffecient(num) * pow10(rounded_shift(num)) - num) <= pow10(
            rounded_shift(num),
        ),
        2 * (num - rounded_coeffecient(num) * pow10(rounded_shift(num))) <= pow10(
            rounded_shift(num),
        ),
{
    let excess = excess_digits(num);
    let shift = rounded_shift(num);
    let coeff = rounded_coeffecient(num);
    if excess == 0 {
        assert(coeff * pow10(shift) == num);
    } else if excess == 1 {
        if shift == 1 {
            assert(coeff * pow10(shift) == coeff * 10);
        } else {
            assert(coeff * pow10(shift) == 100_000_000);
        }
    } else if excess == 2 {
        if shift == 2 {
            assert(coeff * pow10(shift) == coeff * 100);
        } else {
            assert(coeff * pow10(shift) == 1_000_000_000);
        }
    } else {
        assert(coeff * pow10(shift) == coeff * 1000);
    }
}

/// Rounds `num` to seven digits: gives the digits kept and the number of
/// low digits dropped.
pub fn round_to_precision(num: u32) -> (r: (u32, u8))
    ensures
        r.0 == rounded_coeffecient(num),
        r.1 == rounded_shift(num),
        r.0 <= COEFFECIENT_MAX,
        r.1 <= 3,
        num <= COEFFECIENT_MAX ==> r.0 == num && r.1 == 0,
{
    proof {
        lemma_rounded(num);
    }
    if num <= COEFFECIENT_MAX {
        return (num, 0);
    }
    let mut unit: u32 = 10;
    let mut shift: u8 = 1;
    while num / unit > COEFFECIENT_MAX
        invariant
            1 <= shift <= 3,
            unit == pow10(shift as nat),
            num > COEFFECIENT_MAX,
            shift <= excess_digits(num),
        decreases 3 - shift,
    {
        unit = unit * 10;
        shift = shift + 1;
    }
    let quotient: u32 = num / unit;
    let rest: u32 = num % unit;
    let half: u32 = unit / 2;
    let nearest: u32 = if rest > half || (rest == half && quotient % 2 == 1) {
        quotient + 1
    } else {
        quotient
    };
    if nearest > COEFFECIENT_MAX {
        (1_000_000, shift + 1)
    } else {
        (nearest, shift)
    }
}

} // verus!
