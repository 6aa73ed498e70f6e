//! Fixed-point ratio arithmetic in basis points.
use vstd::prelude::*;

verus! {

/// One whole, in basis points.
pub const BPS: i128 = 10000;

/// Seconds in a (Julian) year, the unit of annual interest rates.
pub const SECONDS_PER_YEAR: u64 = 31_557_600;

/// `floor(a * b / c)` computed by widening to `u128` and narrowing back to
/// `i128`; `None` where an operand cannot be widened (it is negative), the
/// denominator is zero, the product does not fit in `u128`, or the quotient
/// does not fit in `i128`.
pub open spec fn mul_div_spec(a: i128, b: i128, c: i128) -> Option<i128> {
    if a < 0 || b < 0 || c <= 0 {
        None
    } else if a * b > u128::MAX {
        None
    } else if (a * b) / (c as int) > i128::MAX {
        None
    } else {
        Some(((a * b) / (c as int)) as i128)
    }
}

/// The shared multiply-then-divide helper behind every ratio.
pub fn checked_mul_div(a: i128, b: i128, c: i128) -> (r: Option<i128>)
    ensures
        r == mul_div_spec(a, b, c),
        c == 0 ==> r is None,
{
    if a < 0 || b < 0 || c <= 0 {
        return None;
    }
    let au = a as u128;
    let bu = b as u128;
    let cu = c as u128;
    match au.checked_mul(bu) {
        None => None,
        Some(p) => {
            let q = p / cu;
            if q > i128::MAX as u128 {
                None
            } else {
                Some(q as i128)
            }
        },
    }
}

/// `a - b`, clamped to the range of `i128`.
pub open spec fn sat_sub_spec(a: i128, b: i128) -> i128 {
    if a - b > i128::MAX {
        i128::MAX
    } else if a - b < i128::MIN {
        i128::MIN
    } else {
        (a - b) as i128
    }
}

/// `a + b`, clamped to the range of `i128`.
pub open spec fn sat_add_spec(a: i128, b: i128) -> i128 {
    if a + b > i128::MAX {
        i128::MAX
    } else if a + b < i128::MIN {
        i128::MIN
    } else {
        (a + b) as i128
    }
}

pub fn sat_sub(a: i128, b: i128) -> (r: i128)
    ensures
        r == sat_sub_spec(a, b),
{
    if b >= 0 {
        if a >= i128::MIN + b { a - b } else { i128::MIN }
    } else {
        if a <= i128::MAX + b { a - b } else { i128::MAX }
    }
}

pub fn sat_add(a: i128, b: i128) -> (r: i128)
    ensures
        r == sat_add_spec(a, b),
{
    if b >= 0 {
        if a <= i128::MAX - b { a + b } else { i128::MAX }
    } else {
        if a >= i128::MIN - b { a + b } else { i128::MIN }
    }
}

} // verus!
