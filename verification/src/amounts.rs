//! Arithmetic on token amounts. An amount is a signed 128-bit number; a
//! computation that leaves that range, or divides by zero, has no result.

use vstd::prelude::*;

verus! {

/// Whether `v` is a 128-bit signed number.
pub open spec fn fits(v: int) -> bool {
    i128::MIN <= v <= i128::MAX
}

/// The quotient of `x` by `d`, rounded toward zero.
pub open spec fn trunc_div(x: int, d: int) -> int
    recommends
        d != 0,
{
    if x >= 0 && d > 0 {
        x / d
    } else if x < 0 && d < 0 {
        (-x) / (-d)
    } else if x < 0 {
        -((-x) / d)
    } else {
        -(x / (-d))
    }
}

/// `a * b / d`, rounded toward zero, where the product and the quotient are
/// 128-bit signed numbers and `d` is not zero.
pub open spec fn mul_div(a: i128, b: i128, d: i128) -> Option<i128> {
    if d == 0 || !fits(a * b) || !fits(trunc_div(a * b, d as int)) {
        None
    } else {
        Some(trunc_div(a * b, d as int) as i128)
    }
}

/// The sum, where it is a 128-bit signed number.
pub open spec fn sum(a: i128, b: i128) -> Option<i128> {
    if fits(a + b) {
        Some((a + b) as i128)
    } else {
        None
    }
}

/// The difference, where it is a 128-bit signed number.
pub open spec fn difference(a: i128, b: i128) -> Option<i128> {
    if fits(a - b) {
        Some((a - b) as i128)
    } else {
        None
    }
}

/// `a * b / d`, rounded toward zero.
pub fn checked_mul_div(a: i128, b: i128, d: i128) -> (result: Option<i128>)
    ensures
        result == mul_div(a, b, d),
{
    match a.checked_mul(b) {
        None => None,
        Some(product) => product.checked_div(d),
    }
}

/// `a + b`.
pub fn checked_sum(a: i128, b: i128) -> (result: Option<i128>)
    ensures
        result == sum(a, b),
{
    a.checked_add(b)
}

/// `a - b`.
pub fn checked_difference(a: i128, b: i128) -> (result: Option<i128>)
    ensures
        result == difference(a, b),
{
    a.checked_sub(b)
}

/// A part of an amount is no more than the amount: where nothing is
/// negative and `a` is at most `d`, `a * b / d` lies between zero and `b`.
pub proof fn lemma_part_is_bounded(a: i128, b: i128, d: i128)
    requires
        0 <= a <= d,
        0 <= b,
        0 < d,
    ensures
        mul_div(a, b, d) matches Some(part) ==> 0 <= part <= b,
{
    vstd::arithmetic::mul::lemma_mul_nonnegative(a as int, b as int);
    vstd::arithmetic::mul::lemma_mul_inequality(a as int, d as int, b as int);
    vstd::arithmetic::div_mod::lemma_div_is_ordered(a * b, d * b, d as int);
    vstd::arithmetic::div_mod::lemma_div_multiples_vanish(b as int, d as int);
    vstd::arithmetic::div_mod::lemma_div_pos_is_pos(a * b, d as int);
}

/// A part of an amount that is not negative, by parts that are not negative,
/// is not negative.
pub proof fn lemma_part_is_not_negative(a: i128, b: i128, d: i128)
    requires
        0 <= a,
        0 <= b,
        0 < d,
    ensures
        mul_div(a, b, d) matches Some(part) ==> 0 <= part,
{
    vstd::arithmetic::mul::lemma_mul_nonnegative(a as int, b as int);
    vstd::arithmetic::div_mod::lemma_div_pos_is_pos(a * b, d as int);
}

} // verus!
