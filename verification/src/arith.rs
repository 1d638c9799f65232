//! Integer arithmetic shared by the contracts.

use vstd::prelude::*;

verus! {

/// Division rounding toward zero, for a positive divisor.
pub open spec fn trunc_div(x: int, d: int) -> int {
    if x >= 0 {
        x / d
    } else {
        -((-x) / d)
    }
}

/// `x` forced into the range of `i128`.
pub open spec fn clamp_i128(x: int) -> int {
    if x > i128::MAX {
        i128::MAX as int
    } else if x < i128::MIN {
        i128::MIN as int
    } else {
        x
    }
}

/// Whether `x` is an `i128`.
pub open spec fn fits_i128(x: int) -> bool {
    i128::MIN <= x <= i128::MAX
}

/// The smaller of two numbers.
pub open spec fn least(a: int, b: int) -> int {
    if a <= b {
        a
    } else {
        b
    }
}

/// The larger of two numbers.
pub open spec fn greatest(a: int, b: int) -> int {
    if a >= b {
        a
    } else {
        b
    }
}

/// Rounding toward zero keeps the quotient between zero and the dividend.
pub proof fn lemma_trunc_div_bounds(x: int, d: int)
    requires
        d > 0,
    ensures
        x >= 0 ==> 0 <= trunc_div(x, d) <= x,
        x <= 0 ==> x <= trunc_div(x, d) <= 0,
{
    if x >= 0 {
        assert(0 <= x / d <= x) by (nonlinear_arith)
            requires
                x >= 0,
                d > 0,
        ;
    } else {
        let y = -x;
        assert(0 <= y / d <= y) by (nonlinear_arith)
            requires
                y >= 0,
                d > 0,
        ;
    }
}

/// `x / d`, rounding toward zero.
pub fn quotient(x: i128, d: i128) -> (r: i128)
    requires
        d > 0,
    ensures
        r == trunc_div(x as int, d as int),
{
    proof {
        lemma_trunc_div_bounds(x as int, d as int);
    }
    match x.checked_div(d) {
        Some(q) => q,
        None => 0,
    }
}

/// `x + y`, held at the ends of the range.
pub fn saturating_add(x: i128, y: i128) -> (r: i128)
    ensures
        r == clamp_i128(x + y),
{
    match x.checked_add(y) {
        Some(s) => s,
        None => if y > 0 {
            i128::MAX
        } else {
            i128::MIN
        },
    }
}

/// `x - y`, held at the ends of the range.
pub fn saturating_sub(x: i128, y: i128) -> (r: i128)
    ensures
        r == clamp_i128(x - y),
{
    match x.checked_sub(y) {
        Some(s) => s,
        None => if y < 0 {
            i128::MAX
        } else {
            i128::MIN
        },
    }
}

/// `x * y`, held at the ends of the range.
pub fn saturating_mul(x: i128, y: i128) -> (r: i128)
    ensures
        r == clamp_i128(x * y),
{
    match x.checked_mul(y) {
        Some(p) => p,
        None => {
            proof {
                let a = x as int;
                let b = y as int;
                assert(a * b > 0 <==> (a > 0 && b > 0) || (a < 0 && b < 0)) by (nonlinear_arith);
            }
            if (x > 0 && y > 0) || (x < 0 && y < 0) {
                i128::MAX
            } else {
                i128::MIN
            }
        },
    }
}

} // verus!
