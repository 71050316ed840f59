//! Rounding of a quotient to the nearest integer, ties away from zero.
use vstd::prelude::*;

verus! {

/// Absolute value of an integer.
pub open spec fn abs(x: int) -> int {
    if x < 0 {
        -x
    } else {
        x
    }
}

/// `n / d` rounded to the nearest integer, ties away from zero.
pub open spec fn round_div(n: int, d: int) -> int
    recommends
        d != 0,
{
    let a = abs(n);
    let b = abs(d);
    let m = if 2 * (a % b) >= b {
        a / b + 1
    } else {
        a / b
    };
    if (n < 0) != (d < 0) {
        -m
    } else {
        m
    }
}

/// Computes `round_div(n, d)`.
pub fn divide_rounded(n: i128, d: i128) -> (r: i128)
    requires
        d != 0,
        n != i128::MIN,
        d != i128::MIN,
    ensures
        r == round_div(n as int, d as int),
{
    let a: u128 = if n < 0 { (-n) as u128 } else { n as u128 };
    let b: u128 = if d < 0 { (-d) as u128 } else { d as u128 };
    let q: u128 = a / b;
    let rem: u128 = a % b;
    assert(a == q * b + rem && rem < b) by (nonlinear_arith)
        requires
            q == a / b,
            rem == a % b,
            b > 0,
    ;
    assert(rem >= b - rem ==> q < a) by (nonlinear_arith)
        requires
            a == q * b + rem,
            rem < b,
            b > 0,
            q >= 0,
    ;
    let m: u128 = if rem >= b - rem { q + 1 } else { q };
    if (n < 0) != (d < 0) {
        -(m as i128)
    } else {
        m as i128
    }
}

} // verus!
