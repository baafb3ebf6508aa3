//! Integer facts shared by the time arithmetic: truncating division, as Rust performs it on
//! signed integers, written over mathematical integers.

use vstd::prelude::*;

verus! {

/// Division rounding toward zero, as `i64::checked_div` and the `/` operator compute it on
/// signed integers. Division by zero is given the value zero; no caller relies on it.
pub open spec fn tdiv(a: int, b: int) -> int {
    if b == 0 {
        0
    } else if a >= 0 && b > 0 {
        a / b
    } else if a < 0 && b < 0 {
        (-a) / (-b)
    } else if a < 0 {
        -((-a) / b)
    } else {
        -(a / (-b))
    }
}

/// The remainder that goes with [`tdiv`]: it has the sign of `a`.
pub open spec fn trem(a: int, b: int) -> int {
    a - b * tdiv(a, b)
}

/// The absolute value of an integer.
pub open spec fn abs(a: int) -> int {
    if a < 0 {
        -a
    } else {
        a
    }
}

/// Truncating division by a positive divisor, through the Euclidean division of the magnitude.
pub proof fn lemma_tdiv_pos(a: int, b: int)
    requires
        b > 0,
    ensures
        a >= 0 ==> tdiv(a, b) == a / b,
        a < 0 ==> tdiv(a, b) == -((-a) / b),
        abs(trem(a, b)) < b,
        a >= 0 ==> 0 <= trem(a, b),
        a <= 0 ==> trem(a, b) <= 0,
        a >= 0 ==> trem(a, b) == a % b,
        a < 0 ==> trem(a, b) == -((-a) % b),
        a == b * tdiv(a, b) + trem(a, b),
        abs(tdiv(a, b)) <= abs(a),
{
    if a >= 0 {
        vstd::arithmetic::div_mod::lemma_fundamental_div_mod(a, b);
        vstd::arithmetic::div_mod::lemma_div_pos_is_pos(a, b);
        vstd::arithmetic::div_mod::lemma_div_is_ordered_by_denominator(a, 1, b);
        vstd::arithmetic::div_mod::lemma_mod_bound(a, b);
    } else {
        vstd::arithmetic::div_mod::lemma_fundamental_div_mod(-a, b);
        vstd::arithmetic::div_mod::lemma_div_pos_is_pos(-a, b);
        vstd::arithmetic::div_mod::lemma_div_is_ordered_by_denominator(-a, 1, b);
        vstd::arithmetic::div_mod::lemma_mod_bound(-a, b);
        let q = (-a) / b;
        assert(b * (-q) == -(b * q)) by (nonlinear_arith);
    }
}

/// Truncating division by a positive divisor is determined by the usual bounds on the remainder.
pub proof fn lemma_tdiv_unique(a: int, b: int, q: int, r: int)
    requires
        b > 0,
        a == b * q + r,
        abs(r) < b,
        a >= 0 ==> r >= 0,
        a <= 0 ==> r <= 0,
    ensures
        tdiv(a, b) == q,
        trem(a, b) == r,
{
    assert(b * q == q * b) by (nonlinear_arith);
    assert(b * (-q) == -(b * q)) by (nonlinear_arith);
    if a >= 0 {
        vstd::arithmetic::div_mod::lemma_fundamental_div_mod_converse(a, b, q, r);
    } else {
        assert(-a == (-q) * b + (-r)) by (nonlinear_arith)
            requires
                a == b * q + r,
        ;
        vstd::arithmetic::div_mod::lemma_fundamental_div_mod_converse(-a, b, -q, -r);
    }
}

/// Truncating division by `b` and then by `c` is truncating division by `b * c`.
pub proof fn lemma_tdiv_nested(a: int, b: int, c: int)
    requires
        b > 0,
        c > 0,
    ensures
        tdiv(tdiv(a, b), c) == tdiv(a, b * c),
        b * c > 0,
{
    vstd::arithmetic::mul::lemma_mul_strictly_positive(b, c);
    lemma_tdiv_pos(a, b);
    if a >= 0 {
        vstd::arithmetic::div_mod::lemma_div_pos_is_pos(a, b);
        vstd::arithmetic::div_mod::lemma_div_denominator(a, b, c);
    } else {
        vstd::arithmetic::div_mod::lemma_div_pos_is_pos(-a, b);
        vstd::arithmetic::div_mod::lemma_div_denominator(-a, b, c);
        let q = (-a) / b;
        if q > 0 {
            lemma_tdiv_pos(-q, c);
        }
    }
}

/// Truncating division by a divisor of either sign: the quotient is the quotient of the
/// magnitudes with the sign of the product, and the remainder is smaller than the divisor and
/// has the sign of the dividend.
pub proof fn lemma_tdiv_general(a: int, b: int)
    requires
        b != 0,
    ensures
        abs(tdiv(a, b)) == abs(a) / abs(b),
        abs(tdiv(a, b)) * abs(b) <= abs(a),
        (a >= 0 && b > 0 || a <= 0 && b < 0) ==> tdiv(a, b) >= 0,
        (a >= 0 && b < 0 || a <= 0 && b > 0) ==> tdiv(a, b) <= 0,
        a == b * tdiv(a, b) + trem(a, b),
        abs(trem(a, b)) < abs(b),
        a >= 0 ==> trem(a, b) >= 0,
        a <= 0 ==> trem(a, b) <= 0,
        abs(tdiv(a, b)) <= abs(a),
{
    let aa = abs(a);
    let bb = abs(b);
    let q = aa / bb;
    let r = aa % bb;
    vstd::arithmetic::div_mod::lemma_fundamental_div_mod(aa, bb);
    vstd::arithmetic::div_mod::lemma_mod_bound(aa, bb);
    vstd::arithmetic::div_mod::lemma_div_pos_is_pos(aa, bb);
    vstd::arithmetic::div_mod::lemma_div_is_ordered_by_denominator(aa, 1, bb);
    assert(aa == bb * q + r);
    assert(q * bb == bb * q) by (nonlinear_arith);
    if a >= 0 && b > 0 {
        assert(tdiv(a, b) == q);
    } else if a < 0 && b < 0 {
        assert(tdiv(a, b) == q);
        assert(b * q == -(bb * q)) by (nonlinear_arith)
            requires
                b == -bb,
        ;
    } else if a < 0 {
        assert(tdiv(a, b) == -q);
        assert(b * (-q) == -(bb * q)) by (nonlinear_arith)
            requires
                b == bb,
        ;
    } else {
        assert(tdiv(a, b) == -q);
        assert(b * (-q) == bb * q) by (nonlinear_arith)
            requires
                b == -bb,
        ;
    }
}

} // verus!
