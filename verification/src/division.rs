//! The two classical conventions for integer division and remainder,
//! defined over the mathematical integers.
//!
//! `t_div_int` / `t_mod_int` give truncated division (the quotient is rounded
//! toward zero, the remainder takes the sign of the dividend: the ISO C
//! convention for `/` and `%`). `f_div_int` / `f_mod_int` give floored
//! division (the quotient is rounded toward negative infinity, the remainder
//! takes the sign of the divisor).

use vstd::prelude::*;
use vstd::math::abs;
use vstd::arithmetic::div_mod::{lemma_fundamental_div_mod, lemma_mod_division_less_than_divisor};

verus! {

/// Truncated division: the quotient of `a / b` rounded toward zero.
pub open spec fn t_div_int(a: int, b: int) -> int
    recommends
        b != 0,
{
    if (a >= 0) == (b >= 0) {
        (abs(a) / abs(b)) as int
    } else {
        -((abs(a) / abs(b)) as int)
    }
}

/// The remainder left by truncated division.
pub open spec fn t_mod_int(a: int, b: int) -> int
    recommends
        b != 0,
{
    a - b * t_div_int(a, b)
}

/// Floored division: the quotient of `a / b` rounded toward negative
/// infinity. Stated through Euclidean division by a positive divisor,
/// which already rounds downward.
pub open spec fn f_div_int(a: int, b: int) -> int
    recommends
        b != 0,
{
    if b >= 0 {
        a / b
    } else {
        (-a) / (-b)
    }
}

/// The remainder left by floored division.
pub open spec fn f_mod_int(a: int, b: int) -> int
    recommends
        b != 0,
{
    a - b * f_div_int(a, b)
}

/// Round-trip identity: each convention reassembles the dividend from its
/// quotient and remainder.
pub proof fn lemma_div_mod_round_trip(a: int, b: int)
    requires
        b != 0,
    ensures
        a == b * t_div_int(a, b) + t_mod_int(a, b),
        a == b * f_div_int(a, b) + f_mod_int(a, b),
{
}

/// Sign law for the truncated remainder: it is zero or carries the sign of
/// the dividend, and it is smaller than the divisor in magnitude.
pub proof fn lemma_t_mod_sign(a: int, b: int)
    requires
        b != 0,
    ensures
        t_mod_int(a, b) == 0 || ((t_mod_int(a, b) > 0) <==> (a > 0)),
        abs(t_mod_int(a, b)) < abs(b),
{
    if a >= 0 && b > 0 {
        lemma_fundamental_div_mod(a, b);
        lemma_mod_division_less_than_divisor(a, b);
        assert(t_mod_int(a, b) == a % b);
    } else if a >= 0 && b < 0 {
        let p = -b;
        lemma_fundamental_div_mod(a, p);
        lemma_mod_division_less_than_divisor(a, p);
        let q = a / p;
        assert(t_div_int(a, b) == -q);
        assert(b * -q == p * q) by (nonlinear_arith)
            requires
                b == -p,
        ;
        assert(t_mod_int(a, b) == a - p * q);
        assert(t_mod_int(a, b) == a % p);
    } else if a < 0 && b > 0 {
        let n = -a;
        lemma_fundamental_div_mod(n, b);
        lemma_mod_division_less_than_divisor(n, b);
        let q = n / b;
        assert(t_div_int(a, b) == -q);
        assert(b * -q == -(b * q)) by (nonlinear_arith);
        assert(t_mod_int(a, b) == a + b * q);
        assert(t_mod_int(a, b) == -(n % b));
    } else {
        let n = -a;
        let p = -b;
        lemma_fundamental_div_mod(n, p);
        lemma_mod_division_less_than_divisor(n, p);
        let q = n / p;
        assert(t_div_int(a, b) == q);
        assert(b * q == -(p * q)) by (nonlinear_arith)
            requires
                b == -p,
        ;
        assert(t_mod_int(a, b) == a + p * q);
        assert(t_mod_int(a, b) == -(n % p));
    }
}

/// Sign law for the floored remainder: it is zero or carries the sign of
/// the divisor, and it is smaller than the divisor in magnitude.
pub proof fn lemma_f_mod_sign(a: int, b: int)
    requires
        b != 0,
    ensures
        f_mod_int(a, b) == 0 || ((f_mod_int(a, b) > 0) <==> (b > 0)),
        abs(f_mod_int(a, b)) < abs(b),
{
    if b > 0 {
        lemma_fundamental_div_mod(a, b);
        lemma_mod_division_less_than_divisor(a, b);
        assert(f_mod_int(a, b) == a % b);
    } else {
        let n = -a;
        let p = -b;
        lemma_fundamental_div_mod(n, p);
        lemma_mod_division_less_than_divisor(n, p);
        let q = n / p;
        assert(f_div_int(a, b) == q);
        assert(b * q == -(p * q)) by (nonlinear_arith)
            requires
                b == -p,
        ;
        assert(f_mod_int(a, b) == a + p * q);
        assert(f_mod_int(a, b) == -(n % p));
    }
}

/// A division by a positive divisor has only one quotient whose remainder
/// lies within one divisor's width of another admissible remainder.
proof fn lemma_quotient_unique_pos(p: int, q1: int, r1: int, q2: int, r2: int)
    requires
        p > 0,
        p * q1 + r1 == p * q2 + r2,
        -p < r1 - r2 < p,
    ensures
        q1 == q2,
        r1 == r2,
{
    assert(q1 == q2) by (nonlinear_arith)
        requires
            p > 0,
            p * q1 + r1 == p * q2 + r2,
            -p < r1 - r2 < p,
    ;
}

/// Floored division expressed through truncated division: the two agree
/// whenever the division is exact or dividend and divisor share a sign;
/// otherwise the floored quotient is one less and the floored remainder is
/// shifted by the divisor.
pub proof fn lemma_floored_from_truncated(a: int, b: int)
    requires
        b != 0,
    ensures
        ({
            let r = t_mod_int(a, b);
            if r != 0 && ((r < 0) != (b < 0)) {
                f_div_int(a, b) == t_div_int(a, b) - 1 && f_mod_int(a, b) == r + b
            } else {
                f_div_int(a, b) == t_div_int(a, b) && f_mod_int(a, b) == r
            }
        }),
{
    let q = t_div_int(a, b);
    let r = t_mod_int(a, b);
    lemma_t_mod_sign(a, b);
    lemma_f_mod_sign(a, b);
    let adjust = r != 0 && ((r < 0) != (b < 0));
    let q2 = if adjust { q - 1 } else { q };
    let r2 = if adjust { r + b } else { r };
    assert(b * q2 == b * q - if adjust { b } else { 0 }) by (nonlinear_arith)
        requires
            q2 == if adjust { q - 1 } else { q },
    ;
    assert(a == b * q2 + r2);
    if b > 0 {
        assert(0 <= r2 < b);
        assert(0 <= f_mod_int(a, b) < b);
        lemma_quotient_unique_pos(b, q2, r2, f_div_int(a, b), f_mod_int(a, b));
    } else {
        let p = -b;
        assert(-p < r2 <= 0);
        assert(-p < f_mod_int(a, b) <= 0);
        assert(p * -q2 == b * q2) by (nonlinear_arith)
            requires
                p == -b,
        ;
        assert(p * -f_div_int(a, b) == b * f_div_int(a, b)) by (nonlinear_arith)
            requires
                p == -b,
        ;
        lemma_quotient_unique_pos(p, -q2, r2, -f_div_int(a, b), f_mod_int(a, b));
    }
}

} // verus!
