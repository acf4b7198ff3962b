//! Greatest common divisor and least common multiple over the mathematical
//! integers, with the laws that the `Integer` contract promises of them.
//!
//! The divisor is defined by the Euclidean recurrence on natural numbers and
//! extended to all integers through the absolute value, so it is non-negative
//! by convention. For the edge case left open by the mathematics, the
//! contract fixes a documented choice: `gcd_int(0, 0) == 0`, and
//! `lcm_int(a, b) == 0` whenever either argument is zero.

use vstd::prelude::*;
use vstd::math::abs;
use vstd::arithmetic::div_mod::{
    lemma_fundamental_div_mod,
    lemma_mod_division_less_than_divisor,
    lemma_div_multiples_vanish,
    lemma_small_mod,
    lemma_div_of0,
};
use crate::division::{t_div_int, t_mod_int};

verus! {

/// `d` divides `n`: some integer multiplies `d` into `n`.
pub open spec fn divides(d: int, n: int) -> bool {
    exists|k: int| n == #[trigger] (d * k)
}

/// Greatest common divisor of two natural numbers, by the Euclidean
/// recurrence.
pub open spec fn gcd_nat(a: nat, b: nat) -> nat
    decreases b,
{
    if b == 0 {
        a
    } else {
        gcd_nat(b, a % b)
    }
}

/// Greatest common divisor of two integers: the divisor of their absolute
/// values, non-negative by convention. `gcd_int(0, 0)` is fixed to zero.
pub open spec fn gcd_int(a: int, b: int) -> int {
    gcd_nat(abs(a), abs(b)) as int
}

/// Least common multiple of two integers, non-negative by convention and
/// fixed to zero when either argument is zero.
pub open spec fn lcm_int(a: int, b: int) -> int {
    if a == 0 || b == 0 {
        0
    } else {
        abs(a * b) as int / gcd_int(a, b)
    }
}

/// The Euclidean divisor divides both of its arguments.
proof fn lemma_gcd_nat_divides(a: nat, b: nat)
    ensures
        divides(gcd_nat(a, b) as int, a as int),
        divides(gcd_nat(a, b) as int, b as int),
    decreases b,
{
    let g = gcd_nat(a, b) as int;
    if b == 0 {
        assert(a as int == g * 1);
        assert(b as int == g * 0);
    } else {
        lemma_mod_division_less_than_divisor(a as int, b as int);
        lemma_gcd_nat_divides(b, a % b);
        lemma_fundamental_div_mod(a as int, b as int);
        let q = a as int / b as int;
        let k1 = choose|k: int| b as int == #[trigger] (g * k);
        let k2 = choose|k: int| (a % b) as int == #[trigger] (g * k);
        assert(a as int == g * (k1 * q + k2)) by (nonlinear_arith)
            requires
                a as int == (b as int) * q + (a % b) as int,
                b as int == g * k1,
                (a % b) as int == g * k2,
        ;
    }
}

/// Any common divisor of the two arguments divides their Euclidean divisor:
/// the recurrence really computes the greatest common divisor.
proof fn lemma_gcd_nat_greatest(a: nat, b: nat, d: int)
    requires
        divides(d, a as int),
        divides(d, b as int),
    ensures
        divides(d, gcd_nat(a, b) as int),
    decreases b,
{
    if b != 0 {
        lemma_mod_division_less_than_divisor(a as int, b as int);
        lemma_fundamental_div_mod(a as int, b as int);
        let q = a as int / b as int;
        let k1 = choose|k: int| a as int == #[trigger] (d * k);
        let k2 = choose|k: int| b as int == #[trigger] (d * k);
        assert((a % b) as int == d * (k1 - k2 * q)) by (nonlinear_arith)
            requires
                a as int == (b as int) * q + (a % b) as int,
                a as int == d * k1,
                b as int == d * k2,
        ;
        lemma_gcd_nat_greatest(b, a % b, d);
    }
}

/// The Euclidean divisor does not depend on the order of its arguments.
proof fn lemma_gcd_nat_comm(a: nat, b: nat)
    ensures
        gcd_nat(a, b) == gcd_nat(b, a),
{
    if a == b {
    } else if a < b {
        lemma_small_mod(a, b);
        assert(gcd_nat(a, b) == gcd_nat(b, a % b));
    } else {
        lemma_small_mod(b, a);
        assert(gcd_nat(b, a) == gcd_nat(a, b % a));
    }
}

/// Dividing an exact multiple leaves no truncated remainder.
pub proof fn lemma_divides_t_mod(d: int, n: int)
    requires
        d != 0,
        divides(d, n),
    ensures
        t_mod_int(n, d) == 0,
{
    let k = choose|k: int| n == #[trigger] (d * k);
    let p = abs(d) as int;
    let m = abs(k) as int;
    if n == 0 {
        lemma_div_of0(p);
        assert(abs(n) as int / p == 0);
        assert(t_div_int(n, d) == 0);
        assert(t_mod_int(n, d) == n - d * 0);
        assert(d * 0 == 0) by (nonlinear_arith);
    } else {
        assert(abs(n) as int == p * m) by (nonlinear_arith)
            requires
                n == d * k,
                p == abs(d),
                m == abs(k),
                abs(n) == if n < 0 { -n } else { n },
                abs(d) == if d < 0 { -d } else { d },
                abs(k) == if k < 0 { -k } else { k },
        ;
        lemma_div_multiples_vanish(m, p);
        assert(abs(n) as int / p == m);
        assert(d * t_div_int(n, d) == n) by (nonlinear_arith)
            requires
                n == d * k,
                n != 0,
                m == abs(k),
                abs(k) == if k < 0 { -k } else { k },
                t_div_int(n, d) == if (n >= 0) == (d >= 0) {
                    m
                } else {
                    -m
                },
        ;
    }
}

/// The greatest-common-divisor laws: symmetry; `gcd(a, 0)` is the absolute
/// value of `a`; the divisor is non-negative, vanishing only on `(0, 0)`;
/// and it divides both arguments, with zero remainder under truncated
/// division.
pub proof fn lemma_gcd_laws(a: int, b: int)
    ensures
        gcd_int(a, b) == gcd_int(b, a),
        gcd_int(a, 0) == abs(a),
        gcd_int(a, b) >= 0,
        gcd_int(a, b) == 0 <==> a == 0 && b == 0,
        divides(gcd_int(a, b), a),
        divides(gcd_int(a, b), b),
        gcd_int(a, b) != 0 ==> t_mod_int(a, gcd_int(a, b)) == 0 && t_mod_int(
            b,
            gcd_int(a, b),
        ) == 0,
{
    let g = gcd_int(a, b);
    lemma_gcd_nat_comm(abs(a), abs(b));
    lemma_gcd_nat_divides(abs(a), abs(b));
    let k1 = choose|k: int| abs(a) as int == #[trigger] (g * k);
    let k2 = choose|k: int| abs(b) as int == #[trigger] (g * k);
    assert(a == g * (if a >= 0 { k1 } else { -k1 })) by (nonlinear_arith)
        requires
            abs(a) as int == g * k1,
            abs(a) == if a < 0 { -a } else { a },
    ;
    assert(b == g * (if b >= 0 { k2 } else { -k2 })) by (nonlinear_arith)
        requires
            abs(b) as int == g * k2,
            abs(b) == if b < 0 { -b } else { b },
    ;
    if g == 0 {
        assert(a == 0 * (if a >= 0 { k1 } else { -k1 }));
        assert(a == 0) by (nonlinear_arith)
            requires
                a == 0 * (if a >= 0 { k1 } else { -k1 }),
        ;
        assert(b == 0) by (nonlinear_arith)
            requires
                b == 0 * (if b >= 0 { k2 } else { -k2 }),
        ;
    }
    if g != 0 {
        lemma_divides_t_mod(g, a);
        lemma_divides_t_mod(g, b);
    }
}

/// Any common divisor of `a` and `b` divides `gcd_int(a, b)`.
pub proof fn lemma_gcd_greatest(a: int, b: int, d: int)
    requires
        divides(d, a),
        divides(d, b),
    ensures
        divides(d, gcd_int(a, b)),
{
    let k1 = choose|k: int| a == #[trigger] (d * k);
    let k2 = choose|k: int| b == #[trigger] (d * k);
    assert(abs(a) as int == d * (if a >= 0 { k1 } else { -k1 })) by (nonlinear_arith)
        requires
            a == d * k1,
            abs(a) == if a < 0 { -a } else { a },
    ;
    assert(abs(b) as int == d * (if b >= 0 { k2 } else { -k2 })) by (nonlinear_arith)
        requires
            b == d * k2,
            abs(b) == if b < 0 { -b } else { b },
    ;
    lemma_gcd_nat_greatest(abs(a), abs(b), d);
}

/// The least-common-multiple laws for non-zero arguments: the product of
/// least common multiple and greatest common divisor is the absolute value
/// of the product; the multiple is positive, a common multiple of both
/// arguments, and at least as large as either of them and as their divisor.
pub proof fn lemma_lcm_gcd(a: int, b: int)
    requires
        a != 0,
        b != 0,
    ensures
        lcm_int(a, b) * gcd_int(a, b) == abs(a * b),
        lcm_int(a, b) > 0,
        divides(a, lcm_int(a, b)),
        divides(b, lcm_int(a, b)),
        lcm_int(a, b) >= abs(a),
        lcm_int(a, b) >= abs(b),
        lcm_int(a, b) >= gcd_int(a, b),
{
    let g = gcd_int(a, b);
    lemma_gcd_laws(a, b);
    assert(a * b != 0) by (nonlinear_arith)
        requires
            a != 0,
            b != 0,
    ;
    let k = choose|k: int| a == #[trigger] (g * k);
    let m = abs(k) as int * abs(b) as int;
    assert(abs(a * b) as int == g * m) by (nonlinear_arith)
        requires
            a == g * k,
            g > 0,
            m == abs(k) as int * abs(b) as int,
            abs(k) == if k < 0 { -k } else { k },
            abs(b) == if b < 0 { -b } else { b },
            abs(a * b) == if a * b < 0 { -(a * b) } else { a * b },
    ;
    lemma_div_multiples_vanish(m, g);
    assert(lcm_int(a, b) == m);
    assert(m * g == g * m) by (nonlinear_arith);
    assert(m > 0) by (nonlinear_arith)
        requires
            g * m == abs(a * b) as int,
            g > 0,
            a != 0,
            b != 0,
            abs(a * b) == if a * b < 0 { -(a * b) } else { a * b },
            a * b != 0,
    ;
    let j = choose|j: int| b == #[trigger] (g * j);
    assert(m >= abs(a) as int && m >= abs(b) as int && g <= abs(b) as int) by (nonlinear_arith)
        requires
            a == g * k,
            b == g * j,
            g > 0,
            a != 0,
            b != 0,
            m == abs(k) as int * abs(b) as int,
            abs(a) == if a < 0 { -a } else { a },
            abs(b) == if b < 0 { -b } else { b },
            abs(k) == if k < 0 { -k } else { k },
            abs(j) == if j < 0 { -j } else { j },
    ;
    assert(m == b * (if b >= 0 { abs(k) as int } else { -(abs(k) as int) })) by (nonlinear_arith)
        requires
            m == abs(k) as int * abs(b) as int,
            abs(b) == if b < 0 { -b } else { b },
    ;
    assert(m == a * (if a >= 0 { abs(j) as int } else { -(abs(j) as int) })) by (nonlinear_arith)
        requires
            a == g * k,
            b == g * j,
            g > 0,
            m == abs(k) as int * abs(b) as int,
            abs(a) == if a < 0 { -a } else { a },
            abs(b) == if b < 0 { -b } else { b },
            abs(k) == if k < 0 { -k } else { k },
            abs(j) == if j < 0 { -j } else { j },
    ;
}

} // verus!
