//! The machine-width signed integer as a model of the discrete contracts:
//! `i64` denotes itself, represents exactly the integers of its range, and
//! carries out every operation of the `Integer` capability.

use vstd::prelude::*;
use vstd::math::abs;
use vstd::arithmetic::div_mod::{
    lemma_fundamental_div_mod,
    lemma_mod_division_less_than_divisor,
    lemma_div_multiples_vanish,
    lemma_div_of0,
};
use crate::division::{
    t_div_int,
    t_mod_int,
    f_div_int,
    f_mod_int,
    lemma_t_mod_sign,
    lemma_f_mod_sign,
    lemma_floored_from_truncated,
};
use crate::gcd::{gcd_nat, gcd_int, lcm_int, lemma_gcd_laws, lemma_lcm_gcd};
use crate::ring::CommutativeRing;
use crate::integer::Integer;

verus! {

/// Truncated division agrees with the sign-case formula that the checked
/// machine division is specified by.
proof fn lemma_t_div_cases(x: int, d: int)
    requires
        d != 0,
    ensures
        t_div_int(x, d) == (if x == 0 {
            0int
        } else if x > 0 && d > 0 {
            x / d
        } else if x < 0 && d < 0 {
            (x * -1) / (d * -1)
        } else if x < 0 {
            ((x * -1) / d) * -1
        } else {
            (x / (d * -1)) * -1
        }),
{
    if x == 0 {
        lemma_div_of0(abs(d) as int);
    }
}

/// The truncated remainder agrees with the sign-case formula that the
/// checked machine remainder is specified by.
proof fn lemma_t_mod_cases(x: int, d: int)
    requires
        d != 0,
    ensures
        t_mod_int(x, d) == (if x == 0 {
            0int
        } else if x > 0 && d > 0 {
            x % d
        } else if x < 0 && d < 0 {
            ((x * -1) % (d * -1)) * -1
        } else if x < 0 {
            ((x * -1) % d) * -1
        } else {
            x % (d * -1)
        }),
{
    lemma_t_div_cases(x, d);
    if x == 0 {
        assert(d * 0 == 0) by (nonlinear_arith);
    } else if x > 0 && d > 0 {
        lemma_fundamental_div_mod(x, d);
    } else if x < 0 && d < 0 {
        let q = (x * -1) / (d * -1);
        lemma_fundamental_div_mod(-x, -d);
        assert(d * q == -(-d * q)) by (nonlinear_arith);
    } else if x < 0 {
        let q = (x * -1) / d;
        lemma_fundamental_div_mod(-x, d);
        assert(d * (q * -1) == -(d * q)) by (nonlinear_arith);
    } else {
        let q = x / (d * -1);
        lemma_fundamental_div_mod(x, -d);
        assert(d * (q * -1) == -d * q) by (nonlinear_arith);
    }
}

/// The remainder left by truncated division never exceeds sixty-three bits,
/// so it is always representable in the machine word.
proof fn lemma_t_mod_rep_i64(x: int, d: int)
    requires
        d != 0,
        i64::MIN <= x <= i64::MAX,
        i64::MIN <= d <= i64::MAX,
    ensures
        i64::MIN <= t_mod_int(x, d) <= i64::MAX,
{
    lemma_t_mod_sign(x, d);
}

/// The absolute value of a machine word, computed into the unsigned word.
fn abs_u64(a: i64) -> (r: u64)
    ensures
        r as int == abs(a as int),
{
    if a >= 0 {
        a as u64
    } else if a == i64::MIN {
        9223372036854775808u64
    } else {
        (-a) as u64
    }
}

impl CommutativeRing for i64 {
    open spec fn v(&self) -> int {
        *self as int
    }

    open spec fn rep(x: int) -> bool {
        i64::MIN <= x <= i64::MAX
    }

    proof fn rep_v(&self) {
    }

    proof fn v_exact(a: &i64, b: &i64) {
    }

    fn zero() -> i64 {
        0
    }

    fn one() -> i64 {
        1
    }

    fn add(a: &i64, b: &i64) -> i64 {
        *a + *b
    }

    fn sub(a: &i64, b: &i64) -> i64 {
        *a - *b
    }

    fn mul(a: &i64, b: &i64) -> i64 {
        *a * *b
    }

    fn le(a: &i64, b: &i64) -> bool {
        *a <= *b
    }
}

impl Integer for i64 {
    fn t_div(a: &i64, b: &i64) -> (r: i64) {
        proof {
            lemma_t_div_cases(*a as int, *b as int);
        }
        a.checked_div(*b).unwrap()
    }

    fn t_mod(a: &i64, b: &i64) -> (r: i64) {
        proof {
            lemma_t_mod_cases(*a as int, *b as int);
            lemma_t_mod_rep_i64(*a as int, *b as int);
        }
        if *b == -1 {
            0
        } else {
            a.checked_rem(*b).unwrap()
        }
    }

    fn f_div(a: &i64, b: &i64) -> (r: i64) {
        proof {
            lemma_floored_from_truncated(*a as int, *b as int);
            lemma_t_mod_sign(*a as int, *b as int);
            lemma_t_mod_rep_i64(*a as int, *b as int);
        }
        let q = <i64 as Integer>::t_div(a, b);
        let r = <i64 as Integer>::t_mod(a, b);
        if r != 0 && ((r < 0) != (*b < 0)) {
            q - 1
        } else {
            q
        }
    }

    fn f_mod(a: &i64, b: &i64) -> (r: i64) {
        proof {
            lemma_floored_from_truncated(*a as int, *b as int);
            lemma_t_mod_sign(*a as int, *b as int);
            lemma_f_mod_sign(*a as int, *b as int);
            lemma_t_mod_rep_i64(*a as int, *b as int);
        }
        let r0 = <i64 as Integer>::t_mod(a, b);
        if r0 != 0 && ((r0 < 0) != (*b < 0)) {
            r0 + *b
        } else {
            r0
        }
    }

    fn gcd(a: &i64, b: &i64) -> (r: i64) {
        let mut x = abs_u64(*a);
        let mut y = abs_u64(*b);
        while y != 0
            invariant
                gcd_nat(x as nat, y as nat) == gcd_int(*a as int, *b as int),
            decreases y,
        {
            proof {
                lemma_mod_division_less_than_divisor(x as int, y as int);
            }
            let t = x % y;
            x = y;
            y = t;
        }
        x as i64
    }

    fn lcm(a: &i64, b: &i64) -> (r: i64) {
        if *a == 0 || *b == 0 {
            0
        } else {
            proof {
                lemma_lcm_gcd(*a as int, *b as int);
                lemma_gcd_laws(*a as int, *b as int);
            }
            let g = <i64 as Integer>::gcd(a, b);
            let ua = abs_u64(*a);
            let ub = abs_u64(*b);
            let ghost av = *a as int;
            let ghost bv = *b as int;
            let ghost gi = gcd_int(av, bv);
            let ghost l = lcm_int(av, bv);
            let ghost k = choose|k: int| av == #[trigger] (gi * k);
            let ghost kp = if av >= 0 { k } else { -k };
            proof {
                assert(abs(av) as int == gi * kp) by (nonlinear_arith)
                    requires
                        av == gi * k,
                        kp == if av >= 0 { k } else { -k },
                        abs(av) == if av < 0 { -av } else { av },
                ;
                lemma_div_multiples_vanish(kp, gi);
                assert(abs(av * bv) as int == abs(av) as int * abs(bv) as int) by (nonlinear_arith)
                    requires
                        abs(av * bv) == if av * bv < 0 { -(av * bv) } else { av * bv },
                        abs(av) == if av < 0 { -av } else { av },
                        abs(bv) == if bv < 0 { -bv } else { bv },
                ;
            }
            let part = ua / (g as u64);
            proof {
                assert(part as int == kp);
                assert(kp * (ub as int) == l) by (nonlinear_arith)
                    requires
                        gi > 0,
                        abs(av) as int == gi * kp,
                        ub as int == abs(bv),
                        l * gi == abs(av * bv) as int,
                        abs(av * bv) as int == abs(av) as int * abs(bv) as int,
                ;
            }
            let res = part * ub;
            res as i64
        }
    }
}

} // verus!
