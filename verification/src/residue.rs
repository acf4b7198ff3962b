//! A small model of the `ModularInteger` contract: machine words grouped
//! into residue classes modulo five.
//!
//! A value carries a raw machine-word representative; arithmetic is the
//! arithmetic of the representatives, while `congruent` identifies
//! representatives that differ by a multiple of five. Stepping past a bound
//! with `succ` or `pred` is excluded by those operations' preconditions, the
//! same policy the representative's own arithmetic follows.

use vstd::prelude::*;
use crate::ring::CommutativeRing;
use crate::integer::Integer;
use crate::modular::ModularInteger;

verus! {

/// A machine word viewed as a member of a residue class modulo five.
#[derive(Clone, Copy, PartialEq, Eq, Structural, Debug)]
pub struct Mod5 {
    /// The representative this value carries.
    pub rep: i64,
}

impl CommutativeRing for Mod5 {
    open spec fn v(&self) -> int {
        self.rep as int
    }

    open spec fn rep(x: int) -> bool {
        i64::MIN <= x <= i64::MAX
    }

    proof fn rep_v(&self) {
    }

    proof fn v_exact(a: &Mod5, b: &Mod5) {
    }

    fn zero() -> Mod5 {
        Mod5 { rep: 0 }
    }

    fn one() -> Mod5 {
        Mod5 { rep: 1 }
    }

    fn add(a: &Mod5, b: &Mod5) -> Mod5 {
        Mod5 { rep: a.rep + b.rep }
    }

    fn sub(a: &Mod5, b: &Mod5) -> Mod5 {
        Mod5 { rep: a.rep - b.rep }
    }

    fn mul(a: &Mod5, b: &Mod5) -> Mod5 {
        Mod5 { rep: a.rep * b.rep }
    }

    fn le(a: &Mod5, b: &Mod5) -> bool {
        a.rep <= b.rep
    }
}

impl Integer for Mod5 {
    fn t_div(a: &Mod5, b: &Mod5) -> Mod5 {
        Mod5 { rep: <i64 as Integer>::t_div(&a.rep, &b.rep) }
    }

    fn t_mod(a: &Mod5, b: &Mod5) -> Mod5 {
        Mod5 { rep: <i64 as Integer>::t_mod(&a.rep, &b.rep) }
    }

    fn f_div(a: &Mod5, b: &Mod5) -> Mod5 {
        Mod5 { rep: <i64 as Integer>::f_div(&a.rep, &b.rep) }
    }

    fn f_mod(a: &Mod5, b: &Mod5) -> Mod5 {
        Mod5 { rep: <i64 as Integer>::f_mod(&a.rep, &b.rep) }
    }

    fn gcd(a: &Mod5, b: &Mod5) -> Mod5 {
        Mod5 { rep: <i64 as Integer>::gcd(&a.rep, &b.rep) }
    }

    fn lcm(a: &Mod5, b: &Mod5) -> Mod5 {
        Mod5 { rep: <i64 as Integer>::lcm(&a.rep, &b.rep) }
    }
}

impl ModularInteger for Mod5 {
    open spec fn min_v() -> int {
        i64::MIN as int
    }

    open spec fn max_v() -> int {
        i64::MAX as int
    }

    open spec fn modulus() -> int {
        5
    }

    proof fn range_properties() {
    }

    fn min_value() -> Mod5 {
        Mod5 { rep: i64::MIN }
    }

    fn max_value() -> Mod5 {
        Mod5 { rep: i64::MAX }
    }

    fn congruent(x: &Mod5, y: &Mod5) -> (r: bool) {
        let rx = x.rep.checked_rem_euclid(5).unwrap();
        let ry = y.rep.checked_rem_euclid(5).unwrap();
        rx == ry
    }
}

} // verus!
