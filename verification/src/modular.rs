//! The `ModularInteger` contract: a bounded discrete type whose values fall
//! into residue classes under a fixed positive modulus, with a congruence
//! test distinct from plain equality and a predecessor operation.

use vstd::prelude::*;
use vstd::arithmetic::div_mod::{lemma_fundamental_div_mod, lemma_mod_multiples_vanish};
use crate::ring::CommutativeRing;
use crate::integer::Integer;
use crate::gcd::divides;

verus! {

/// Two integers are congruent under a positive modulus when they leave the
/// same Euclidean residue — that is, when they denote the same residue
/// class.
pub open spec fn congruent_int(x: int, y: int, m: int) -> bool
    recommends
        m > 0,
{
    x % m == y % m
}

/// Congruence is the same thing as the modulus dividing the difference.
pub proof fn lemma_congruent_divides(x: int, y: int, m: int)
    requires
        m > 0,
    ensures
        congruent_int(x, y, m) <==> divides(m, x - y),
{
    lemma_fundamental_div_mod(x, m);
    lemma_fundamental_div_mod(y, m);
    if congruent_int(x, y, m) {
        let d = x / m - y / m;
        assert(x - y == m * d) by (nonlinear_arith)
            requires
                x == m * (x / m) + x % m,
                y == m * (y / m) + y % m,
                x % m == y % m,
                d == x / m - y / m,
        ;
    }
    if divides(m, x - y) {
        let k = choose|k: int| x - y == #[trigger] (m * k);
        lemma_mod_multiples_vanish(k, y, m);
        assert(x % m == (m * k + y) % m);
    }
}

/// A bounded discrete type: the `Integer` contract extended with inclusive
/// range bounds, a congruence predicate, and the predecessor.
pub trait ModularInteger: Integer {
    /// Denotation of the least representable value.
    spec fn min_v() -> int;

    /// Denotation of the greatest representable value.
    spec fn max_v() -> int;

    /// The positive modulus that groups values into residue classes.
    spec fn modulus() -> int;

    /// The representable integers are exactly the inclusive range between
    /// the bounds, and the modulus is positive.
    proof fn range_properties()
        ensures
            Self::min_v() <= Self::max_v(),
            Self::modulus() > 0,
            forall|x: int| Self::rep(x) <==> Self::min_v() <= x <= Self::max_v(),
    ;

    /// The least representable value; a per-type constant.
    fn min_value() -> (r: Self)
        ensures
            r.v() == Self::min_v(),
    ;

    /// The greatest representable value; a per-type constant.
    fn max_value() -> (r: Self)
        ensures
            r.v() == Self::max_v(),
    ;

    /// Whether two values fall into the same residue class under the type's
    /// modulus; this can hold of values that are not equal.
    fn congruent(x: &Self, y: &Self) -> (r: bool)
        ensures
            r == congruent_int(x.v(), y.v(), Self::modulus()),
    ;

    /// The next value down: `pred(x)` denotes `x - 1`; the inverse
    /// counterpart of `succ`.
    fn pred(&self) -> (r: Self)
        requires
            Self::rep(self.v() - 1),
        ensures
            r.v() == self.v() - 1,
    {
        Self::sub(self, &Self::one())
    }
}

/// Law: strictly inside the representable range, `succ` and `pred` are
/// mutually inverse. Both compositions are admissible there — stepping up
/// and down (or down and up) stays within the bounds — and each returns a
/// value denoting the integer it started from, which by exactness of the
/// denotation is the starting value itself.
pub proof fn lemma_succ_pred_inverse<T: ModularInteger>(x: &T, up: &T, down: &T)
    requires
        T::min_v() < x.v() < T::max_v(),
        up.v() == x.v() + 1,
        down.v() == x.v() - 1,
    ensures
        T::rep(x.v() + 1),
        T::rep(x.v() - 1),
        up.v() - 1 == x.v(),
        down.v() + 1 == x.v(),
{
    T::range_properties();
    x.rep_v();
}

} // verus!
