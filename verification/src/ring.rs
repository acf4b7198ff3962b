//! The commutative-ring capability that the discrete contracts build on.
//!
//! A conforming type denotes mathematical integers: the spec function `v`
//! gives the value a term stands for, and `rep` delimits which integers the
//! type can hold. Ring structure (addition, subtraction, multiplication,
//! the two identity elements), equality and total order are all stated
//! through that denotation, so commutativity, associativity and
//! distributivity are inherited from the integers themselves.

use vstd::prelude::*;

verus! {

/// A bounded or unbounded commutative ring of integers, together with the
/// equality and total-order capabilities, all specified through an integer
/// denotation.
pub trait CommutativeRing: Sized {
    /// The mathematical integer this value denotes.
    spec fn v(&self) -> int;

    /// Which mathematical integers the type can represent.
    spec fn rep(x: int) -> bool;

    /// Every value denotes a representable integer.
    proof fn rep_v(&self)
        ensures
            Self::rep(self.v()),
    ;

    /// The denotation is exact: two values are equal precisely when they
    /// denote the same integer.
    proof fn v_exact(a: &Self, b: &Self)
        ensures
            (a.v() == b.v()) <==> (a == b),
    ;

    /// The additive identity.
    fn zero() -> (r: Self)
        ensures
            r.v() == 0,
    ;

    /// The multiplicative identity.
    fn one() -> (r: Self)
        ensures
            r.v() == 1,
    ;

    /// Ring addition.
    fn add(a: &Self, b: &Self) -> (r: Self)
        requires
            Self::rep(a.v() + b.v()),
        ensures
            r.v() == a.v() + b.v(),
    ;

    /// Ring subtraction.
    fn sub(a: &Self, b: &Self) -> (r: Self)
        requires
            Self::rep(a.v() - b.v()),
        ensures
            r.v() == a.v() - b.v(),
    ;

    /// Ring multiplication.
    fn mul(a: &Self, b: &Self) -> (r: Self)
        requires
            Self::rep(a.v() * b.v()),
        ensures
            r.v() == a.v() * b.v(),
    ;

    /// The total order, inherited from the integers through the denotation.
    fn le(a: &Self, b: &Self) -> (r: bool)
        ensures
            r == (a.v() <= b.v()),
    ;
}

} // verus!
