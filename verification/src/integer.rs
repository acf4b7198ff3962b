//! The `Integer` contract: discrete numbers with the two division
//! conventions, greatest common divisor, least common multiple and
//! successor, plus the free-function forms of the division operations.
//!
//! Every operation is pinned to its mathematical definition over the
//! implementing type's integer denotation (`t_div_int`, `gcd_int`, ...), so
//! any two conforming types agree on every result. An operation is owed
//! exactly where its precondition holds: the divisor is non-zero and the
//! mathematical result is representable; a conforming type therefore never
//! signals a domain error inside the contract's domain, and a caller that
//! cannot establish the precondition must not make the call (that is the
//! domain-error boundary).

use vstd::prelude::*;
use crate::ring::CommutativeRing;
use crate::division::{t_div_int, t_mod_int, f_div_int, f_mod_int};
use crate::gcd::{gcd_int, lcm_int};

verus! {

/// A number that can be written without a fractional component: the
/// commutative-ring and ordering capabilities extended with truncated and
/// floored division, divisor operations, and the successor.
pub trait Integer: CommutativeRing {
    /// The next value up: `succ(x)` denotes `x + 1` (one being the ring's
    /// multiplicative identity).
    fn succ(&self) -> (r: Self)
        requires
            Self::rep(self.v() + 1),
        ensures
            r.v() == self.v() + 1,
    {
        Self::add(self, &Self::one())
    }

    /// Truncated division: the quotient rounded toward zero (the ISO C
    /// convention for `/`).
    fn t_div(a: &Self, b: &Self) -> (r: Self)
        requires
            b.v() != 0,
            Self::rep(t_div_int(a.v(), b.v())),
        ensures
            r.v() == t_div_int(a.v(), b.v()),
    ;

    /// The remainder after truncated division: it satisfies
    /// `a == b * t_div(a, b) + t_mod(a, b)` and takes the sign of the
    /// dividend (the ISO C convention for `%`).
    fn t_mod(a: &Self, b: &Self) -> (r: Self)
        requires
            b.v() != 0,
            Self::rep(t_mod_int(a.v(), b.v())),
        ensures
            r.v() == t_mod_int(a.v(), b.v()),
    ;

    /// Truncated quotient and remainder together; never diverges from the
    /// separate calls.
    fn t_div_mod(a: &Self, b: &Self) -> (r: (Self, Self))
        requires
            b.v() != 0,
            Self::rep(t_div_int(a.v(), b.v())),
            Self::rep(t_mod_int(a.v(), b.v())),
        ensures
            r.0.v() == t_div_int(a.v(), b.v()),
            r.1.v() == t_mod_int(a.v(), b.v()),
    {
        (Self::t_div(a, b), Self::t_mod(a, b))
    }

    /// Floored division: the quotient rounded toward negative infinity.
    fn f_div(a: &Self, b: &Self) -> (r: Self)
        requires
            b.v() != 0,
            Self::rep(f_div_int(a.v(), b.v())),
        ensures
            r.v() == f_div_int(a.v(), b.v()),
    ;

    /// The remainder after floored division: it satisfies
    /// `a == b * f_div(a, b) + f_mod(a, b)` and takes the sign of the
    /// divisor.
    fn f_mod(a: &Self, b: &Self) -> (r: Self)
        requires
            b.v() != 0,
            Self::rep(f_mod_int(a.v(), b.v())),
        ensures
            r.v() == f_mod_int(a.v(), b.v()),
    ;

    /// Floored quotient and remainder together; never diverges from the
    /// separate calls.
    fn f_div_mod(a: &Self, b: &Self) -> (r: (Self, Self))
        requires
            b.v() != 0,
            Self::rep(f_div_int(a.v(), b.v())),
            Self::rep(f_mod_int(a.v(), b.v())),
        ensures
            r.0.v() == f_div_int(a.v(), b.v()),
            r.1.v() == f_mod_int(a.v(), b.v()),
    {
        (Self::f_div(a, b), Self::f_mod(a, b))
    }

    /// Greatest common divisor: non-negative, and zero only for
    /// `gcd(zero, zero)` — the contract documents that edge case as zero.
    fn gcd(a: &Self, b: &Self) -> (r: Self)
        requires
            Self::rep(gcd_int(a.v(), b.v())),
        ensures
            r.v() == gcd_int(a.v(), b.v()),
    ;

    /// Least common multiple: non-negative, zero when either argument is
    /// zero, and tied to `gcd` by `lcm(a, b) * gcd(a, b) == |a * b|`.
    fn lcm(a: &Self, b: &Self) -> (r: Self)
        requires
            Self::rep(lcm_int(a.v(), b.v())),
        ensures
            r.v() == lcm_int(a.v(), b.v()),
    ;
}

/// Truncated division as a free function, forwarding to the capability.
pub fn t_div<T: Integer>(a: &T, b: &T) -> (r: T)
    requires
        b.v() != 0,
        T::rep(t_div_int(a.v(), b.v())),
    ensures
        r.v() == t_div_int(a.v(), b.v()),
{
    T::t_div(a, b)
}

/// Truncated remainder as a free function, forwarding to the capability.
pub fn t_mod<T: Integer>(a: &T, b: &T) -> (r: T)
    requires
        b.v() != 0,
        T::rep(t_mod_int(a.v(), b.v())),
    ensures
        r.v() == t_mod_int(a.v(), b.v()),
{
    T::t_mod(a, b)
}

/// Truncated quotient and remainder together, as a free function.
pub fn t_div_mod<T: Integer>(a: &T, b: &T) -> (r: (T, T))
    requires
        b.v() != 0,
        T::rep(t_div_int(a.v(), b.v())),
        T::rep(t_mod_int(a.v(), b.v())),
    ensures
        r.0.v() == t_div_int(a.v(), b.v()),
        r.1.v() == t_mod_int(a.v(), b.v()),
{
    T::t_div_mod(a, b)
}

/// Floored division as a free function, forwarding to the capability.
pub fn f_div<T: Integer>(a: &T, b: &T) -> (r: T)
    requires
        b.v() != 0,
        T::rep(f_div_int(a.v(), b.v())),
    ensures
        r.v() == f_div_int(a.v(), b.v()),
{
    T::f_div(a, b)
}

/// Floored remainder as a free function, forwarding to the capability.
pub fn f_mod<T: Integer>(a: &T, b: &T) -> (r: T)
    requires
        b.v() != 0,
        T::rep(f_mod_int(a.v(), b.v())),
    ensures
        r.v() == f_mod_int(a.v(), b.v()),
{
    T::f_mod(a, b)
}

/// Floored quotient and remainder together, as a free function.
pub fn f_div_mod<T: Integer>(a: &T, b: &T) -> (r: (T, T))
    requires
        b.v() != 0,
        T::rep(f_div_int(a.v(), b.v())),
        T::rep(f_mod_int(a.v(), b.v())),
    ensures
        r.0.v() == f_div_int(a.v(), b.v()),
        r.1.v() == f_mod_int(a.v(), b.v()),
{
    T::f_div_mod(a, b)
}

} // verus!
