//! Contracts for discrete (integer-like) numeric types.
//!
//! The crate fixes the semantics of the two common integer division
//! conventions (truncated and floored), of greatest common divisor and least
//! common multiple, and of bounded modular-integer behaviour, as capability
//! traits whose methods carry full functional contracts over a mathematical
//! view of the implementing type.

pub mod division;
pub mod gcd;
pub mod ring;
pub mod integer;
pub mod modular;
pub mod machine;
pub mod residue;
