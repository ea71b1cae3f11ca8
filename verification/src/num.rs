//! The scalar interface of the engine.
//!
//! Every matrix, layer and loss in this crate is generic over a scalar type.
//! The pipeline only ever combines scalars through the operations below, so a
//! caller chooses the arithmetic by implementing [`Num`] for its own type.

use vstd::prelude::*;

verus! {

/// The arithmetic that a scalar type must offer to the pipeline.
///
/// Each executable operation is pinned to a specification-level counterpart
/// (`add_val` returns exactly `spec_add`, and so on), so the library's
/// contracts can state the value of everything it computes: each operation is
/// a function of its operands alone.  No algebraic laws are assumed of the
/// operations themselves — `spec_add` need not commute, and `spec_zero` is
/// not assumed neutral — so the contracts describe the computation exactly as
/// performed, for every implementation that honours this pairing.
pub trait Num: Sized + Copy {
    /// The additive identity, as specifications see it.
    spec fn spec_zero() -> Self;

    /// The multiplicative identity, as specifications see it.
    spec fn spec_one() -> Self;

    /// The logarithm, base two, of Euler's number, as specifications see it.
    spec fn spec_log2_e() -> Self;

    /// Addition, as specifications see it.
    spec fn spec_add(self, other: Self) -> Self;

    /// Subtraction, as specifications see it.
    spec fn spec_sub(self, other: Self) -> Self;

    /// Multiplication, as specifications see it.
    spec fn spec_mul(self, other: Self) -> Self;

    /// Division, as specifications see it.
    spec fn spec_div(self, other: Self) -> Self;

    /// Negation, as specifications see it.
    spec fn spec_neg(self) -> Self;

    /// The logarithm, base two, as specifications see it.
    spec fn spec_log2(self) -> Self;

    /// Whether this value is the additive identity, as specifications see it.
    spec fn spec_is_zero(self) -> bool;

    /// Whether this value is the multiplicative identity, as specifications
    /// see it.
    spec fn spec_is_one(self) -> bool;

    /// The additive identity, used to seed accumulating sums.
    fn zero() -> (r: Self)
        ensures
            r == Self::spec_zero(),
    ;

    /// The multiplicative identity.
    fn one() -> (r: Self)
        ensures
            r == Self::spec_one(),
    ;

    /// The logarithm, base two, of Euler's number; equivalently the
    /// reciprocal of the natural logarithm of two.  It scales the derivative
    /// of `log2_val`, which the logistic loss needs for its gradient.
    fn log2_e() -> (r: Self)
        ensures
            r == Self::spec_log2_e(),
    ;

    /// Addition.
    fn add_val(self, other: Self) -> (r: Self)
        ensures
            r == self.spec_add(other),
    ;

    /// Subtraction: `self` minus `other`.
    fn sub_val(self, other: Self) -> (r: Self)
        ensures
            r == self.spec_sub(other),
    ;

    /// Multiplication.
    fn mul_val(self, other: Self) -> (r: Self)
        ensures
            r == self.spec_mul(other),
    ;

    /// Division: `self` divided by `other`.
    fn div_val(self, other: Self) -> (r: Self)
        ensures
            r == self.spec_div(other),
    ;

    /// Negation.
    fn neg_val(self) -> (r: Self)
        ensures
            r == self.spec_neg(),
    ;

    /// The logarithm, base two.
    fn log2_val(self) -> (r: Self)
        ensures
            r == self.spec_log2(),
    ;

    /// Whether this value is the additive identity.
    fn is_zero(self) -> (r: bool)
        ensures
            r == self.spec_is_zero(),
    ;

    /// Whether this value is the multiplicative identity.
    fn is_one(self) -> (r: bool)
        ensures
            r == self.spec_is_one(),
    ;
}

} // verus!
