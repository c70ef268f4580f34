//! The numbers that the engine computes with.

use vstd::prelude::*;

verus! {

/// A number type with the arithmetic that the engine needs.
///
/// Every operation is a function of its operands alone: the spec function
/// beside it names the value it returns, and that is all the engine relies
/// on. No algebraic law (associativity, distributivity, ...) is asked for,
/// so rounding and saturating arithmetics qualify.
///
/// The spec functions carry a body only so that an implementation written
/// outside of `verus!` need not supply them; a verified implementation
/// overrides every one of them with the definition of its own arithmetic,
/// as no executable code can return `arbitrary()`.
pub trait Scalar: Copy {
    /// What `from_count` returns.
    open spec fn of_count(n: nat) -> Self {
        arbitrary()
    }

    /// What `plus` returns.
    open spec fn sum(self, other: Self) -> Self {
        arbitrary()
    }

    /// What `minus` returns.
    open spec fn difference(self, other: Self) -> Self {
        arbitrary()
    }

    /// What `times` returns.
    open spec fn product(self, other: Self) -> Self {
        arbitrary()
    }

    /// What `over` returns.
    open spec fn quotient(self, other: Self) -> Self {
        arbitrary()
    }

    /// What `is_positive` returns.
    open spec fn positive(self) -> bool {
        arbitrary()
    }

    /// The scalar that stands for the count `n`.
    fn from_count(n: usize) -> (r: Self)
        ensures
            r == Self::of_count(n as nat),
    ;

    /// `self + other`.
    fn plus(self, other: Self) -> (r: Self)
        ensures
            r == self.sum(other),
    ;

    /// `self - other`.
    fn minus(self, other: Self) -> (r: Self)
        ensures
            r == self.difference(other),
    ;

    /// `self * other`.
    fn times(self, other: Self) -> (r: Self)
        ensures
            r == self.product(other),
    ;

    /// `self / other`.
    fn over(self, other: Self) -> (r: Self)
        ensures
            r == self.quotient(other),
    ;

    /// Whether `self` is greater than zero.
    fn is_positive(self) -> (r: bool)
        ensures
            r == self.positive(),
    ;
}

} // verus!
