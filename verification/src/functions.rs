//! Activation and cost functions.

use vstd::prelude::*;
use rand::Rng;
use crate::fixed::{Fixed, ONE};
use crate::scalar::Scalar;

verus! {

/// A pointwise nonlinearity and its derivative.
///
/// Both methods are functions of their argument alone; `activation` and
/// `slope` name what they return. As in [`crate::scalar::Scalar`], the spec
/// functions have a body only for the sake of implementations outside of
/// `verus!`.
pub trait ActivationFunction<T> {
    /// What `activate` returns at `x`.
    open spec fn activation(&self, x: T) -> T {
        arbitrary()
    }

    /// What `derivative` returns at `x`.
    open spec fn slope(&self, x: T) -> T {
        arbitrary()
    }

    /// The value of the function at `x`.
    fn activate(&self, x: T) -> (y: T)
        ensures
            y == self.activation(x),
    ;

    /// The derivative of the function at `x`, exact or approximate.
    fn derivative(&self, x: T) -> (d: T)
        ensures
            d == self.slope(x),
    ;
}

/// A scalar measure of how far an output is from what was expected, and its
/// gradient with respect to the output.
pub trait CostFunction<T> {
    /// What `cost` returns.
    open spec fn cost_value(&self, output: Seq<T>, expected: Seq<T>) -> T {
        arbitrary()
    }

    /// What `derivative` returns.
    open spec fn gradient(&self, output: Seq<T>, expected: Seq<T>) -> Seq<T> {
        arbitrary()
    }

    /// The cost of `output` where `expected` was wanted.
    fn cost(&self, output: &[T], expected: &[T]) -> (c: T)
        ensures
            c == self.cost_value(output@, expected@),
    ;

    /// The partial derivatives of the cost with respect to the entries of
    /// `output`, exact or approximate. Nothing is asked of its length here:
    /// training refuses a gradient that is not as long as the output.
    fn derivative(&self, output: &[T], expected: &[T]) -> (g: Vec<T>)
        ensures
            g@ == self.gradient(output@, expected@),
    ;
}

/// `rand::Rng::gen_range` on the half-open range `low..high`, drawn from
/// `rand::thread_rng()`. The call panics on an empty range, which `requires`
/// leaves out; all that is claimed of the outcome is that it lies in the
/// range.
#[verifier::external_body]
fn random_in_range(low: i64, high: i64) -> (r: i64)
    requires
        low < high,
    ensures
        low <= r < high,
{
    rand::thread_rng().gen_range(low..high)
}

/// A weight initializer that draws uniformly from the fixed-point numbers
/// between the whole numbers `lower_bound` (included) and `upper_bound`
/// (excluded).
pub fn create_random_weight_initializer(lower_bound: i64, upper_bound: i64) -> (initializer: impl Fn() ->
    Fixed)
    requires
        -0x8000_0000 <= lower_bound < upper_bound <= 0x7fff_ffff,
    ensures
        call_requires(initializer, ()),
        forall|v: Fixed|
            call_ensures(initializer, (), v) ==> lower_bound * ONE <= v.raw < upper_bound * ONE,
{
    let low: i64 = lower_bound * ONE;
    let high: i64 = upper_bound * ONE;
    move || -> (v: Fixed)
        ensures
            low <= v.raw < high,
        { Fixed { raw: random_in_range(low, high) } }
}

/// The rectifier: the identity on positive numbers, zero elsewhere.
pub struct Relu;

impl<T: Scalar> ActivationFunction<T> for Relu {
    open spec fn activation(&self, x: T) -> T {
        if x.positive() {
            x
        } else {
            T::of_count(0)
        }
    }

    open spec fn slope(&self, x: T) -> T {
        if x.positive() {
            T::of_count(1)
        } else {
            T::of_count(0)
        }
    }

    fn activate(&self, x: T) -> (y: T) {
        if x.is_positive() {
            x
        } else {
            T::from_count(0)
        }
    }

    fn derivative(&self, x: T) -> (d: T) {
        if x.is_positive() {
            T::from_count(1)
        } else {
            T::from_count(0)
        }
    }
}

/// The smaller of two lengths.
pub open spec fn shorter(a: nat, b: nat) -> nat {
    if a < b {
        a
    } else {
        b
    }
}

/// The squares of the first `n` differences `output[i] - expected[i]`, added
/// to zero from the left.
pub open spec fn squared_error_sum<T: Scalar>(output: Seq<T>, expected: Seq<T>, n: nat) -> T
    decreases n,
{
    if n == 0 {
        T::of_count(0)
    } else {
        let difference = output[n - 1].difference(expected[n - 1]);
        squared_error_sum(output, expected, (n - 1) as nat).sum(difference.product(difference))
    }
}

/// The mean squared error: the squared differences between the outputs and
/// the expected values they are paired with, summed and divided by the
/// number of outputs.
pub struct MeanSquaredError;

impl<T: Scalar> CostFunction<T> for MeanSquaredError {
    open spec fn cost_value(&self, output: Seq<T>, expected: Seq<T>) -> T {
        squared_error_sum(output, expected, shorter(output.len(), expected.len())).quotient(
            T::of_count(output.len()),
        )
    }

    open spec fn gradient(&self, output: Seq<T>, expected: Seq<T>) -> Seq<T> {
        Seq::new(
            shorter(output.len(), expected.len()),
            |i: int| T::of_count(2).product(output[i].difference(expected[i])),
        )
    }

    fn cost(&self, output: &[T], expected: &[T]) -> (c: T) {
        let n = if output.len() < expected.len() {
            output.len()
        } else {
            expected.len()
        };
        let mut total = T::from_count(0);
        let mut i: usize = 0;
        while i < n
            invariant
                i <= n,
                n <= output@.len(),
                n <= expected@.len(),
                total == squared_error_sum(output@, expected@, i as nat),
            decreases n - i,
        {
            let difference = output[i].minus(expected[i]);
            total = total.plus(difference.times(difference));
            i += 1;
        }
        total.over(T::from_count(output.len()))
    }

    fn derivative(&self, output: &[T], expected: &[T]) -> (g: Vec<T>) {
        let n = if output.len() < expected.len() {
            output.len()
        } else {
            expected.len()
        };
        let two = T::from_count(2);
        let mut gradient: Vec<T> = Vec::new();
        let mut i: usize = 0;
        while i < n
            invariant
                i <= n,
                n <= output@.len(),
                n <= expected@.len(),
                two == T::of_count(2),
                gradient.len() == i,
                forall|k: int|
                    0 <= k < i ==> gradient[k] == T::of_count(2).product(
                        output@[k].difference(expected@[k]),
                    ),
            decreases n - i,
        {
            gradient.push(two.times(output[i].minus(expected[i])));
            i += 1;
        }
        assert(gradient@ =~= self.gradient(output@, expected@));
        gradient
    }
}

} // verus!
