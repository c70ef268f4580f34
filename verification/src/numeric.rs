//! Activation and cost functions given as closures, with derivatives by
//! forward differences.

use vstd::prelude::*;
use vstd::slice::slice_to_vec;
use crate::functions::{ActivationFunction, CostFunction};
use crate::scalar::Scalar;

verus! {

/// Whether `function` can be called on every scalar and returns the same
/// value whenever it is called on the same scalar.
pub open spec fn is_function<T, F: Fn(T) -> T>(function: F) -> bool {
    &&& forall|x: T| call_requires(function, (x,))
    &&& forall|x: T, first: T, second: T|
        call_ensures(function, (x,), first) && call_ensures(function, (x,), second) ==> first == second
}

/// The value that `function` returns at `x`.
pub open spec fn value_at<T, F: Fn(T) -> T>(function: F, x: T) -> T {
    choose|y: T| call_ensures(function, (x,), y)
}

/// The forward difference quotient of `function` at `x`:
/// `(function(x + step) - function(x)) / step`.
pub open spec fn forward_difference<T: Scalar, F: Fn(T) -> T>(function: F, x: T, step: T) -> T {
    value_at(function, x.sum(step)).difference(value_at(function, x)).quotient(step)
}

/// A closure as an activation function. Its derivative is approximated by
/// the forward difference quotient over `step`.
#[verifier::reject_recursive_types(T)]
pub struct NumericActivation<T: Scalar, F: Fn(T) -> T> {
    function: F,
    step: T,
}

impl<T: Scalar, F: Fn(T) -> T> NumericActivation<T, F> {
    /// The closure.
    pub closed spec fn function(&self) -> F {
        self.function
    }

    /// The step of the difference quotient.
    pub closed spec fn step(&self) -> T {
        self.step
    }

    /// The closure is a function.
    #[verifier::type_invariant]
    pub closed spec fn well_formed(&self) -> bool {
        is_function(self.function)
    }

    /// `function` as an activation function, differentiated over `step`.
    pub fn new(function: F, step: T) -> (a: Self)
        requires
            is_function(function),
        ensures
            a.function() == function,
            a.step() == step,
            a.well_formed(),
    {
        NumericActivation { function, step }
    }
}

impl<T: Scalar, F: Fn(T) -> T> ActivationFunction<T> for NumericActivation<T, F> {
    open spec fn activation(&self, x: T) -> T {
        value_at(self.function(), x)
    }

    open spec fn slope(&self, x: T) -> T {
        forward_difference(self.function(), x, self.step())
    }

    fn activate(&self, x: T) -> (y: T)
        ensures
            call_ensures(self.function(), (x,), y),
    {
        proof {
            use_type_invariant(self);
        }
        (self.function)(x)
    }

    fn derivative(&self, x: T) -> (d: T)
        ensures
            call_ensures(
                self.function(),
                (x.sum(self.step()),),
                value_at(self.function(), x.sum(self.step())),
            ),
            call_ensures(self.function(), (x,), value_at(self.function(), x)),
    {
        proof {
            use_type_invariant(self);
        }
        let ahead = (self.function)(x.plus(self.step));
        let here = (self.function)(x);
        ahead.minus(here).over(self.step)
    }
}

/// Whether `function` can be called on every pair of vectors and returns
/// the same value whenever it is called on the same vectors.
pub open spec fn is_cost<T, F: Fn(&[T], &[T]) -> T>(function: F) -> bool {
    &&& forall|output: &[T], expected: &[T]| call_requires(function, (output, expected))
    &&& forall|output: &[T], expected: &[T], again: &[T], wanted: &[T], first: T, second: T|
        output@ == again@ && expected@ == wanted@ && #[trigger] call_ensures(
            function,
            (output, expected),
            first,
        ) && #[trigger] call_ensures(function, (again, wanted), second) ==> first == second
}

/// Whether `function` can return `c` for slices that hold `output` and
/// `expected`.
pub open spec fn may_cost<T, F: Fn(&[T], &[T]) -> T>(
    function: F,
    output: Seq<T>,
    expected: Seq<T>,
    c: T,
) -> bool {
    exists|o: &[T], e: &[T]|
        o@ == output && e@ == expected && #[trigger] call_ensures(function, (o, e), c)
}

/// The value that `function` returns for `output` and `expected`.
pub open spec fn cost_at<T, F: Fn(&[T], &[T]) -> T>(function: F, output: Seq<T>, expected: Seq<T>) -> T {
    choose|c: T| may_cost(function, output, expected, c)
}

/// The forward difference quotient of `function` along entry `i` of
/// `output`: the cost with `step` added to that entry, minus the cost as it
/// is, over `step`.
pub open spec fn partial_difference<T: Scalar, F: Fn(&[T], &[T]) -> T>(
    function: F,
    output: Seq<T>,
    expected: Seq<T>,
    i: int,
    step: T,
) -> T {
    cost_at(function, output.update(i, output[i].sum(step)), expected).difference(
        cost_at(function, output, expected),
    ).quotient(step)
}

/// A closure as a cost function. Its gradient is approximated entry by entry
/// by forward difference quotients over `step`.
#[verifier::reject_recursive_types(T)]
pub struct NumericCost<T: Scalar, F: Fn(&[T], &[T]) -> T> {
    function: F,
    step: T,
}

impl<T: Scalar, F: Fn(&[T], &[T]) -> T> NumericCost<T, F> {
    /// The closure.
    pub closed spec fn function(&self) -> F {
        self.function
    }

    /// The step of the difference quotients.
    pub closed spec fn step(&self) -> T {
        self.step
    }

    /// The closure is a function.
    #[verifier::type_invariant]
    pub closed spec fn well_formed(&self) -> bool {
        is_cost(self.function)
    }

    /// `function` as a cost function, differentiated over `step`.
    pub fn new(function: F, step: T) -> (c: Self)
        requires
            is_cost(function),
        ensures
            c.function() == function,
            c.step() == step,
            c.well_formed(),
    {
        NumericCost { function, step }
    }

    fn evaluate(&self, output: &[T], expected: &[T]) -> (c: T)
        ensures
            c == cost_at(self.function(), output@, expected@),
            may_cost(self.function(), output@, expected@, c),
    {
        proof {
            use_type_invariant(self);
        }
        let c = (self.function)(output, expected);
        proof {
            assert(may_cost(self.function, output@, expected@, c));
            let chosen = cost_at(self.function, output@, expected@);
            assert(may_cost(self.function, output@, expected@, chosen));
            let (o, e) = choose|o: &[T], e: &[T]|
                o@ == output@ && e@ == expected@ && #[trigger] call_ensures(self.function, (o, e), chosen);
            assert(call_ensures(self.function, (o, e), chosen));
            assert(call_ensures(self.function, (output, expected), c));
        }
        c
    }
}

impl<T: Scalar, F: Fn(&[T], &[T]) -> T> CostFunction<T> for NumericCost<T, F> {
    open spec fn cost_value(&self, output: Seq<T>, expected: Seq<T>) -> T {
        cost_at(self.function(), output, expected)
    }

    open spec fn gradient(&self, output: Seq<T>, expected: Seq<T>) -> Seq<T> {
        Seq::new(
            output.len(),
            |i: int| partial_difference(self.function(), output, expected, i, self.step()),
        )
    }

    fn cost(&self, output: &[T], expected: &[T]) -> (c: T)
        ensures
            may_cost(self.function(), output@, expected@, c),
    {
        self.evaluate(output, expected)
    }

    fn derivative(&self, output: &[T], expected: &[T]) -> (g: Vec<T>)
        ensures
            output@.len() > 0 ==> may_cost(
                self.function(),
                output@,
                expected@,
                cost_at(self.function(), output@, expected@),
            ),
            forall|i: int|
                0 <= i < output@.len() ==> may_cost(
                    self.function(),
                    #[trigger] output@.update(i, output@[i].sum(self.step())),
                    expected@,
                    cost_at(self.function(), output@.update(i, output@[i].sum(self.step())), expected@),
                ),
    {
        let n = output.len();
        let mut result: Vec<T> = Vec::new();
        let mut i: usize = 0;
        while i < n
            invariant
                i <= n,
                n == output@.len(),
                result.len() == i,
                forall|k: int|
                    0 <= k < i ==> result[k] == partial_difference(
                        self.function(),
                        output@,
                        expected@,
                        k,
                        self.step(),
                    ),
                i > 0 ==> may_cost(
                    self.function(),
                    output@,
                    expected@,
                    cost_at(self.function(), output@, expected@),
                ),
                forall|k: int|
                    0 <= k < i ==> may_cost(
                        self.function(),
                        #[trigger] output@.update(k, output@[k].sum(self.step())),
                        expected@,
                        cost_at(self.function(), output@.update(k, output@[k].sum(self.step())), expected@),
                    ),
            decreases n - i,
        {
            let mut output_plus_h = slice_to_vec(output);
            let moved = output_plus_h[i].plus(self.step);
            output_plus_h[i] = moved;
            let ahead = self.evaluate(output_plus_h.as_slice(), expected);
            let here = self.evaluate(output, expected);
            result.push(ahead.minus(here).over(self.step));
            i += 1;
        }
        assert(result@ =~= self.gradient(output@, expected@));
        result
    }
}

} // verus!
