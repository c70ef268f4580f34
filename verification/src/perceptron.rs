//! A single linear unit.

use vstd::prelude::*;
use crate::derivatives::{Gradient, PerceptronDerivative};
use crate::error::NetworkError;
use crate::functions::ActivationFunction;
use crate::scalar::Scalar;

verus! {

/// `bias + weights[0]*inputs[0] + ... + weights[n-1]*inputs[n-1]`, summed
/// from the left.
pub open spec fn weighted_sum<T: Scalar>(bias: T, weights: Seq<T>, inputs: Seq<T>, n: nat) -> T
    decreases n,
{
    if n == 0 {
        bias
    } else {
        weighted_sum(bias, weights, inputs, (n - 1) as nat).sum(
            weights[n - 1].product(inputs[n - 1]),
        )
    }
}

/// The derivatives of a unit's activated output with respect to its own
/// parameters, where `slope` is the activation's derivative at the unit's
/// weighted sum.
pub open spec fn local_gradient<T: Scalar>(slope: T, inputs: Seq<T>) -> Gradient<T> {
    Gradient { weights: Seq::new(inputs.len(), |j: int| slope.product(inputs[j])), bias: slope }
}

/// One step of gradient descent on a vector of parameters: entry `i` becomes
/// `values[i] - learning_rate * derivatives[i]`.
pub open spec fn descended<T: Scalar>(values: Seq<T>, derivatives: Seq<T>, learning_rate: T) -> Seq<T> {
    Seq::new(values.len(), |i: int| values[i].difference(learning_rate.product(derivatives[i])))
}

/// A weight vector and a bias, with the activation function whose derivative
/// enters the unit's local gradient.
pub struct Perceptron<'a, T, A> {
    activation_function: &'a A,
    weights: Vec<T>,
    bias: T,
}

impl<'a, T: Scalar, A: ActivationFunction<T>> Perceptron<'a, T, A> {
    /// The weights, one per input.
    pub closed spec fn weight_values(&self) -> Seq<T> {
        self.weights@
    }

    /// The bias.
    pub closed spec fn bias_value(&self) -> T {
        self.bias
    }

    /// The activation function.
    pub closed spec fn activation(&self) -> A {
        *self.activation_function
    }

    /// The weighted sum of `inputs`, before any activation.
    pub open spec fn pre_activation(&self, inputs: Seq<T>) -> T {
        weighted_sum(self.bias_value(), self.weight_values(), inputs, self.weight_values().len())
    }

    /// The local gradient of the unit at `inputs`.
    pub open spec fn gradient(&self, inputs: Seq<T>) -> Gradient<T> {
        local_gradient(self.activation().slope(self.pre_activation(inputs)), inputs)
    }

    /// Whether `after` is this unit one step of gradient descent along
    /// `derivative` later.
    pub open spec fn stepped(&self, derivative: Gradient<T>, learning_rate: T, after: &Self) -> bool {
        &&& after.weight_values() == descended(self.weight_values(), derivative.weights, learning_rate)
        &&& after.bias_value() == self.bias_value().difference(learning_rate.product(derivative.bias))
        &&& after.activation() == self.activation()
    }

    /// A unit with the given parameters.
    pub fn with_parameters(weights: Vec<T>, bias: T, activation_function: &'a A) -> (p: Self)
        ensures
            p.weight_values() == weights@,
            p.bias_value() == bias,
            p.activation() == *activation_function,
    {
        Perceptron { activation_function, weights, bias }
    }

    /// A unit of `size` weights, each weight and then the bias drawn from
    /// `weight_initializer`.
    pub fn new<F: Fn() -> T>(weight_initializer: F, size: usize, activation_function: &'a A) -> (p: Self)
        requires
            call_requires(weight_initializer, ()),
        ensures
            p.weight_values().len() == size,
            forall|j: int|
                0 <= j < size ==> call_ensures(weight_initializer, (), #[trigger] p.weight_values()[j]),
            call_ensures(weight_initializer, (), p.bias_value()),
            p.activation() == *activation_function,
    {
        let mut weights: Vec<T> = Vec::new();
        let mut j: usize = 0;
        while j < size
            invariant
                j <= size,
                weights.len() == j,
                call_requires(weight_initializer, ()),
                forall|k: int|
                    0 <= k < j ==> call_ensures(weight_initializer, (), #[trigger] weights[k]),
            decreases size - j,
        {
            weights.push(weight_initializer());
            j += 1;
        }
        let bias = weight_initializer();
        Self::with_parameters(weights, bias, activation_function)
    }

    /// The weighted sum of `inputs` and, where asked for, the unit's local
    /// gradient. The sum is returned raw: applying the activation function
    /// is left to the layer.
    pub fn feed_forward(&self, inputs: &[T], return_derivative: bool) -> (r: Result<
        (T, Option<PerceptronDerivative<T>>),
        NetworkError,
    >)
        ensures
            inputs@.len() != self.weight_values().len() ==> r == Err::<
                (T, Option<PerceptronDerivative<T>>),
                NetworkError,
            >(NetworkError::DimensionMismatch),
            inputs@.len() == self.weight_values().len() ==> {
                &&& r is Ok
                &&& r->Ok_0.0 == self.pre_activation(inputs@)
                &&& return_derivative ==> r->Ok_0.1 is Some && r->Ok_0.1->Some_0@
                    == self.gradient(inputs@)
                &&& !return_derivative ==> r->Ok_0.1 is None
            },
    {
        let n = self.weights.len();
        if inputs.len() != n {
            return Err(NetworkError::DimensionMismatch);
        }
        let mut before_activation = self.bias;
        let mut i: usize = 0;
        while i < n
            invariant
                i <= n,
                n == self.weights.len(),
                n == inputs@.len(),
                before_activation == weighted_sum(self.bias, self.weights@, inputs@, i as nat),
            decreases n - i,
        {
            before_activation = before_activation.plus(self.weights[i].times(inputs[i]));
            i += 1;
        }
        if return_derivative {
            let derivative = self.derivative(inputs, before_activation);
            Ok((before_activation, Some(derivative)))
        } else {
            Ok((before_activation, None))
        }
    }

    /// The weights, one per input.
    pub fn weights(&self) -> (weights: &Vec<T>)
        ensures
            weights@ == self.weight_values(),
    {
        &self.weights
    }

    /// The bias.
    pub fn bias(&self) -> (bias: T)
        ensures
            bias == self.bias_value(),
    {
        self.bias
    }

    /// The activation function of the unit.
    pub fn activation_function(&self) -> (a: &'a A)
        ensures
            *a == self.activation(),
    {
        self.activation_function
    }

    /// The number of weights, which is the number of inputs the unit takes.
    pub fn get_size(&self) -> (n: usize)
        ensures
            n == self.weight_values().len(),
    {
        self.weights.len()
    }

    /// Moves every parameter against its derivative, scaled by
    /// `learning_rate`. A bundle that does not hold one derivative per weight
    /// is refused, and the unit is left as it was.
    pub fn update(&mut self, derivative: &PerceptronDerivative<T>, learning_rate: T) -> (r: Result<
        (),
        NetworkError,
    >)
        ensures
            derivative@.weights.len() != old(self).weight_values().len() ==> {
                &&& r == Err::<(), NetworkError>(NetworkError::GradientLengthMismatch)
                &&& *final(self) == *old(self)
            },
            derivative@.weights.len() == old(self).weight_values().len() ==> {
                &&& r == Ok::<(), NetworkError>(())
                &&& old(self).stepped(derivative@, learning_rate, final(self))
            },
    {
        let n = self.weights.len();
        if derivative.derivatives_w.len() != n {
            return Err(NetworkError::GradientLengthMismatch);
        }
        let mut i: usize = 0;
        while i < n
            invariant
                i <= n,
                n == old(self).weights.len(),
                n == self.weights.len(),
                n == derivative.derivatives_w.len(),
                self.bias == old(self).bias,
                self.activation_function == old(self).activation_function,
                forall|k: int| 0 <= k < i ==> self.weights[k] == old(self).weights[k].difference(
                    learning_rate.product(derivative.derivatives_w[k]),
                ),
                forall|k: int| i <= k < n ==> self.weights[k] == old(self).weights[k],
            decreases n - i,
        {
            let moved = self.weights[i].minus(learning_rate.times(derivative.derivatives_w[i]));
            self.weights[i] = moved;
            i += 1;
        }
        self.bias = self.bias.minus(learning_rate.times(derivative.derivative_b));
        assert(self.weights@ =~= descended(old(self).weights@, derivative@.weights, learning_rate));
        Ok(())
    }

    fn derivative(&self, inputs: &[T], z: T) -> (d: PerceptronDerivative<T>)
        ensures
            d@ == local_gradient(self.activation().slope(z), inputs@),
    {
        let derivative_at_z = self.activation_function.derivative(z);
        let mut derivatives_w: Vec<T> = Vec::new();
        let n = inputs.len();
        let mut j: usize = 0;
        while j < n
            invariant
                j <= n,
                n == inputs@.len(),
                derivatives_w.len() == j,
                forall|k: int| 0 <= k < j ==> derivatives_w[k] == derivative_at_z.product(inputs@[k]),
            decreases n - j,
        {
            derivatives_w.push(derivative_at_z.times(inputs[j]));
            j += 1;
        }
        let d = PerceptronDerivative { derivatives_w, derivative_b: derivative_at_z };
        assert(d@.weights =~= local_gradient(derivative_at_z, inputs@).weights);
        d
    }
}

} // verus!
