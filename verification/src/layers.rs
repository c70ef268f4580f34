//! Layers: what a network is made of.

use vstd::prelude::*;
use crate::derivatives::{fits_layer, layer_view, Gradient, LayerDerivative, PerceptronDerivative};
use crate::error::NetworkError;
use crate::functions::ActivationFunction;
use crate::perceptron::Perceptron;
use crate::scalar::Scalar;

verus! {

/// One stage of a network: it turns a vector of `fan_in` scalars into one of
/// `width` scalars, can report the local gradient of each of its units, and
/// can take a step of gradient descent.
pub trait Layer: Sized {
    /// The numbers that the layer computes with.
    type Value: Scalar;

    /// The number of units, which is the width of the output.
    spec fn width(&self) -> nat;

    /// The width of the input. It means nothing for a layer without units.
    spec fn fan_in(&self) -> nat;

    /// The output for `inputs`.
    spec fn outputs(&self, inputs: Seq<Self::Value>) -> Seq<Self::Value>;

    /// The local gradient of every unit at `inputs`.
    spec fn derivatives(&self, inputs: Seq<Self::Value>) -> Seq<Gradient<Self::Value>>;

    /// Whether `after` is this layer one step of gradient descent along
    /// `derivative` later.
    spec fn stepped(
        &self,
        derivative: Seq<Gradient<Self::Value>>,
        learning_rate: Self::Value,
        after: &Self,
    ) -> bool;

    /// The width of the input, which a layer without units does not have.
    fn get_input_size(&self) -> (r: Result<usize, NetworkError>)
        ensures
            self.width() == 0 ==> r == Err::<usize, NetworkError>(NetworkError::EmptyLayer),
            self.width() > 0 ==> r is Ok && r->Ok_0 == self.fan_in(),
    ;

    /// The number of units.
    fn get_output_size(&self) -> (n: usize)
        ensures
            n == self.width(),
    ;

    /// The layer's output for `inputs` and, where asked for, the local
    /// gradient of every unit, in the order of the units.
    fn feed_forward(&self, inputs: &[Self::Value], return_derivative: bool) -> (r: Result<
        (Vec<Self::Value>, Option<LayerDerivative<Self::Value>>),
        NetworkError,
    >)
        ensures
            self.width() == 0 ==> r == Err::<
                (Vec<Self::Value>, Option<LayerDerivative<Self::Value>>),
                NetworkError,
            >(NetworkError::EmptyLayer),
            self.width() > 0 && inputs@.len() != self.fan_in() ==> r == Err::<
                (Vec<Self::Value>, Option<LayerDerivative<Self::Value>>),
                NetworkError,
            >(NetworkError::DimensionMismatch),
            self.width() > 0 && inputs@.len() == self.fan_in() ==> {
                &&& r is Ok
                &&& r->Ok_0.0@ == self.outputs(inputs@)
                &&& r->Ok_0.0@.len() == self.width()
                &&& return_derivative ==> {
                    &&& r->Ok_0.1 is Some
                    &&& layer_view(r->Ok_0.1->Some_0@) == self.derivatives(inputs@)
                    &&& fits_layer(self.derivatives(inputs@), self.width(), self.fan_in())
                }
                &&& !return_derivative ==> r->Ok_0.1 is None
            },
    ;

    /// Takes one step of gradient descent along `derivative`, unit by unit.
    /// A derivative that does not fit the layer is refused, and the layer is
    /// left as it was. The layer's shape never changes.
    fn update(
        &mut self,
        derivative: &LayerDerivative<Self::Value>,
        learning_rate: Self::Value,
    ) -> (r: Result<(), NetworkError>)
        ensures
            final(self).width() == old(self).width(),
            final(self).fan_in() == old(self).fan_in(),
            fits_layer(layer_view(derivative@), old(self).width(), old(self).fan_in()) ==> {
                &&& r == Ok::<(), NetworkError>(())
                &&& old(self).stepped(layer_view(derivative@), learning_rate, final(self))
            },
            !fits_layer(layer_view(derivative@), old(self).width(), old(self).fan_in()) ==> {
                &&& r == Err::<(), NetworkError>(NetworkError::GradientLengthMismatch)
                &&& *final(self) == *old(self)
            },
    ;
}

/// A layer of perceptrons that take the same inputs. The raw sum of each
/// unit is passed through that unit's activation function; the units that
/// `new` builds share one.
pub struct NeuralLayer<'a, T: Scalar, A: ActivationFunction<T>> {
    perceptrons: Vec<Perceptron<'a, T, A>>,
}

/// Whether all of `units` take the same number of inputs.
pub open spec fn same_size<'a, T: Scalar, A: ActivationFunction<T>>(
    units: Seq<Perceptron<'a, T, A>>,
) -> bool {
    forall|i: int| 0 <= i < units.len() ==> (#[trigger] units[i]).weight_values().len()
        == units[0].weight_values().len()
}

impl<'a, T: Scalar, A: ActivationFunction<T>> View for NeuralLayer<'a, T, A> {
    type V = Seq<Perceptron<'a, T, A>>;

    /// The units of the layer, in order.
    closed spec fn view(&self) -> Seq<Perceptron<'a, T, A>> {
        self.perceptrons@
    }
}

impl<'a, T: Scalar, A: ActivationFunction<T>> NeuralLayer<'a, T, A> {
    /// Every unit of a layer takes the same number of inputs.
    #[verifier::type_invariant]
    pub closed spec fn well_formed(&self) -> bool {
        same_size(self.perceptrons@)
    }

    /// The units of the layer, in order.
    pub fn perceptrons(&self) -> (perceptrons: &Vec<Perceptron<'a, T, A>>)
        ensures
            perceptrons@ == self@,
    {
        &self.perceptrons
    }

    /// A layer of the given units, which must all take the same number of
    /// inputs.
    pub fn with_perceptrons(perceptrons: Vec<Perceptron<'a, T, A>>) -> (r: Result<Self, NetworkError>)
        ensures
            same_size(perceptrons@) ==> r is Ok && r->Ok_0@ == perceptrons@
                && r->Ok_0.well_formed(),
            !same_size(perceptrons@) ==> r is Err && r->Err_0 == NetworkError::DimensionMismatch,
    {
        let n = perceptrons.len();
        if n > 0 {
            let size = perceptrons[0].get_size();
            let mut i: usize = 1;
            while i < n
                invariant
                    1 <= i <= n,
                    n == perceptrons.len(),
                    size == perceptrons[0].weight_values().len(),
                    forall|k: int|
                        0 <= k < i ==> (#[trigger] perceptrons[k]).weight_values().len() == size,
                decreases n - i,
            {
                if perceptrons[i].get_size() != size {
                    return Err(NetworkError::DimensionMismatch);
                }
                i += 1;
            }
        }
        Ok(NeuralLayer { perceptrons })
    }

    /// A layer of `output_size` units with `input_size` weights each, every
    /// parameter drawn from `weight_initializer`.
    pub fn new<F: Fn() -> T>(
        activation_function: &'a A,
        weight_initializer: F,
        input_size: usize,
        output_size: usize,
    ) -> (layer: Self)
        requires
            call_requires(weight_initializer, ()),
        ensures
            layer.well_formed(),
            layer@.len() == output_size,
            forall|i: int|
                0 <= i < output_size ==> {
                    &&& (#[trigger] layer@[i]).weight_values().len() == input_size
                    &&& layer@[i].activation() == *activation_function
                    &&& call_ensures(weight_initializer, (), layer@[i].bias_value())
                    &&& forall|j: int|
                        0 <= j < input_size ==> call_ensures(
                            weight_initializer,
                            (),
                            #[trigger] layer@[i].weight_values()[j],
                        )
                },
    {
        let mut perceptrons: Vec<Perceptron<'a, T, A>> = Vec::new();
        let mut i: usize = 0;
        while i < output_size
            invariant
                i <= output_size,
                perceptrons.len() == i,
                call_requires(weight_initializer, ()),
                forall|k: int|
                    0 <= k < i ==> {
                        &&& (#[trigger] perceptrons[k]).weight_values().len() == input_size
                        &&& perceptrons[k].activation() == *activation_function
                        &&& call_ensures(weight_initializer, (), perceptrons[k].bias_value())
                        &&& forall|j: int|
                            0 <= j < input_size ==> call_ensures(
                                weight_initializer,
                                (),
                                #[trigger] perceptrons[k].weight_values()[j],
                            )
                    },
            decreases output_size - i,
        {
            perceptrons.push(Perceptron::new(&weight_initializer, input_size, activation_function));
            i += 1;
        }
        NeuralLayer { perceptrons }
    }
}

/// Whether unit `i` of `after` is unit `i` of `before` one step of gradient
/// descent along `derivative[i]` later, for every `i`.
pub open spec fn units_stepped<'a, T: Scalar, A: ActivationFunction<T>>(
    before: Seq<Perceptron<'a, T, A>>,
    derivative: Seq<Gradient<T>>,
    learning_rate: T,
    after: Seq<Perceptron<'a, T, A>>,
) -> bool {
    &&& after.len() == before.len()
    &&& forall|i: int|
        0 <= i < before.len() ==> (#[trigger] before[i]).stepped(derivative[i], learning_rate, &after[i])
}

fn step_units<'a, T: Scalar, A: ActivationFunction<T>>(
    perceptrons: &mut Vec<Perceptron<'a, T, A>>,
    derivative: &LayerDerivative<T>,
    learning_rate: T,
)
    requires
        derivative.len() == old(perceptrons).len(),
        forall|i: int|
            0 <= i < derivative.len() ==> (#[trigger] layer_view(derivative@)[i]).weights.len()
                == old(perceptrons)[i].weight_values().len(),
    ensures
        units_stepped(old(perceptrons)@, layer_view(derivative@), learning_rate, final(perceptrons)@),
        forall|i: int|
            0 <= i < derivative.len() ==> (#[trigger] final(perceptrons)[i]).weight_values().len()
                == old(perceptrons)[i].weight_values().len(),
{
    let n = perceptrons.len();
    let mut i: usize = 0;
    while i < n
        invariant
            i <= n,
            n == perceptrons.len(),
            n == old(perceptrons).len(),
            n == derivative.len(),
            forall|k: int|
                0 <= k < n ==> (#[trigger] layer_view(derivative@)[k]).weights.len() == old(
                    perceptrons,
                )[k].weight_values().len(),
            forall|k: int|
                0 <= k < i ==> (#[trigger] old(perceptrons)[k]).stepped(
                    layer_view(derivative@)[k],
                    learning_rate,
                    &perceptrons[k],
                ),
            forall|k: int| i <= k < n ==> perceptrons[k] == old(perceptrons)[k],
        decreases n - i,
    {
        assert(derivative[i as int]@ == layer_view(derivative@)[i as int]);
        let _ = perceptrons[i].update(&derivative[i], learning_rate);
        i += 1;
    }
}

impl<'a, T: Scalar, A: ActivationFunction<T>> Layer for NeuralLayer<'a, T, A> {
    type Value = T;

    open spec fn width(&self) -> nat {
        self@.len()
    }

    open spec fn fan_in(&self) -> nat {
        if self@.len() > 0 {
            self@[0].weight_values().len()
        } else {
            0
        }
    }

    open spec fn outputs(&self, inputs: Seq<T>) -> Seq<T> {
        Seq::new(
            self@.len(),
            |i: int| self@[i].activation().activation(self@[i].pre_activation(inputs)),
        )
    }

    open spec fn derivatives(&self, inputs: Seq<T>) -> Seq<Gradient<T>> {
        Seq::new(self@.len(), |i: int| self@[i].gradient(inputs))
    }

    open spec fn stepped(&self, derivative: Seq<Gradient<T>>, learning_rate: T, after: &Self) -> bool {
        units_stepped(self@, derivative, learning_rate, after@)
    }

    fn get_input_size(&self) -> (r: Result<usize, NetworkError>) {
        if self.perceptrons.len() == 0 {
            Err(NetworkError::EmptyLayer)
        } else {
            Ok(self.perceptrons[0].get_size())
        }
    }

    fn get_output_size(&self) -> (n: usize) {
        self.perceptrons.len()
    }

    fn feed_forward(&self, inputs: &[T], return_derivative: bool) -> (r: Result<
        (Vec<T>, Option<LayerDerivative<T>>),
        NetworkError,
    >) {
        proof {
            use_type_invariant(self);
        }
        let n = self.perceptrons.len();
        if n == 0 {
            return Err(NetworkError::EmptyLayer);
        }
        if inputs.len() != self.perceptrons[0].get_size() {
            return Err(NetworkError::DimensionMismatch);
        }
        let mut outputs: Vec<T> = Vec::new();
        let mut derivatives: Vec<PerceptronDerivative<T>> = Vec::new();
        let mut i: usize = 0;
        while i < n
            invariant
                i <= n,
                n == self.perceptrons.len(),
                same_size(self.perceptrons@),
                inputs@.len() == self.perceptrons[0].weight_values().len(),
                outputs.len() == i,
                return_derivative ==> derivatives.len() == i,
                forall|k: int|
                    0 <= k < i ==> outputs[k] == self.perceptrons[k].activation().activation(
                        self.perceptrons[k].pre_activation(inputs@),
                    ),
                return_derivative ==> forall|k: int|
                    0 <= k < i ==> (#[trigger] derivatives[k])@ == self.perceptrons[k].gradient(inputs@),
            decreases n - i,
        {
            let perceptron = &self.perceptrons[i];
            match perceptron.feed_forward(inputs, return_derivative) {
                Ok((z, derivative)) => {
                    outputs.push(perceptron.activation_function().activate(z));
                    if let Some(d) = derivative {
                        derivatives.push(d);
                    }
                },
                Err(e) => {
                    return Err(e);
                },
            }
            i += 1;
        }
        assert(outputs@ =~= self.outputs(inputs@));
        if return_derivative {
            assert(layer_view(derivatives@) =~= self.derivatives(inputs@));
            Ok((outputs, Some(derivatives)))
        } else {
            Ok((outputs, None))
        }
    }

    fn update(&mut self, derivative: &LayerDerivative<T>, learning_rate: T) -> (r: Result<
        (),
        NetworkError,
    >) {
        proof {
            use_type_invariant(&*self);
        }
        let n = self.perceptrons.len();
        if derivative.len() != n {
            return Err(NetworkError::GradientLengthMismatch);
        }
        let mut i: usize = 0;
        while i < n
            invariant
                i <= n,
                n == self.perceptrons.len(),
                n == derivative.len(),
                same_size(self.perceptrons@),
                *self == *old(self),
                forall|k: int|
                    0 <= k < i ==> (#[trigger] layer_view(derivative@)[k]).weights.len()
                        == self.perceptrons[0].weight_values().len(),
            decreases n - i,
        {
            if derivative[i].derivatives_w.len() != self.perceptrons[i].get_size() {
                assert(layer_view(derivative@)[i as int].weights.len() != self.fan_in());
                return Err(NetworkError::GradientLengthMismatch);
            }
            i += 1;
        }
        // The units leave the layer while they change: the layer's invariant
        // speaks of all of them at once.
        let mut perceptrons: Vec<Perceptron<'a, T, A>> = Vec::new();
        std::mem::swap(&mut self.perceptrons, &mut perceptrons);
        assert forall|k: int| 0 <= k < n implies (#[trigger] layer_view(derivative@)[k]).weights.len()
            == perceptrons[k].weight_values().len() by {
            assert(perceptrons[k].weight_values().len() == perceptrons[0].weight_values().len());
        }
        step_units(&mut perceptrons, derivative, learning_rate);
        self.perceptrons = perceptrons;
        Ok(())
    }
}

} // verus!
