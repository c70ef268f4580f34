//! Networks: layers in sequence, with the forward pass and training by
//! backpropagation.

use vstd::prelude::*;
use vstd::slice::slice_to_vec;
use crate::derivatives::{
    fits_layer, layer_view, network_view, scaled_layer, Gradient, LayerDerivative, NetworkDerivative,
};
use crate::error::NetworkError;
use crate::functions::CostFunction;
use crate::layers::Layer;
use crate::scalar::Scalar;

verus! {

/// Whether `second` can take what `first` puts out: it has an input width,
/// and that is the output width of `first`.
pub open spec fn fits_after<L: Layer>(first: &L, second: &L) -> bool {
    second.width() > 0 && first.width() == second.fan_in()
}

/// Whether every layer but the first fits after the one before it.
pub open spec fn chained<L: Layer>(layers: Seq<L>) -> bool {
    forall|i: int| 0 <= i < layers.len() - 1 ==> fits_after(#[trigger] &layers[i], &layers[i + 1])
}

/// What the first `k` of `layers` make of `input`, each layer fed with the
/// output of the one before it.
pub open spec fn propagated<L: Layer>(layers: Seq<L>, input: Seq<L::Value>, k: nat) -> Seq<L::Value>
    decreases k,
{
    if k == 0 {
        input
    } else {
        layers[k - 1].outputs(propagated(layers, input, (k - 1) as nat))
    }
}

/// The local gradients of every layer during the forward pass on `input`,
/// first layer first.
pub open spec fn captured<L: Layer>(layers: Seq<L>, input: Seq<L::Value>) -> Seq<
    Seq<Gradient<L::Value>>,
> {
    Seq::new(layers.len(), |k: int| layers[k].derivatives(propagated(layers, input, k as nat)))
}

/// Why a forward pass on an input of `input_len` scalars is refused, if it
/// is. Only the first layer can refuse: the layers after it fit.
pub open spec fn forward_fault<L: Layer>(layers: Seq<L>, input_len: nat) -> Option<NetworkError> {
    if layers.len() == 0 {
        None
    } else if layers[0].width() == 0 {
        Some(NetworkError::EmptyLayer)
    } else if input_len != layers[0].fan_in() {
        Some(NetworkError::DimensionMismatch)
    } else {
        None
    }
}

/// The part of entry `j` of the error handed to the layer before, summed
/// over the first `n` units: `error[i] * layer[i].weights[j]` for each unit
/// `i`, added to zero from the left.
pub open spec fn chain_sum<T: Scalar>(layer: Seq<Gradient<T>>, error: Seq<T>, j: int, n: nat) -> T
    decreases n,
{
    if n == 0 {
        T::of_count(0)
    } else {
        chain_sum(layer, error, j, (n - 1) as nat).sum(error[n - 1].product(layer[n - 1].weights[j]))
    }
}

/// The error to hand to the layer before: one entry per input of `layer`.
pub open spec fn next_backprop_error<T: Scalar>(layer: Seq<Gradient<T>>, error: Seq<T>) -> Seq<T> {
    Seq::new(layer[0].weights.len(), |j: int| chain_sum(layer, error, j, layer.len()))
}

/// Why a layer derivative cannot take an error of `error_len` entries, if
/// it cannot: it has no bundle, or not one bundle per entry of the error, or
/// bundles of different lengths.
pub open spec fn layer_fault<T>(layer: Seq<Gradient<T>>, error_len: nat) -> Option<NetworkError> {
    if layer.len() == 0 {
        Some(NetworkError::EmptyLayer)
    } else if layer.len() != error_len || !fits_layer(layer, layer.len(), layer[0].weights.len()) {
        Some(NetworkError::GradientLengthMismatch)
    } else {
        None
    }
}

/// The width of the error that reaches layer `k` during backpropagation:
/// that of the cost gradient for the last layer, and the input width of
/// layer `k + 1` for the others.
pub open spec fn error_width<T>(derivative: Seq<Seq<Gradient<T>>>, cost_len: nat, k: int) -> nat {
    if k + 1 >= derivative.len() {
        cost_len
    } else {
        derivative[k + 1][0].weights.len()
    }
}

/// The first fault that backpropagation meets on its way from the last
/// layer down to layer `k`, if it meets one.
pub open spec fn backprop_fault<T>(derivative: Seq<Seq<Gradient<T>>>, cost_len: nat, k: int) -> Option<
    NetworkError,
>
    decreases derivative.len() - k,
{
    if k >= derivative.len() {
        None
    } else {
        match backprop_fault(derivative, cost_len, k + 1) {
            Some(e) => Some(e),
            None => layer_fault(derivative[k], error_width(derivative, cost_len, k)),
        }
    }
}

/// The error that reaches layer `k` during backpropagation: the cost
/// gradient for the last layer; for the others, what layer `k + 1`, once
/// scaled by its own error, hands down.
pub open spec fn error_at<T: Scalar>(
    derivative: Seq<Seq<Gradient<T>>>,
    cost_gradient: Seq<T>,
    k: int,
) -> Seq<T>
    decreases derivative.len() - k,
{
    if k + 1 >= derivative.len() {
        cost_gradient
    } else {
        let above = error_at(derivative, cost_gradient, k + 1);
        next_backprop_error(scaled_layer(derivative[k + 1], above), above)
    }
}

/// The gradient of the cost with respect to every parameter, as
/// backpropagation computes it: each layer's local gradients scaled by the
/// error that reaches the layer.
pub open spec fn backpropagated<T: Scalar>(
    derivative: Seq<Seq<Gradient<T>>>,
    cost_gradient: Seq<T>,
) -> Seq<Seq<Gradient<T>>> {
    Seq::new(
        derivative.len(),
        |k: int| scaled_layer(derivative[k], error_at(derivative, cost_gradient, k)),
    )
}

/// The width of what `layers` make of an input of `input_len` scalars.
pub open spec fn output_width<L: Layer>(layers: Seq<L>, input_len: nat) -> nat {
    if layers.len() == 0 {
        input_len
    } else {
        layers.last().width()
    }
}

/// Whether the local gradients captured on `input` have the shape of the
/// layers they come from, none of which is empty.
pub open spec fn captured_fits<L: Layer>(layers: Seq<L>, input: Seq<L::Value>) -> bool {
    forall|k: int|
        0 <= k < layers.len() ==> (#[trigger] layers[k]).width() > 0 && fits_layer(
            captured(layers, input)[k],
            layers[k].width(),
            layers[k].fan_in(),
        )
}

/// Whether layer `k` of `after` is layer `k` of `before` one step of
/// gradient descent along `gradient[k]` later, for every `k`.
pub open spec fn layers_stepped<L: Layer>(
    before: Seq<L>,
    gradient: Seq<Seq<Gradient<L::Value>>>,
    learning_rate: L::Value,
    after: Seq<L>,
) -> bool {
    &&& after.len() == before.len()
    &&& forall|k: int|
        0 <= k < before.len() ==> (#[trigger] before[k]).stepped(gradient[k], learning_rate, &after[k])
}

/// Whether the layers of `after` have the widths of those of `before`.
pub open spec fn same_shape<L: Layer>(before: Seq<L>, after: Seq<L>) -> bool {
    &&& after.len() == before.len()
    &&& forall|k: int|
        0 <= k < before.len() ==> (#[trigger] after[k]).width() == before[k].width() && after[k].fan_in()
            == before[k].fan_in()
}

/// At the output layer, backpropagation is the chain rule itself: the
/// gradient of the cost with respect to the parameters of unit `i` is the
/// unit's local gradient times entry `i` of the cost gradient.
pub proof fn lemma_output_layer_gradient<L: Layer>(
    layers: Seq<L>,
    input: Seq<L::Value>,
    cost_gradient: Seq<L::Value>,
)
    requires
        layers.len() > 0,
    ensures
        backpropagated(captured(layers, input), cost_gradient)[layers.len() - 1] == scaled_layer(
            layers.last().derivatives(propagated(layers, input, (layers.len() - 1) as nat)),
            cost_gradient,
        ),
{
}

/// A fault met above layer `j` is the fault met on the whole way down.
proof fn lemma_fault_persists<T>(
    derivative: Seq<Seq<Gradient<T>>>,
    cost_len: nat,
    j: int,
    e: NetworkError,
)
    requires
        0 <= j <= derivative.len(),
        backprop_fault(derivative, cost_len, j) == Some(e),
    ensures
        backprop_fault(derivative, cost_len, 0) == Some(e),
    decreases j,
{
    if j > 0 {
        lemma_fault_persists(derivative, cost_len, j - 1, e);
    }
}

/// Where the whole way down is free of faults, so is every layer on it.
proof fn lemma_fault_free<T>(derivative: Seq<Seq<Gradient<T>>>, cost_len: nat, j: int, k: int)
    requires
        0 <= j <= k < derivative.len(),
        backprop_fault(derivative, cost_len, j) is None,
    ensures
        layer_fault(derivative[k], error_width(derivative, cost_len, k)) is None,
    decreases k - j,
{
    if j < k {
        lemma_fault_free(derivative, cost_len, j + 1, k);
    }
}

/// Backpropagation meets no fault on what a forward pass captured, given a
/// cost gradient as wide as the network's output.
proof fn lemma_captured_is_fault_free<L: Layer>(
    layers: Seq<L>,
    input: Seq<L::Value>,
    cost_len: nat,
    k: int,
)
    requires
        0 <= k <= layers.len(),
        chained(layers),
        captured_fits(layers, input),
        layers.len() > 0 ==> cost_len == layers.last().width(),
    ensures
        backprop_fault(captured(layers, input), cost_len, k) is None,
    decreases layers.len() - k,
{
    if k < layers.len() {
        lemma_captured_is_fault_free(layers, input, cost_len, k + 1);
        let derivative = captured(layers, input);
        assert(layers[k].width() > 0);
        if k + 1 < layers.len() {
            assert(fits_after(&layers[k], &layers[k + 1]));
            assert(layers[k + 1].width() > 0);
            assert(derivative[k + 1][0].weights.len() == layers[k + 1].fan_in());
        }
        assert(derivative[k].len() == error_width(derivative, cost_len, k));
        assert(fits_layer(derivative[k], derivative[k].len(), derivative[k][0].weights.len()));
    }
}

fn check_layer<T>(layer: &LayerDerivative<T>, error_len: usize) -> (r: Option<NetworkError>)
    ensures
        r == layer_fault(layer_view(layer@), error_len as nat),
{
    let n = layer.len();
    if n == 0 {
        return Some(NetworkError::EmptyLayer);
    }
    if n != error_len {
        return Some(NetworkError::GradientLengthMismatch);
    }
    let width = layer[0].derivatives_w.len();
    let mut i: usize = 1;
    while i < n
        invariant
            1 <= i <= n,
            n == layer.len(),
            n == error_len,
            width == layer_view(layer@)[0].weights.len(),
            forall|k: int| 0 <= k < i ==> (#[trigger] layer_view(layer@)[k]).weights.len() == width,
        decreases n - i,
    {
        if layer[i].derivatives_w.len() != width {
            assert(layer_view(layer@)[i as int].weights.len() != width);
            return Some(NetworkError::GradientLengthMismatch);
        }
        i += 1;
    }
    None
}

/// A sequence of layers in which each layer's output is the next one's
/// input. The layers are fixed at construction; only their parameters
/// change afterwards.
pub struct Network<L: Layer> {
    layers: Vec<L>,
}

impl<L: Layer> View for Network<L> {
    type V = Seq<L>;

    /// The layers, first layer first.
    closed spec fn view(&self) -> Seq<L> {
        self.layers@
    }
}

impl<L: Layer> Network<L> {
    /// Each layer fits after the one before it.
    #[verifier::type_invariant]
    pub closed spec fn well_formed(&self) -> bool {
        chained(self.layers@)
    }

    /// A network of the given layers, which must fit one after the other.
    pub fn new(layers: Vec<L>) -> (r: Result<Self, NetworkError>)
        ensures
            chained(layers@) ==> r is Ok && r->Ok_0@ == layers@ && r->Ok_0.well_formed(),
            !chained(layers@) ==> r is Err && r->Err_0 == NetworkError::InvalidTopology,
    {
        if Self::verify_layer_dimensions(&layers) {
            Ok(Network { layers })
        } else {
            Err(NetworkError::InvalidTopology)
        }
    }

    fn verify_layer_dimensions(layers: &Vec<L>) -> (ok: bool)
        ensures
            ok == chained(layers@),
    {
        let n = layers.len();
        let mut i: usize = 1;
        while i < n
            invariant
                1 <= i,
                n == layers.len(),
                forall|k: int| 0 <= k < i - 1 ==> fits_after(#[trigger] &layers[k], &layers[k + 1]),
            decreases n - i,
        {
            let fits = match layers[i].get_input_size() {
                Ok(input_size) => layers[i - 1].get_output_size() == input_size,
                Err(_) => false,
            };
            if !fits {
                assert(!fits_after(&layers[i - 1], &layers[i as int]));
                return false;
            }
            i += 1;
        }
        true
    }

    /// The layers, first layer first.
    pub fn layers(&self) -> (layers: &Vec<L>)
        ensures
            layers@ == self@,
    {
        &self.layers
    }

    /// Whether `r` is the outcome of a forward pass on `input`: the fault, if
    /// the pass is refused; else the output of the last layer and, where
    /// asked for, what was captured on the way.
    pub open spec fn forward_outcome(
        &self,
        input: Seq<L::Value>,
        return_derivative: bool,
        r: Result<(Vec<L::Value>, Option<NetworkDerivative<L::Value>>), NetworkError>,
    ) -> bool {
        match forward_fault(self@, input.len()) {
            Some(e) => r is Err && r->Err_0 == e,
            None => {
                &&& r is Ok
                &&& r->Ok_0.0@ == propagated(self@, input, self@.len())
                &&& return_derivative ==> r->Ok_0.1 is Some && network_view(r->Ok_0.1->Some_0@)
                    == captured(self@, input)
                &&& !return_derivative ==> r->Ok_0.1 is None
            },
        }
    }

    /// The forward pass is a function of the network and the input: two
    /// outcomes of passes on the same input agree, in the fault if they are
    /// refused, else in the output and in what was captured.
    pub proof fn lemma_forward_pass_is_deterministic(
        &self,
        input: Seq<L::Value>,
        return_derivative: bool,
        first: Result<(Vec<L::Value>, Option<NetworkDerivative<L::Value>>), NetworkError>,
        second: Result<(Vec<L::Value>, Option<NetworkDerivative<L::Value>>), NetworkError>,
    )
        requires
            self.forward_outcome(input, return_derivative, first),
            self.forward_outcome(input, return_derivative, second),
        ensures
            first is Err <==> second is Err,
            first is Err ==> first->Err_0 == second->Err_0,
            first is Ok ==> first->Ok_0.0@ == second->Ok_0.0@,
            first is Ok ==> (first->Ok_0.1 is Some <==> second->Ok_0.1 is Some),
            first is Ok && first->Ok_0.1 is Some ==> network_view(first->Ok_0.1->Some_0@) == network_view(
                second->Ok_0.1->Some_0@,
            ),
    {
    }

    /// The network's output for `input` and, where asked for, the local
    /// gradients of all units, first layer first. The network itself is
    /// not changed.
    pub fn feed_forward(&self, input: Vec<L::Value>, return_derivative: bool) -> (r: Result<
        (Vec<L::Value>, Option<NetworkDerivative<L::Value>>),
        NetworkError,
    >)
        ensures
            self.forward_outcome(input@, return_derivative, r),
            r is Ok ==> r->Ok_0.0@.len() == output_width(self@, input@.len()),
            r is Ok && return_derivative ==> captured_fits(self@, input@),
    {
        proof {
            use_type_invariant(self);
        }
        let n = self.layers.len();
        let ghost given = input@;
        let mut derivative: NetworkDerivative<L::Value> = Vec::new();
        let mut current = input;
        let mut k: usize = 0;
        while k < n
            invariant
                k <= n,
                n == self.layers.len(),
                given == input@,
                chained(self.layers@),
                k > 0 ==> forward_fault(self.layers@, given.len()) is None,
                current@ == propagated(self.layers@, given, k as nat),
                k > 0 ==> current@.len() == self.layers[k - 1].width(),
                k == 0 ==> current@ == given,
                return_derivative ==> derivative.len() == k,
                return_derivative ==> forall|m: int|
                    0 <= m < k ==> layer_view((#[trigger] derivative[m])@) == self.layers[m].derivatives(
                        propagated(self.layers@, given, m as nat),
                    ),
                return_derivative ==> forall|m: int|
                    0 <= m < k ==> (#[trigger] self.layers[m]).width() > 0 && fits_layer(
                        self.layers[m].derivatives(propagated(self.layers@, given, m as nat)),
                        self.layers[m].width(),
                        self.layers[m].fan_in(),
                    ),
            decreases n - k,
        {
            assert(k > 0 ==> fits_after(&self.layers[k - 1], &self.layers[k as int]));
            match self.layers[k].feed_forward(current.as_slice(), return_derivative) {
                Ok((output, layer_derivative)) => {
                    current = output;
                    if let Some(d) = layer_derivative {
                        derivative.push(d);
                    }
                },
                Err(e) => {
                    return Err(e);
                },
            }
            k += 1;
        }
        if return_derivative {
            assert(network_view(derivative@) =~= captured(self.layers@, given));
            Ok((current, Some(derivative)))
        } else {
            Ok((current, None))
        }
    }

    /// Whether `after` is this network with every layer one step of gradient
    /// descent later, along the gradient that backpropagation computes for
    /// `input`, `expected` and `cost_function`.
    pub open spec fn trained<C: CostFunction<L::Value>>(
        &self,
        input: Seq<L::Value>,
        expected: Seq<L::Value>,
        cost_function: &C,
        learning_rate: L::Value,
        after: &Self,
    ) -> bool {
        let output = propagated(self@, input, self@.len());
        layers_stepped(
            self@,
            backpropagated(captured(self@, input), cost_function.gradient(output, expected)),
            learning_rate,
            after@,
        )
    }

    /// Why a training step on `input` is refused, if it is: the forward
    /// pass is refused, or the cost gradient is not as wide as the output.
    pub open spec fn training_fault<C: CostFunction<L::Value>>(
        &self,
        input: Seq<L::Value>,
        expected: Seq<L::Value>,
        cost_function: &C,
    ) -> Option<NetworkError> {
        let output = propagated(self@, input, self@.len());
        match forward_fault(self@, input.len()) {
            Some(e) => Some(e),
            None => if cost_function.gradient(output, expected).len() != output.len() {
                Some(NetworkError::DimensionMismatch)
            } else {
                None
            },
        }
    }

    /// One step of supervised training: a forward pass on `input`, the cost
    /// of its output against `expected`, backpropagation of the cost's
    /// gradient, and one step of gradient descent in every layer. Returns
    /// the cost, which is that of the output before the step.
    ///
    /// A refused step changes nothing.
    pub fn train<C: CostFunction<L::Value>>(
        &mut self,
        input: Vec<L::Value>,
        expected: Vec<L::Value>,
        cost_function: &C,
        learning_rate: L::Value,
    ) -> (r: Result<L::Value, NetworkError>)
        ensures
            final(self).well_formed(),
            same_shape(old(self)@, final(self)@),
            old(self).training_fault(input@, expected@, cost_function) matches Some(e) ==> {
                &&& r is Err
                &&& r->Err_0 == e
                &&& *final(self) == *old(self)
            },
            old(self).training_fault(input@, expected@, cost_function) is None ==> {
                &&& r is Ok
                &&& r->Ok_0 == cost_function.cost_value(
                    propagated(old(self)@, input@, old(self)@.len()),
                    expected@,
                )
                &&& old(self).trained(input@, expected@, cost_function, learning_rate, final(self))
            },
    {
        proof {
            use_type_invariant(&*self);
        }
        let ghost given = input@;
        let (output, derivative_option) = match self.feed_forward(input, true) {
            Ok(pair) => pair,
            Err(e) => {
                return Err(e);
            },
        };
        let mut unwrapped_derivative = derivative_option.unwrap();
        let cost = cost_function.cost(output.as_slice(), expected.as_slice());
        let cost_derivative = cost_function.derivative(output.as_slice(), expected.as_slice());
        if cost_derivative.len() != output.len() {
            return Err(NetworkError::DimensionMismatch);
        }
        proof {
            lemma_captured_is_fault_free(self.layers@, given, cost_derivative@.len(), 0);
        }
        let ghost local = network_view(unwrapped_derivative@);
        match Self::calculate_gradient(&mut unwrapped_derivative, cost_derivative.as_slice()) {
            Ok(()) => {},
            Err(e) => {
                return Err(e);
            },
        }
        proof {
            let gradient = network_view(unwrapped_derivative@);
            assert(local.len() == self.layers@.len());
            assert(gradient.len() == local.len());
            assert forall|k: int| 0 <= k < self.layers@.len() implies fits_layer(
                #[trigger] gradient[k],
                self.layers@[k].width(),
                self.layers@[k].fan_in(),
            ) by {
                assert(self.layers@[k].width() > 0);
                assert(fits_layer(local[k], self.layers@[k].width(), self.layers@[k].fan_in()));
                assert forall|i: int| 0 <= i < gradient[k].len() implies (#[trigger] gradient[k][i]).weights.len()
                    == self.layers@[k].fan_in() by {
                    assert(local[k][i].weights.len() == self.layers@[k].fan_in());
                }
            }
        }
        self.update(unwrapped_derivative, learning_rate);
        Ok(cost)
    }

    fn update(&mut self, gradient: NetworkDerivative<L::Value>, learning_rate: L::Value)
        requires
            gradient.len() == old(self)@.len(),
            forall|k: int|
                0 <= k < gradient.len() ==> fits_layer(
                    #[trigger] network_view(gradient@)[k],
                    old(self)@[k].width(),
                    old(self)@[k].fan_in(),
                ),
        ensures
            final(self).well_formed(),
            same_shape(old(self)@, final(self)@),
            layers_stepped(
                old(self)@,
                network_view(gradient@),
                learning_rate,
                final(self)@,
            ),
    {
        proof {
            use_type_invariant(&*self);
        }
        // The layers leave the network while they change: the network's
        // invariant speaks of all of them at once.
        let mut layers: Vec<L> = Vec::new();
        std::mem::swap(&mut self.layers, &mut layers);
        let ghost before = layers@;
        let n = layers.len();
        let mut k: usize = 0;
        while k < n
            invariant
                k <= n,
                n == layers.len(),
                n == before.len(),
                n == gradient.len(),
                chained(before),
                forall|m: int|
                    0 <= m < n ==> fits_layer(
                        #[trigger] network_view(gradient@)[m],
                        before[m].width(),
                        before[m].fan_in(),
                    ),
                forall|m: int|
                    0 <= m < n ==> (#[trigger] layers[m]).width() == before[m].width() && layers[m].fan_in()
                        == before[m].fan_in(),
                forall|m: int|
                    0 <= m < k ==> (#[trigger] before[m]).stepped(
                        network_view(gradient@)[m],
                        learning_rate,
                        &layers[m],
                    ),
                forall|m: int| k <= m < n ==> layers[m] == before[m],
            decreases n - k,
        {
            assert(layer_view(gradient[k as int]@) == network_view(gradient@)[k as int]);
            let _ = layers[k].update(&gradient[k], learning_rate);
            k += 1;
        }
        assert(chained(layers@)) by {
            assert forall|i: int| 0 <= i < layers@.len() - 1 implies fits_after(
                #[trigger] &layers@[i],
                &layers@[i + 1],
            ) by {
                assert(fits_after(&before[i], &before[i + 1]));
            }
        }
        self.layers = layers;
    }

    /// Turns the local gradients of a forward pass into the gradient of the
    /// cost: walking from the last layer to the first, each layer's bundles
    /// are scaled by the error that reaches the layer, and the error for the
    /// layer before is computed from the scaled bundles. The walk starts
    /// with `cost_derivative` as the error.
    ///
    /// A derivative whose shape does not allow the walk is refused and left
    /// as it was.
    pub fn calculate_gradient(
        unwrapped_derivative: &mut NetworkDerivative<L::Value>,
        cost_derivative: &[L::Value],
    ) -> (r: Result<(), NetworkError>)
        ensures
            backprop_fault(network_view(old(unwrapped_derivative)@), cost_derivative@.len(), 0)
                matches Some(e) ==> {
                &&& r == Err::<(), NetworkError>(e)
                &&& *final(unwrapped_derivative) == *old(unwrapped_derivative)
            },
            backprop_fault(network_view(old(unwrapped_derivative)@), cost_derivative@.len(), 0)
                is None ==> {
                &&& r == Ok::<(), NetworkError>(())
                &&& network_view(final(unwrapped_derivative)@) == backpropagated(
                    network_view(old(unwrapped_derivative)@),
                    cost_derivative@,
                )
            },
    {
        let n = unwrapped_derivative.len();
        let ghost before = network_view(unwrapped_derivative@);
        let ghost cost_len = cost_derivative@.len();
        let mut width = cost_derivative.len();
        let mut k: usize = n;
        while k > 0
            invariant
                k <= n,
                n == unwrapped_derivative.len(),
                *unwrapped_derivative == *old(unwrapped_derivative),
                before == network_view(unwrapped_derivative@),
                cost_len == cost_derivative@.len(),
                backprop_fault(before, cost_len, k as int) is None,
                width == error_width(before, cost_len, k - 1),
            decreases k,
        {
            k -= 1;
            if let Some(e) = check_layer(&unwrapped_derivative[k], width) {
                proof {
                    lemma_fault_persists(before, cost_len, k as int, e);
                }
                return Err(e);
            }
            width = unwrapped_derivative[k][0].derivatives_w.len();
        }
        let mut backprop_error = slice_to_vec(cost_derivative);
        let mut k: usize = n;
        while k > 0
            invariant
                k <= n,
                n == unwrapped_derivative.len(),
                n == before.len(),
                before == network_view(old(unwrapped_derivative)@),
                cost_len == cost_derivative@.len(),
                backprop_fault(before, cost_len, 0) is None,
                backprop_error@ == error_at(before, cost_derivative@, k - 1),
                backprop_error@.len() == error_width(before, cost_len, k - 1),
                forall|m: int|
                    0 <= m < k ==> layer_view((#[trigger] unwrapped_derivative[m])@) == before[m],
                forall|m: int|
                    k <= m < n ==> layer_view((#[trigger] unwrapped_derivative[m])@) == scaled_layer(
                        before[m],
                        error_at(before, cost_derivative@, m),
                    ),
            decreases k,
        {
            k -= 1;
            proof {
                lemma_fault_free(before, cost_len, 0, k as int);
            }
            Self::multiply_layer_derivative_by_vector(&mut unwrapped_derivative[k], &backprop_error);
            let ghost scaled = layer_view(unwrapped_derivative[k as int]@);
            assert(scaled[0].weights.len() == before[k as int][0].weights.len());
            assert(fits_layer(scaled, scaled.len(), scaled[0].weights.len())) by {
                assert forall|i: int| 0 <= i < scaled.len() implies (#[trigger] scaled[i]).weights.len()
                    == scaled[0].weights.len() by {
                    assert(before[k as int][i].weights.len() == before[k as int][0].weights.len());
                }
            }
            match Self::calculate_next_backprop_error(&unwrapped_derivative[k], backprop_error.as_slice()) {
                Ok(next) => {
                    backprop_error = next;
                },
                Err(e) => {
                    return Err(e);
                },
            }
        }
        assert(network_view(unwrapped_derivative@) =~= backpropagated(before, cost_derivative@));
        Ok(())
    }

    /// The error to hand to the layer before `layer_derivative`, whose
    /// bundles have already been scaled: entry `j` is the sum over the units
    /// `i` of `current_backprop_error[i] * derivatives_w[i][j]`.
    pub fn calculate_next_backprop_error(
        layer_derivative: &LayerDerivative<L::Value>,
        current_backprop_error: &[L::Value],
    ) -> (r: Result<Vec<L::Value>, NetworkError>)
        ensures
            layer_fault(layer_view(layer_derivative@), current_backprop_error@.len())
                matches Some(e) ==> r is Err && r->Err_0 == e,
            layer_fault(layer_view(layer_derivative@), current_backprop_error@.len()) is None ==> {
                &&& r is Ok
                &&& r->Ok_0@ == next_backprop_error(
                    layer_view(layer_derivative@),
                    current_backprop_error@,
                )
            },
    {
        if let Some(e) = check_layer(layer_derivative, current_backprop_error.len()) {
            return Err(e);
        }
        let ghost layer = layer_view(layer_derivative@);
        let n = layer_derivative.len();
        let width = layer_derivative[0].derivatives_w.len();
        let mut next_backprop_error: Vec<L::Value> = Vec::new();
        let mut j: usize = 0;
        while j < width
            invariant
                j <= width,
                next_backprop_error.len() == j,
                forall|c: int|
                    0 <= c < j ==> next_backprop_error[c] == chain_sum(
                        layer,
                        current_backprop_error@,
                        c,
                        0,
                    ),
            decreases width - j,
        {
            next_backprop_error.push(L::Value::from_count(0));
            j += 1;
        }
        let mut i: usize = 0;
        while i < n
            invariant
                i <= n,
                n == layer_derivative.len(),
                n == current_backprop_error@.len(),
                layer == layer_view(layer_derivative@),
                fits_layer(layer, n as nat, width as nat),
                next_backprop_error.len() == width,
                forall|c: int|
                    0 <= c < width ==> next_backprop_error[c] == chain_sum(
                        layer,
                        current_backprop_error@,
                        c,
                        i as nat,
                    ),
            decreases n - i,
        {
            assert(layer[i as int].weights.len() == width);
            let mut j: usize = 0;
            while j < width
                invariant
                    j <= width,
                    i < n,
                    n == layer_derivative.len(),
                    n == current_backprop_error@.len(),
                    layer == layer_view(layer_derivative@),
                    layer[i as int].weights.len() == width,
                    next_backprop_error.len() == width,
                    forall|c: int|
                        0 <= c < j ==> next_backprop_error[c] == chain_sum(
                            layer,
                            current_backprop_error@,
                            c,
                            (i + 1) as nat,
                        ),
                    forall|c: int|
                        j <= c < width ==> next_backprop_error[c] == chain_sum(
                            layer,
                            current_backprop_error@,
                            c,
                            i as nat,
                        ),
                decreases width - j,
            {
                let term = current_backprop_error[i].times(layer_derivative[i].derivatives_w[j]);
                let total = next_backprop_error[j].plus(term);
                next_backprop_error[j] = total;
                j += 1;
            }
            i += 1;
        }
        assert(next_backprop_error@ =~= self::next_backprop_error(layer, current_backprop_error@));
        Ok(next_backprop_error)
    }

    /// Multiplies the bundle of unit `i` by `values[i]`, for every unit that
    /// `values` has an entry for.
    pub fn multiply_layer_derivative_by_vector(
        derivative: &mut LayerDerivative<L::Value>,
        values: &Vec<L::Value>,
    )
        ensures
            layer_view(final(derivative)@) == scaled_layer(layer_view(old(derivative)@), values@),
    {
        crate::derivatives::multiply_layer_derivative_by_vector(derivative, values)
    }
}

} // verus!
