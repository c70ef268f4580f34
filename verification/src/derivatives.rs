//! The derivative bundles that a forward pass captures and that
//! backpropagation turns into gradients.

use vstd::prelude::*;
use crate::scalar::Scalar;

verus! {

/// The mathematical content of a [`PerceptronDerivative`]: one partial
/// derivative per weight, and one for the bias.
pub struct Gradient<T> {
    pub weights: Seq<T>,
    pub bias: T,
}

impl<T: Scalar> Gradient<T> {
    /// Every entry multiplied by `value` (the entry on the left).
    pub open spec fn scaled(self, value: T) -> Gradient<T> {
        Gradient {
            weights: Seq::new(self.weights.len(), |j: int| self.weights[j].product(value)),
            bias: self.bias.product(value),
        }
    }
}

/// The derivatives of one unit's output with respect to its own parameters.
pub struct PerceptronDerivative<T> {
    pub derivatives_w: Vec<T>,
    pub derivative_b: T,
}

/// One bundle per unit of a layer, in the order of the units.
pub type LayerDerivative<T> = Vec<PerceptronDerivative<T>>;

/// One layer derivative per layer of a network, first layer first.
pub type NetworkDerivative<T> = Vec<LayerDerivative<T>>;

/// The content of a layer derivative, bundle by bundle.
pub open spec fn layer_view<T>(derivative: Seq<PerceptronDerivative<T>>) -> Seq<Gradient<T>> {
    Seq::new(derivative.len(), |i: int| derivative[i]@)
}

/// The content of a network derivative, layer by layer.
pub open spec fn network_view<T>(derivative: Seq<Vec<PerceptronDerivative<T>>>) -> Seq<
    Seq<Gradient<T>>,
> {
    Seq::new(derivative.len(), |k: int| layer_view(derivative[k]@))
}

/// Whether `derivative` holds one bundle per unit of a layer of `width`
/// units, each with one derivative per input of the layer.
pub open spec fn fits_layer<T>(derivative: Seq<Gradient<T>>, width: nat, fan_in: nat) -> bool {
    &&& derivative.len() == width
    &&& forall|i: int| 0 <= i < derivative.len() ==> (#[trigger] derivative[i]).weights.len() == fan_in
}

/// `layer` with bundle `i` scaled by `values[i]`, as far as `values` goes;
/// the bundles beyond it are kept.
pub open spec fn scaled_layer<T: Scalar>(layer: Seq<Gradient<T>>, values: Seq<T>) -> Seq<Gradient<T>> {
    Seq::new(
        layer.len(),
        |i: int|
            if i < values.len() {
                layer[i].scaled(values[i])
            } else {
                layer[i]
            },
    )
}

impl<T> View for PerceptronDerivative<T> {
    type V = Gradient<T>;

    open spec fn view(&self) -> Gradient<T> {
        Gradient { weights: self.derivatives_w@, bias: self.derivative_b }
    }
}

impl<T: Scalar> PerceptronDerivative<T> {
    /// Multiplies every derivative of the bundle by `value`.
    pub fn multiply(&mut self, value: T)
        ensures
            final(self)@ == old(self)@.scaled(value),
    {
        let n = self.derivatives_w.len();
        let mut j: usize = 0;
        while j < n
            invariant
                j <= n,
                n == old(self).derivatives_w.len(),
                self.derivatives_w.len() == n,
                self.derivative_b == old(self).derivative_b,
                forall|k: int|
                    0 <= k < j ==> self.derivatives_w[k] == old(self).derivatives_w[k].product(value),
                forall|k: int| j <= k < n ==> self.derivatives_w[k] == old(self).derivatives_w[k],
            decreases n - j,
        {
            let scaled = self.derivatives_w[j].times(value);
            self.derivatives_w[j] = scaled;
            j += 1;
        }
        self.derivative_b = self.derivative_b.times(value);
        assert(self@.weights =~= old(self)@.scaled(value).weights);
    }
}

/// Multiplies the bundle of unit `i` by `values[i]`, for every unit that
/// `values` has an entry for.
pub fn multiply_layer_derivative_by_vector<T: Scalar>(
    derivative: &mut LayerDerivative<T>,
    values: &Vec<T>,
)
    ensures
        layer_view(final(derivative)@) == scaled_layer(layer_view(old(derivative)@), values@),
{
    let n = if derivative.len() < values.len() {
        derivative.len()
    } else {
        values.len()
    };
    let mut i: usize = 0;
    while i < n
        invariant
            i <= n,
            n <= values.len(),
            n <= derivative.len(),
            n == derivative.len() || n == values.len(),
            derivative.len() == old(derivative).len(),
            forall|k: int|
                0 <= k < i ==> (#[trigger] derivative[k])@ == old(derivative)[k]@.scaled(values[k]),
            forall|k: int| i <= k < derivative.len() ==> derivative[k] == old(derivative)[k],
        decreases n - i,
    {
        derivative[i].multiply(values[i]);
        i += 1;
    }
    assert(layer_view(derivative@) =~= scaled_layer(layer_view(old(derivative)@), values@));
}

} // verus!
