//! The ways in which a call can be refused.

use vstd::prelude::*;

verus! {

/// Why the engine refused an input. Every variant reports a fault of the
/// caller's input, found before any parameter was changed.
#[derive(Clone, Copy, Debug, PartialEq, Eq, Structural)]
pub enum NetworkError {
    /// Two adjacent layers do not fit: the output width of the first is not
    /// the input width of the second.
    InvalidTopology,
    /// An input vector does not have the width that its consumer expects.
    DimensionMismatch,
    /// A layer without units was asked for something that only a unit can
    /// answer.
    EmptyLayer,
    /// A gradient does not have the shape of the parameters it is meant for.
    GradientLengthMismatch,
}

} // verus!
