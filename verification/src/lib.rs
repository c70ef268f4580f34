//! A small feed-forward neural network engine: layers of linear units with
//! pluggable activation functions, forward inference, and training by
//! gradient descent through backpropagation.
//!
//! The engine is generic over its [`scalar::Scalar`]: every contract states
//! a result as an exact expression over the scalar's own operations, in the
//! order in which the code applies them.

pub mod derivatives;
pub mod error;
pub mod fixed;
pub mod functions;
pub mod layers;
pub mod network;
pub mod numeric;
pub mod perceptron;
pub mod scalar;
