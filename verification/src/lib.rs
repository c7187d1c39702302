//! A small feedforward neural-network trainer, verified with Verus.
//!
//! The network is an ordered sequence of layers.  A forward pass computes
//! each layer's weighted sums and activations in order; a backward pass
//! computes the error signal by the chain rule from the output layer down
//! and applies one plain gradient-descent step per layer; training
//! standardizes every feature with its mean and sample standard deviation
//! before any parameter moves, and prediction returns results in original
//! units.
//!
//! Everything is generic over a [`scalar::Scalar`] arithmetic type: each
//! contract is stated over the scalar's abstract (per-implementation) spec
//! operations, so propagation, training and prediction are proved to
//! compute exactly the documented formulas, whatever arithmetic the
//! scalar supplies.  The crate ships one verified scalar, the saturating
//! fixed-point type [`fx::Fx`].

pub mod activation_functions;
pub mod cost_functions;
pub mod error;
pub mod fx;
pub mod layer_details;
pub mod linear_algebra;
pub mod neural_network;
pub mod neural_network_layer;
pub mod scalar;
pub mod stat;
