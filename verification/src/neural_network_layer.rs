//! One computational stage of the network: its parameters and the values
//! cached by the most recent forward pass.

use vstd::prelude::*;

use crate::activation_functions::ActivationFunction;
use crate::linear_algebra::{is_matrix, rows_view};

verus! {

pub struct NeuralNetworkLayer<S> {
    /// One bias per unit; empty for the input layer.
    pub biases: Vec<S>,
    /// One row per unit, one column per unit of the previous layer;
    /// empty for the input layer.
    pub weights: Vec<Vec<S>>,
    /// The number of units.
    pub size: usize,
    pub activation_function: ActivationFunction,
    /// The activations cached by the last forward pass, if one happened.
    pub activations: Option<Vec<S>>,
    /// The pre-activations cached by the last forward pass, if one
    /// happened; the input layer never has any.
    pub z_values: Option<Vec<S>>,
}

/// The mathematical content of a layer: the same record over sequences.
#[verifier::ext_equal]
pub struct LayerModel<S> {
    pub biases: Seq<S>,
    pub weights: Seq<Seq<S>>,
    pub size: usize,
    pub activation_function: ActivationFunction,
    pub activations: Option<Seq<S>>,
    pub z_values: Option<Seq<S>>,
}

impl<S> View for NeuralNetworkLayer<S> {
    type V = LayerModel<S>;

    open spec fn view(&self) -> LayerModel<S> {
        LayerModel {
            biases: self.biases@,
            weights: rows_view(self.weights@),
            size: self.size,
            activation_function: self.activation_function,
            activations: match self.activations {
                Some(a) => Some(a@),
                None => None,
            },
            z_values: match self.z_values {
                Some(z) => Some(z@),
                None => None,
            },
        }
    }
}

impl<S> LayerModel<S> {
    /// Shape invariant of the input layer: a pass-through with no
    /// parameters.
    pub open spec fn wf_input(self) -> bool {
        &&& self.size >= 1
        &&& self.weights.len() == 0
        &&& self.biases.len() == 0
    }

    /// Shape invariant of a layer whose predecessor has `prev_size`
    /// units: `size` rows of `prev_size` weights, and one bias per unit.
    pub open spec fn wf(self, prev_size: nat) -> bool {
        &&& self.size >= 1
        &&& is_matrix(self.weights, self.size as nat, prev_size)
        &&& self.biases.len() == self.size
    }

    /// Both caches hold vectors of the layer's width.
    pub open spec fn caches_set(self) -> bool {
        &&& self.activations matches Some(a) && a.len() == self.size
        &&& self.z_values matches Some(z) && z.len() == self.size
    }

    /// The parameters and the configuration, everything but the caches,
    /// agree.
    pub open spec fn same_parameters(self, other: Self) -> bool {
        &&& self.biases == other.biases
        &&& self.weights == other.weights
        &&& self.size == other.size
        &&& self.activation_function == other.activation_function
    }
}

} // verus!
