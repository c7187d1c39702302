//! The specification of one layer, as callers hand it to the network:
//! how many units the layer has and which activation it applies.

use vstd::prelude::*;

use crate::activation_functions::ActivationFunction;

verus! {

pub struct LayerDetails {
    pub layer_size: usize,
    pub activation_function: ActivationFunction,
}

impl LayerDetails {
    pub fn new(layer_size: usize, activation_function: ActivationFunction) -> (r: Self)
        ensures
            r.layer_size == layer_size,
            r.activation_function == activation_function,
    {
        LayerDetails { layer_size, activation_function }
    }
}

} // verus!
