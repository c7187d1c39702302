//! The cost strategies a network can be configured with.
//!
//! Mean squared error is the one variant: the mean of the squared
//! differences, with the gradient `2 (predicted - actual) / n` with
//! respect to each predicted entry.

#![verifier::loop_isolation(false)]

use vstd::prelude::*;

use crate::error::NetworkError;
use crate::scalar::Scalar;

verus! {

#[derive(Debug, Clone, Copy, PartialEq, Eq, Structural)]
pub enum CostFunction {
    MeanSquaredError,
}

/// Left fold of the first `n` squared differences, starting from zero.
pub open spec fn sp_sq_diff_prefix<S: Scalar>(actual: Seq<S>, predicted: Seq<S>, n: int) -> S
    decreases n,
{
    if n <= 0 {
        S::sp_zero()
    } else {
        let d = S::sp_add(actual[n - 1], S::sp_neg(predicted[n - 1]));
        S::sp_add(sp_sq_diff_prefix(actual, predicted, n - 1), S::sp_mul(d, d))
    }
}

/// The mean squared error between two vectors of equal length.
pub open spec fn sp_cost<S: Scalar>(f: CostFunction, actual: Seq<S>, predicted: Seq<S>) -> S {
    match f {
        CostFunction::MeanSquaredError => S::sp_div(
            sp_sq_diff_prefix(actual, predicted, actual.len() as int),
            S::sp_from_usize(actual.len() as usize),
        ),
    }
}

/// The gradient of the cost with respect to each predicted entry:
/// `2 (predicted[i] - actual[i]) / n` for mean squared error.
pub open spec fn sp_cost_derivative<S: Scalar>(
    f: CostFunction,
    activations: Seq<S>,
    actual: Seq<S>,
) -> Seq<S> {
    match f {
        CostFunction::MeanSquaredError => Seq::new(
            activations.len(),
            |i: int| S::sp_div(
                S::sp_mul(S::sp_from_usize(2), S::sp_add(activations[i], S::sp_neg(actual[i]))),
                S::sp_from_usize(activations.len() as usize),
            ),
        ),
    }
}

impl CostFunction {
    /// The gradient of the cost of predicting `activations` against
    /// `actual`, with respect to each entry of `activations`.
    pub fn derivative<S: Scalar>(&self, activations: &Vec<S>, actual: &Vec<S>) -> (r: Vec<S>)
        requires
            activations@.len() == actual@.len(),
        ensures
            r@ == sp_cost_derivative(*self, activations@, actual@),
    {
        match self {
            CostFunction::MeanSquaredError => {
                let n = activations.len();
                let two = S::from_usize(2);
                let count = S::from_usize(n);
                let mut result: Vec<S> = Vec::new();
                let mut i: usize = 0;
                while i < n
                    invariant
                        i <= n,
                        result@.len() == i,
                        two == S::sp_from_usize(2),
                        count == S::sp_from_usize(n),
                        forall|k: int|
                            0 <= k < i ==> result@[k] == sp_cost_derivative(
                                *self,
                                activations@,
                                actual@,
                            )[k],
                    decreases n - i,
                {
                    result.push(two.mul(activations[i].sub(actual[i])).div(count));
                    i = i + 1;
                }
                proof {
                    assert(result@ =~= sp_cost_derivative(*self, activations@, actual@));
                }
                result
            },
        }
    }

    /// The cost of predicting `predicted` where `actual` was wanted.
    /// Fails with a dimension mismatch if and only if the lengths differ.
    pub fn cost<S: Scalar>(&self, actual: &Vec<S>, predicted: &Vec<S>) -> (r: Result<
        S,
        NetworkError,
    >)
        ensures
            actual@.len() == predicted@.len() ==> r == Ok::<S, NetworkError>(
                sp_cost(*self, actual@, predicted@),
            ),
            actual@.len() != predicted@.len() ==> r == Err::<S, NetworkError>(
                NetworkError::DimensionMismatch {
                    expected: actual@.len() as usize,
                    found: predicted@.len() as usize,
                },
            ),
    {
        match self {
            CostFunction::MeanSquaredError => {
                if actual.len() != predicted.len() {
                    return Err(
                        NetworkError::DimensionMismatch {
                            expected: actual.len(),
                            found: predicted.len(),
                        },
                    );
                }
                let size = actual.len();
                let mut result = S::zero();
                let mut i: usize = 0;
                while i < size
                    invariant
                        i <= size,
                        result == sp_sq_diff_prefix(actual@, predicted@, i as int),
                    decreases size - i,
                {
                    let d = actual[i].sub(predicted[i]);
                    result = result.add(d.mul(d));
                    i = i + 1;
                }
                Ok(result.div(S::from_usize(size)))
            },
        }
    }
}

} // verus!
