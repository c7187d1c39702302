//! The activation strategies a layer can be configured with.
//!
//! Each variant is an elementwise nonlinearity together with its
//! derivative.  Both are evaluated at the pre-activation `z`, and both are
//! specified entry by entry over the scalar's abstract operations.

#![verifier::loop_isolation(false)]

use vstd::prelude::*;

use crate::scalar::Scalar;

verus! {

#[derive(Debug, Clone, Copy, PartialEq, Eq, Structural)]
pub enum ActivationFunction {
    Linear,
    Sigmoid,
    Tanh,
}

/// `g(z)` for a single entry: identity, `1 / (1 + e^-z)`, or
/// `2 / (1 + e^-2z) - 1`.
pub open spec fn sp_activate_one<S: Scalar>(f: ActivationFunction, z: S) -> S {
    match f {
        ActivationFunction::Linear => z,
        ActivationFunction::Sigmoid => S::sp_div(
            S::sp_one(),
            S::sp_add(S::sp_one(), S::sp_exp(S::sp_neg(z))),
        ),
        ActivationFunction::Tanh => S::sp_add(
            S::sp_div(
                S::sp_from_usize(2),
                S::sp_add(
                    S::sp_one(),
                    S::sp_exp(S::sp_mul(S::sp_neg(S::sp_from_usize(2)), z)),
                ),
            ),
            S::sp_neg(S::sp_one()),
        ),
    }
}

/// `g'(z)` for a single entry, written in terms of `z` itself: one,
/// `e^-z / (1 + e^-z)^2`, or `4 e^-2z / (1 + e^-2z)^2`.
pub open spec fn sp_derivative_one<S: Scalar>(f: ActivationFunction, z: S) -> S {
    match f {
        ActivationFunction::Linear => S::sp_one(),
        ActivationFunction::Sigmoid => {
            let x = S::sp_exp(S::sp_neg(z));
            let d = S::sp_add(S::sp_one(), x);
            S::sp_div(x, S::sp_mul(d, d))
        },
        ActivationFunction::Tanh => {
            let x = S::sp_exp(S::sp_mul(S::sp_neg(S::sp_from_usize(2)), z));
            let d = S::sp_add(S::sp_one(), x);
            S::sp_div(S::sp_mul(S::sp_from_usize(4), x), S::sp_mul(d, d))
        },
    }
}

/// `g` applied to every entry.
pub open spec fn sp_activate<S: Scalar>(f: ActivationFunction, z: Seq<S>) -> Seq<S> {
    Seq::new(z.len(), |i: int| sp_activate_one(f, z[i]))
}

/// `g'` applied to every entry.
pub open spec fn sp_derivative<S: Scalar>(f: ActivationFunction, z: Seq<S>) -> Seq<S> {
    Seq::new(z.len(), |i: int| sp_derivative_one(f, z[i]))
}

impl ActivationFunction {
    /// Applies `g` to the pre-activation vector `value`, entry by entry.
    pub fn activate<S: Scalar>(&self, value: &Vec<S>) -> (r: Vec<S>)
        ensures
            r@ == sp_activate(*self, value@),
    {
        let n = value.len();
        let mut result: Vec<S> = Vec::new();
        let mut i: usize = 0;
        while i < n
            invariant
                i <= n,
                result@.len() == i,
                forall|k: int| 0 <= k < i ==> result@[k] == sp_activate_one(*self, value@[k]),
            decreases n - i,
        {
            let z = value[i];
            let a = match self {
                ActivationFunction::Linear => z,
                ActivationFunction::Sigmoid => {
                    S::one().div(S::one().add(z.neg().exp()))
                },
                ActivationFunction::Tanh => {
                    let two = S::from_usize(2);
                    two.div(S::one().add(two.neg().mul(z).exp())).sub(S::one())
                },
            };
            result.push(a);
            i = i + 1;
        }
        proof {
            assert(result@ =~= sp_activate(*self, value@));
        }
        result
    }

    /// Applies `g'`, evaluated at the pre-activation `value`, entry by
    /// entry.
    pub fn derivative<S: Scalar>(&self, value: &Vec<S>) -> (r: Vec<S>)
        ensures
            r@ == sp_derivative(*self, value@),
    {
        let n = value.len();
        let mut result: Vec<S> = Vec::new();
        let mut i: usize = 0;
        while i < n
            invariant
                i <= n,
                result@.len() == i,
                forall|k: int| 0 <= k < i ==> result@[k] == sp_derivative_one(*self, value@[k]),
            decreases n - i,
        {
            let z = value[i];
            let d = match self {
                ActivationFunction::Linear => S::one(),
                ActivationFunction::Sigmoid => {
                    let x = z.neg().exp();
                    let denom = S::one().add(x);
                    x.div(denom.mul(denom))
                },
                ActivationFunction::Tanh => {
                    let x = S::from_usize(2).neg().mul(z).exp();
                    let denom = S::one().add(x);
                    S::from_usize(4).mul(x).div(denom.mul(denom))
                },
            };
            result.push(d);
            i = i + 1;
        }
        proof {
            assert(result@ =~= sp_derivative(*self, value@));
        }
        result
    }
}

} // verus!
