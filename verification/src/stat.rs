//! Mean and sample standard deviation in one pass (Welford's online
//! algorithm), which avoids the catastrophic cancellation of the naive
//! two-pass variance.

#![verifier::loop_isolation(false)]

use vstd::prelude::*;

use crate::scalar::Scalar;

verus! {

/// The running Welford state after the first `n` samples: the mean and
/// the sum `m2` of squared distances from the current mean.  Each step
/// folds in sample `n - 1`:
/// `mean' = mean + (x - mean) / n`, `m2' = m2 + (x - mean)(x - mean')`.
pub open spec fn sp_welford<S: Scalar>(data: Seq<S>, n: int) -> (S, S)
    decreases n,
{
    if n <= 0 {
        (S::sp_zero(), S::sp_zero())
    } else {
        let prev = sp_welford(data, n - 1);
        let delta = S::sp_add(data[n - 1], S::sp_neg(prev.0));
        let mean = S::sp_add(prev.0, S::sp_div(delta, S::sp_from_usize(n as usize)));
        let delta2 = S::sp_add(data[n - 1], S::sp_neg(mean));
        (mean, S::sp_add(prev.1, S::sp_mul(delta, delta2)))
    }
}

/// The mean of the whole sequence, per Welford.
pub open spec fn sp_mean<S: Scalar>(data: Seq<S>) -> S {
    sp_welford(data, data.len() as int).0
}

/// The sample standard deviation: the square root of `m2 / (n - 1)`.
pub open spec fn sp_standard_deviation<S: Scalar>(data: Seq<S>) -> S {
    S::sp_sqrt(
        S::sp_div(
            sp_welford(data, data.len() as int).1,
            S::sp_from_usize((data.len() - 1) as usize),
        ),
    )
}

/// Computes the mean and the sample (`n - 1`) standard deviation of
/// `data` in a single pass.
pub fn mean_and_standard_deviation<S: Scalar>(data: &Vec<S>) -> (r: (S, S))
    requires
        data@.len() >= 2,
    ensures
        r.0 == sp_mean(data@),
        r.1 == sp_standard_deviation(data@),
{
    let mut mean = S::zero();
    let mut m2 = S::zero();
    let n = data.len();
    let mut i: usize = 0;
    while i < n
        invariant
            i <= n,
            (mean, m2) == sp_welford(data@, i as int),
        decreases n - i,
    {
        let count = S::from_usize(i + 1);
        let delta = data[i].sub(mean);
        mean = mean.add(delta.div(count));
        let delta2 = data[i].sub(mean);
        m2 = m2.add(delta.mul(delta2));
        i = i + 1;
    }
    (mean, m2.div(S::from_usize(n - 1)).sqrt())
}

} // verus!
