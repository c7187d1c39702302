//! The network: an ordered sequence of layers, a cost strategy, and the
//! per-feature standardization statistics frozen by the first training
//! call.
//!
//! Contracts are stated over [`LayerModel`] sequences.  Forward
//! propagation is the recurrence `a[0] = input`,
//! `z[i] = weights[i] * a[i-1] + biases[i]`, `a[i] = g_i(z[i])`; backward
//! propagation walks from the output layer down, updating each layer's
//! parameters by one plain gradient-descent step and pushing the error
//! signal through the just-updated weights, exactly as
//! [`sp_backward`] records.

#![verifier::loop_isolation(false)]

use vstd::prelude::*;

use crate::activation_functions::{sp_activate, sp_derivative};
use crate::cost_functions::{sp_cost, sp_cost_derivative, CostFunction};
use crate::error::NetworkError;
use crate::layer_details::LayerDetails;
use crate::linear_algebra::{
    add_matrices, add_vector, get_row, hadamard_product, is_matrix, lemma_hadamard_pair,
    matrix_dot_vector, minus_vector, rows_view, scalar_multiply_matrix, scalar_multiply_vector,
    sp_add_matrices, sp_add_vectors, sp_get_row, sp_matrix_dot_vector, sp_mul_vectors, sp_outer,
    sp_scale_matrix, sp_scale_vector, sp_transpose, transpose_matrix,
    vector_dot_transposed_vector,
};
use crate::neural_network_layer::{LayerModel, NeuralNetworkLayer};
use crate::scalar::{sp_abs, Scalar};
use crate::stat::{mean_and_standard_deviation, sp_mean, sp_standard_deviation};

verus! {

/// The layers of a network as mathematical records.
pub open spec fn layers_view<S>(ls: Seq<NeuralNetworkLayer<S>>) -> Seq<LayerModel<S>> {
    Seq::new(ls.len(), |i: int| ls[i]@)
}

/// Shape invariant of a whole network: at least two layers, a
/// parameterless input layer, and every later layer shaped to consume
/// its predecessor's activations.
pub open spec fn nn_wf<S>(ms: Seq<LayerModel<S>>) -> bool {
    &&& ms.len() >= 2
    &&& ms[0].wf_input()
    &&& forall|i: int| 1 <= i < ms.len() ==> (#[trigger] ms[i]).wf(ms[i - 1].size as nat)
}

/// Every layer's caches are populated: the input layer holds an
/// activation of its width, every later layer holds both caches.
pub open spec fn caches_ready<S>(ms: Seq<LayerModel<S>>) -> bool {
    &&& ms[0].activations matches Some(a) && a.len() == ms[0].size
    &&& forall|i: int| 1 <= i < ms.len() ==> (#[trigger] ms[i]).caches_set()
}

/// The pre-activation of one layer given the previous layer's
/// activation: `weights * prev + biases`.
pub open spec fn sp_layer_z<S: Scalar>(m: LayerModel<S>, prev: Seq<S>) -> Seq<S> {
    sp_add_vectors(sp_matrix_dot_vector(m.weights, prev), m.biases)
}

/// The activation of layer `i` on `input`: the input itself at the
/// input layer, else the layer's nonlinearity applied to its
/// pre-activation.
pub open spec fn sp_activations_at<S: Scalar>(
    ms: Seq<LayerModel<S>>,
    input: Seq<S>,
    i: int,
) -> Seq<S>
    decreases i,
{
    if i <= 0 {
        input
    } else {
        sp_activate(
            ms[i].activation_function,
            sp_layer_z(ms[i], sp_activations_at(ms, input, i - 1)),
        )
    }
}

/// The pre-activation of layer `i` on `input`.
pub open spec fn sp_z_at<S: Scalar>(ms: Seq<LayerModel<S>>, input: Seq<S>, i: int) -> Seq<S> {
    sp_layer_z(ms[i], sp_activations_at(ms, input, i - 1))
}

/// What the network computes on `input`: the last layer's activation.
pub open spec fn sp_network_output<S: Scalar>(ms: Seq<LayerModel<S>>, input: Seq<S>) -> Seq<S> {
    sp_activations_at(ms, input, ms.len() - 1)
}

/// The layers after a forward pass on `input`: parameters untouched,
/// every cache rewritten (the input layer keeps its never-written
/// pre-activation cache).
pub open spec fn sp_forward_models<S: Scalar>(
    ms: Seq<LayerModel<S>>,
    input: Seq<S>,
) -> Seq<LayerModel<S>> {
    Seq::new(
        ms.len(),
        |i: int| LayerModel {
            activations: Some(sp_activations_at(ms, input, i)),
            z_values: if i == 0 {
                ms[i].z_values
            } else {
                Some(sp_z_at(ms, input, i))
            },
            ..ms[i]
        },
    )
}

/// The error signal at the output layer: the cost gradient times,
/// elementwise, the activation derivative at the cached pre-activation.
pub open spec fn sp_initial_delta<S: Scalar>(
    ms: Seq<LayerModel<S>>,
    cost: CostFunction,
    actual: Seq<S>,
) -> Seq<S> {
    let last = ms[ms.len() - 1];
    sp_mul_vectors(
        sp_cost_derivative(cost, last.activations->0, actual),
        sp_derivative(last.activation_function, last.z_values->0),
    )
}

/// One gradient-descent step on one layer: the weights move against the
/// outer product of the error signal with the previous layer's cached
/// activation, the biases against the error signal itself.
pub open spec fn sp_update_layer<S: Scalar>(
    m: LayerModel<S>,
    delta: Seq<S>,
    prev_activation: Seq<S>,
    learning_rate: S,
) -> LayerModel<S> {
    LayerModel {
        weights: sp_add_matrices(
            m.weights,
            sp_scale_matrix(S::sp_neg(learning_rate), sp_outer(delta, prev_activation)),
        ),
        biases: sp_add_vectors(m.biases, sp_scale_vector(S::sp_neg(learning_rate), delta)),
        ..m
    }
}

/// The layers after the backward pass has processed layers `i` down
/// to `1`, carrying the error signal `delta` for layer `i`.  Below the
/// output layer the error is pushed through the layer's just-updated
/// weights: `delta' = g'_{i-1}(z[i-1]) . (weights[i]^t * delta)`.
pub open spec fn sp_backward<S: Scalar>(
    ms: Seq<LayerModel<S>>,
    delta: Seq<S>,
    learning_rate: S,
    i: int,
) -> Seq<LayerModel<S>>
    decreases i,
{
    if i < 1 {
        ms
    } else {
        let updated = sp_update_layer(ms[i], delta, ms[i - 1].activations->0, learning_rate);
        let rest = ms.update(i, updated);
        if i > 1 {
            let next = sp_mul_vectors(
                sp_derivative(ms[i - 1].activation_function, ms[i - 1].z_values->0),
                sp_matrix_dot_vector(
                    sp_transpose(updated.weights, updated.weights[0].len()),
                    delta,
                ),
            );
            sp_backward(rest, next, learning_rate, i - 1)
        } else {
            rest
        }
    }
}

/// One feature centered and scaled: `(value - mean) / sd`.
pub open spec fn sp_scale_one<S: Scalar>(value: S, mean: S, sd: S) -> S {
    S::sp_div(S::sp_add(value, S::sp_neg(mean)), sd)
}

/// One feature back in original units: `value * sd + mean`.
pub open spec fn sp_unscale_one<S: Scalar>(value: S, mean: S, sd: S) -> S {
    S::sp_add(S::sp_mul(value, sd), mean)
}

/// Every feature of `x` standardized with its own mean and deviation.
pub open spec fn sp_vec_scale<S: Scalar>(x: Seq<S>, mean: Seq<S>, sd: Seq<S>) -> Seq<S> {
    Seq::new(x.len(), |i: int| sp_scale_one(x[i], mean[i], sd[i]))
}

/// Every feature of `x` back in original units.
pub open spec fn sp_vec_unscale<S: Scalar>(x: Seq<S>, mean: Seq<S>, sd: Seq<S>) -> Seq<S> {
    Seq::new(x.len(), |i: int| sp_unscale_one(x[i], mean[i], sd[i]))
}

/// The Welford mean of each series.
pub open spec fn sp_feature_means<S: Scalar>(series: Seq<Seq<S>>) -> Seq<S> {
    Seq::new(series.len(), |i: int| sp_mean(series[i]))
}

/// The sample standard deviation of each series.
pub open spec fn sp_feature_sds<S: Scalar>(series: Seq<Seq<S>>) -> Seq<S> {
    Seq::new(series.len(), |i: int| sp_standard_deviation(series[i]))
}

/// One training sample: a forward pass on the standardized input, then
/// one backward gradient-descent step against the standardized target.
pub open spec fn sp_train_step<S: Scalar>(
    ms: Seq<LayerModel<S>>,
    cost: CostFunction,
    scaled_x: Seq<S>,
    scaled_y: Seq<S>,
    learning_rate: S,
) -> Seq<LayerModel<S>> {
    let fwd = sp_forward_models(ms, scaled_x);
    sp_backward(fwd, sp_initial_delta(fwd, cost, scaled_y), learning_rate, ms.len() - 1)
}

/// The layers after training on the first `n` samples, in sample order.
/// `x` and `y` hold one series per feature; sample `r` is entry `r` of
/// every series, standardized with the per-feature statistics.
pub open spec fn sp_train_prefix<S: Scalar>(
    ms: Seq<LayerModel<S>>,
    cost: CostFunction,
    x: Seq<Seq<S>>,
    y: Seq<Seq<S>>,
    x_mean: Seq<S>,
    x_sd: Seq<S>,
    y_mean: Seq<S>,
    y_sd: Seq<S>,
    learning_rate: S,
    n: int,
) -> Seq<LayerModel<S>>
    decreases n,
{
    if n <= 0 {
        ms
    } else {
        let prev = sp_train_prefix(ms, cost, x, y, x_mean, x_sd, y_mean, y_sd, learning_rate, n - 1);
        let scaled_x = sp_vec_scale(sp_get_row(x, n - 1), x_mean, x_sd);
        let scaled_y = sp_vec_scale(sp_get_row(y, n - 1), y_mean, y_sd);
        sp_train_step(prev, cost, scaled_x, scaled_y, learning_rate)
    }
}

/// What `predict` returns for sample `r` of a column-major data set:
/// the sample standardized, run through the network, and returned to
/// original units.
pub open spec fn sp_predicted_row<S: Scalar>(
    ms: Seq<LayerModel<S>>,
    x_mean: Seq<S>,
    x_sd: Seq<S>,
    y_mean: Seq<S>,
    y_sd: Seq<S>,
    input: Seq<Seq<S>>,
    r: int,
) -> Seq<S> {
    sp_vec_unscale(
        sp_network_output(ms, sp_vec_scale(sp_get_row(input, r), x_mean, x_sd)),
        y_mean,
        y_sd,
    )
}

/// The absolute error of sample `r`, per output feature.
pub open spec fn sp_abs_error_row<S: Scalar>(
    ms: Seq<LayerModel<S>>,
    x_mean: Seq<S>,
    x_sd: Seq<S>,
    y_mean: Seq<S>,
    y_sd: Seq<S>,
    input: Seq<Seq<S>>,
    output: Seq<Seq<S>>,
    r: int,
) -> Seq<S> {
    let predicted = sp_predicted_row(ms, x_mean, x_sd, y_mean, y_sd, input, r);
    Seq::new(
        output.len(),
        |i: int| sp_abs(S::sp_add(predicted[i], S::sp_neg(output[i][r]))),
    )
}

/// The sum of the absolute errors of the first `n` samples, per output
/// feature.
pub open spec fn sp_mae_prefix<S: Scalar>(
    ms: Seq<LayerModel<S>>,
    x_mean: Seq<S>,
    x_sd: Seq<S>,
    y_mean: Seq<S>,
    y_sd: Seq<S>,
    input: Seq<Seq<S>>,
    output: Seq<Seq<S>>,
    n: int,
) -> Seq<S>
    decreases n,
{
    if n <= 0 {
        Seq::new(output.len(), |i: int| S::sp_zero())
    } else {
        sp_add_vectors(
            sp_mae_prefix(ms, x_mean, x_sd, y_mean, y_sd, input, output, n - 1),
            sp_abs_error_row(ms, x_mean, x_sd, y_mean, y_sd, input, output, n - 1),
        )
    }
}

/// Forward determinism: the network's activations are a function of its
/// parameters and the input alone.  Two layer lists that agree on
/// weights, biases, widths and activation functions — their caches may
/// differ — give identical activations at every layer, so repeated
/// forward passes with unchanged parameters return identical outputs.
pub proof fn lemma_forward_deterministic<S: Scalar>(
    a: Seq<LayerModel<S>>,
    b: Seq<LayerModel<S>>,
    input: Seq<S>,
    i: int,
)
    requires
        a.len() == b.len(),
        forall|k: int| 0 <= k < a.len() ==> (#[trigger] a[k]).same_parameters(b[k]),
        0 <= i < a.len(),
    ensures
        sp_activations_at(a, input, i) == sp_activations_at(b, input, i),
    decreases i,
{
    if i > 0 {
        lemma_forward_deterministic(a, b, input, i - 1);
        assert(a[i].same_parameters(b[i]));
    }
}

/// The bound of the uniform interval Xavier/Glorot initialization draws
/// a weight from: `sqrt(6 / (fan_in + fan_out))`.
pub open spec fn sp_xavier_limit<S: Scalar>(previous_size: usize, current_size: usize) -> S {
    S::sp_sqrt(
        S::sp_div(
            S::sp_from_usize(6),
            S::sp_from_usize((current_size + previous_size) as usize),
        ),
    )
}

/// A non-input layer as construction leaves it: configured from its
/// details, biases all zero, weights shaped to the previous layer and
/// each within the Xavier bound, caches empty.
pub open spec fn freshly_initialized<S: Scalar>(
    m: LayerModel<S>,
    prev_size: usize,
    details: LayerDetails,
) -> bool {
    &&& m.size == details.layer_size
    &&& m.activation_function == details.activation_function
    &&& m.activations is None
    &&& m.z_values is None
    &&& is_matrix(m.weights, m.size as nat, prev_size as nat)
    &&& m.biases == Seq::new(m.size as nat, |j: int| S::sp_zero())
    &&& forall|i: int, j: int|
        0 <= i < m.size && 0 <= j < prev_size ==> S::sp_le(
            S::sp_neg(sp_xavier_limit::<S>(prev_size, details.layer_size)),
            #[trigger] m.weights[i][j],
        ) && S::sp_le(m.weights[i][j], sp_xavier_limit::<S>(prev_size, details.layer_size))
}

/// Activation widths follow layer widths: on a well-shaped network fed
/// an input of the input layer's width, layer `i`'s activation has
/// exactly `size[i]` entries.
pub proof fn lemma_activations_len<S: Scalar>(ms: Seq<LayerModel<S>>, input: Seq<S>, i: int)
    requires
        nn_wf(ms),
        input.len() == ms[0].size,
        0 <= i < ms.len(),
    ensures
        sp_activations_at(ms, input, i).len() == ms[i].size,
    decreases i,
{
    if i > 0 {
        lemma_activations_len(ms, input, i - 1);
    }
}

/// A forward pass only rewrites caches: the layers stay well shaped, and
/// afterwards every cache is populated with a vector of its layer's width.
#[verifier::rlimit(100)]
#[verifier::spinoff_prover]
pub proof fn lemma_forward_models_wf<S: Scalar>(ms: Seq<LayerModel<S>>, input: Seq<S>)
    requires
        nn_wf(ms),
        input.len() == ms[0].size,
    ensures
        nn_wf(sp_forward_models(ms, input)),
        caches_ready(sp_forward_models(ms, input)),
{
    let fwd = sp_forward_models(ms, input);
    assert forall|i: int| 1 <= i < fwd.len() implies (#[trigger] fwd[i]).wf(
        fwd[i - 1].size as nat,
    ) by {
        assert(ms[i].wf(ms[i - 1].size as nat));
    }
    assert forall|i: int| 1 <= i < fwd.len() implies (#[trigger] fwd[i]).caches_set() by {
        lemma_activations_len(ms, input, i);
        assert(ms[i].wf(ms[i - 1].size as nat));
    }
}

/// Borrows the vector a populated cache holds.
fn cached_vec<T>(v: &Option<Vec<T>>) -> (r: &Vec<T>)
    requires
        v matches Some(_),
    ensures
        *r == v->0,
{
    match v {
        Some(x) => x,
        None => vstd::pervasive::unreached(),
    }
}

fn abs_vector<S: Scalar>(v: &Vec<S>) -> (r: Vec<S>)
    ensures
        r@ == Seq::new(v@.len(), |i: int| sp_abs(v@[i])),
{
    let n = v.len();
    let mut result: Vec<S> = Vec::new();
    let mut i: usize = 0;
    while i < n
        invariant
            i <= n,
            result@.len() == i,
            forall|k: int| 0 <= k < i ==> result@[k] == sp_abs(v@[k]),
        decreases n - i,
    {
        result.push(v[i].abs());
        i = i + 1;
    }
    proof {
        assert(result@ =~= Seq::new(v@.len(), |i: int| sp_abs(v@[i])));
    }
    result
}

fn copy_vec<T: Copy>(v: &Vec<T>) -> (r: Vec<T>)
    ensures
        r@ == v@,
{
    let n = v.len();
    let mut result: Vec<T> = Vec::new();
    let mut i: usize = 0;
    while i < n
        invariant
            i <= n,
            result@.len() == i,
            forall|k: int| 0 <= k < i ==> result@[k] == v@[k],
        decreases n - i,
    {
        result.push(v[i]);
        i = i + 1;
    }
    proof {
        assert(result@ =~= v@);
    }
    result
}

/// One gradient-descent step on one layer, exactly [`sp_update_layer`]:
/// weights move against the outer product of the error signal with the
/// previous layer's cached activation, biases against the error signal.
#[verifier::rlimit(100)]
#[verifier::spinoff_prover]
fn update_layer<S: Scalar>(
    layer: &mut NeuralNetworkLayer<S>,
    error: &Vec<S>,
    prev_activation: &Vec<S>,
    learning_rate: S,
)
    requires
        old(layer)@.weights.len() == error@.len(),
        old(layer)@.biases.len() == error@.len(),
        forall|i: int|
            0 <= i < old(layer)@.weights.len() ==> (#[trigger] old(layer)@.weights[i]).len()
                == prev_activation@.len(),
    ensures
        final(layer)@ == sp_update_layer(old(layer)@, error@, prev_activation@, learning_rate),
{
    let weight_derivative = vector_dot_transposed_vector(error, prev_activation);
    let scaled_derivative = scalar_multiply_matrix(learning_rate.neg(), &weight_derivative);
    proof {
        assert(scaled_derivative@.len() == rows_view(scaled_derivative@).len());
        assert forall|i: int| 0 <= i < error@.len() implies (
        #[trigger] scaled_derivative@[i])@.len() == prev_activation@.len() by {
            assert(rows_view(scaled_derivative@)[i] == scaled_derivative@[i]@);
            assert(rows_view(weight_derivative@)[i] == weight_derivative@[i]@);
            assert(rows_view(scaled_derivative@)[i] == sp_scale_vector(
                S::sp_neg(learning_rate),
                rows_view(weight_derivative@)[i],
            ));
            assert(rows_view(weight_derivative@)[i] == sp_outer(error@, prev_activation@)[i]);
        }
        assert forall|i: int| 0 <= i < error@.len() implies (
        #[trigger] layer.weights@[i])@.len() == prev_activation@.len() by {
            assert(layer@.weights[i] == layer.weights@[i]@);
        }
    }
    let new_weights = add_matrices(&layer.weights, &scaled_derivative);
    layer.weights = new_weights;
    let scaled_error = scalar_multiply_vector(learning_rate.neg(), error);
    let new_biases = add_vector(&layer.biases, &scaled_error);
    layer.biases = new_biases;
    proof {
        assert(layer@ =~= sp_update_layer(
            old(layer)@,
            error@,
            prev_activation@,
            learning_rate,
        ));
    }
}

/// The error signal one layer down: the activation derivative at the
/// lower layer's cached pre-activation times, elementwise, the error
/// pushed backward through the upper layer's (already updated) weights.
#[verifier::rlimit(100)]
#[verifier::spinoff_prover]
fn propagate_error<S: Scalar>(
    below: &NeuralNetworkLayer<S>,
    layer: &NeuralNetworkLayer<S>,
    error: &Vec<S>,
) -> (r: Vec<S>)
    requires
        below@.z_values matches Some(_),
        below@.z_values->0.len() >= 1,
        layer@.weights.len() >= 1,
        layer@.weights.len() == error@.len(),
        forall|i: int|
            0 <= i < layer@.weights.len() ==> (#[trigger] layer@.weights[i]).len()
                == below@.z_values->0.len(),
    ensures
        r@ == sp_mul_vectors(
            sp_derivative(below@.activation_function, below@.z_values->0),
            sp_matrix_dot_vector(
                sp_transpose(layer@.weights, layer@.weights[0].len()),
                error@,
            ),
        ),
{
    let z_prev = cached_vec(&below.z_values);
    let derivative = below.activation_function.derivative(z_prev);
    proof {
        assert forall|i: int| 0 <= i < layer.weights@.len() implies (
        #[trigger] rows_view(layer.weights@)[i]).len() == below@.z_values->0.len() by {
            assert(rows_view(layer.weights@)[i] == layer.weights@[i]@);
            assert(layer@.weights[i] == rows_view(layer.weights@)[i]);
        }
        assert(rows_view(layer.weights@)[0].len() == layer.weights@[0]@.len());
        assert(is_matrix(
            rows_view(layer.weights@),
            layer.weights@.len() as nat,
            layer.weights@[0]@.len() as nat,
        ));
    }
    let transposed = transpose_matrix(&layer.weights);
    proof {
        let m = rows_view(layer.weights@);
        let cols = layer.weights@[0]@.len();
        assert(rows_view(transposed@) == sp_transpose(m, cols));
        assert(sp_transpose(m, cols).len() == cols);
        assert(rows_view(transposed@).len() == transposed@.len());
        assert(transposed@.len() == cols);
        assert forall|i: int| 0 <= i < transposed@.len() implies (
        #[trigger] transposed@[i])@.len() == error@.len() by {
            assert(transposed@[i]@ == rows_view(transposed@)[i]);
            assert(rows_view(transposed@)[i] == sp_transpose(m, cols)[i]);
            assert(sp_transpose(m, cols)[i].len() == m.len());
        }
    }
    let projected = matrix_dot_vector(&transposed, error);
    let result = hadamard_product(&[&derivative, &projected]);
    proof {
        lemma_hadamard_pair(
            crate::linear_algebra::family_view(seq![&derivative, &projected]),
        );
    }
    result
}

pub struct NeuralNetwork<S> {
    pub layers: Vec<NeuralNetworkLayer<S>>,
    pub cost_function: CostFunction,
    pub x_mean: Option<Vec<S>>,
    pub x_sd: Option<Vec<S>>,
    pub y_mean: Option<Vec<S>>,
    pub y_sd: Option<Vec<S>>,
}

impl<S: Scalar> NeuralNetwork<S> {
    /// The layers as mathematical records.
    pub open spec fn models(self) -> Seq<LayerModel<S>> {
        layers_view(self.layers@)
    }

    /// The width the input layer expects.
    pub open spec fn input_size(self) -> usize {
        self.layers@[0].size
    }

    /// The width the output layer produces.
    pub open spec fn output_size(self) -> usize {
        self.layers@[self.layers@.len() - 1].size
    }

    /// All four standardization vectors are stored, one entry per input
    /// or output feature.
    pub open spec fn stats_set(self) -> bool {
        &&& self.x_mean matches Some(v) && v@.len() == self.input_size()
        &&& self.x_sd matches Some(v) && v@.len() == self.input_size()
        &&& self.y_mean matches Some(v) && v@.len() == self.output_size()
        &&& self.y_sd matches Some(v) && v@.len() == self.output_size()
    }

    /// No training has happened: no standardization vector is stored.
    pub open spec fn stats_unset(self) -> bool {
        &&& self.x_mean is None
        &&& self.x_sd is None
        &&& self.y_mean is None
        &&& self.y_sd is None
    }

    /// The network invariant: well-shaped layers, and statistics either
    /// absent together or present together with the right widths.
    pub open spec fn wf(self) -> bool {
        &&& nn_wf(self.models())
        &&& self.stats_set() || self.stats_unset()
    }

    /// The cost strategy and the standardization statistics agree.
    pub open spec fn same_config(self, other: Self) -> bool {
        &&& self.cost_function == other.cost_function
        &&& self.x_mean == other.x_mean
        &&& self.x_sd == other.x_sd
        &&& self.y_mean == other.y_mean
        &&& self.y_sd == other.y_sd
    }

    /// One weight for a layer of `current_size` units fed by
    /// `previous_size` units: a draw from the symmetric Xavier interval.
    fn random_xavier(previous_size: usize, current_size: usize) -> (r: S)
        requires
            current_size + previous_size <= usize::MAX,
        ensures
            S::sp_le(S::sp_neg(sp_xavier_limit::<S>(previous_size, current_size)), r),
            S::sp_le(r, sp_xavier_limit::<S>(previous_size, current_size)),
    {
        let x = S::from_usize(6).div(S::from_usize(current_size + previous_size)).sqrt();
        S::uniform_symmetric(x)
    }

    /// Builds a network from the given layer specifications.  Fails, if
    /// and only if fewer than two are supplied, with a configuration
    /// error; otherwise every non-input layer starts with zero biases
    /// and Xavier-initialized weights, and no statistics are stored.
    #[verifier::rlimit(100)]
    #[verifier::spinoff_prover]
    pub fn new(layers_details: &[LayerDetails], cost_function: CostFunction) -> (r: Result<
        NeuralNetwork<S>,
        NetworkError,
    >)
        requires
            forall|i: int|
                0 <= i < layers_details@.len() ==> (#[trigger] layers_details@[i]).layer_size
                    >= 1,
            forall|i: int|
                1 <= i < layers_details@.len() ==> (#[trigger] layers_details@[i]).layer_size
                    + layers_details@[i - 1].layer_size <= usize::MAX,
        ensures
            layers_details@.len() < 2 ==> (r matches Err(e) && e
                == (NetworkError::ConfigurationError {
                layers_supplied: layers_details@.len() as usize,
            })),
            layers_details@.len() >= 2 ==> (r matches Ok(net) && {
                &&& net.wf()
                &&& net.stats_unset()
                &&& net.cost_function == cost_function
                &&& net.models().len() == layers_details@.len()
                &&& net.models()[0].size == layers_details@[0].layer_size
                &&& net.models()[0].activation_function == layers_details@[0].activation_function
                &&& net.models()[0].weights.len() == 0
                &&& net.models()[0].biases.len() == 0
                &&& net.models()[0].activations is None
                &&& net.models()[0].z_values is None
                &&& forall|i: int|
                    1 <= i < layers_details@.len() ==> freshly_initialized(
                        #[trigger] net.models()[i],
                        layers_details@[i - 1].layer_size,
                        layers_details@[i],
                    )
            }),
    {
        if layers_details.len() < 2 {
            return Err(NetworkError::ConfigurationError { layers_supplied: layers_details.len() });
        }
        let layers_count = layers_details.len();
        let mut layers: Vec<NeuralNetworkLayer<S>> = Vec::new();
        let mut index: usize = 0;
        while index < layers_count
            invariant
                index <= layers_count,
                layers@.len() == index,
                forall|k: int|
                    0 <= k < index ==> (#[trigger] layers@[k]).size == layers_details@[k].layer_size,
                index >= 1 ==> {
                    &&& layers@[0]@.size == layers_details@[0].layer_size
                    &&& layers@[0]@.activation_function == layers_details@[0].activation_function
                    &&& layers@[0]@.weights.len() == 0
                    &&& layers@[0]@.biases.len() == 0
                    &&& layers@[0]@.activations is None
                    &&& layers@[0]@.z_values is None
                },
                forall|k: int|
                    1 <= k < index ==> freshly_initialized(
                        #[trigger] layers@[k]@,
                        layers_details@[k - 1].layer_size,
                        layers_details@[k],
                    ),
            decreases layers_count - index,
        {
            let current_size = layers_details[index].layer_size;
            let mut weights: Vec<Vec<S>> = Vec::new();
            let mut biases: Vec<S> = Vec::new();
            if index != 0 {
                let prev_size = layers[index - 1].size;
                let ghost limit = sp_xavier_limit::<S>(prev_size, current_size);
                let mut row_index: usize = 0;
                while row_index < current_size
                    invariant
                        row_index <= current_size,
                        weights@.len() == row_index,
                        current_size == layers_details@[index as int].layer_size,
                        prev_size == layers_details@[index as int - 1].layer_size,
                        current_size + prev_size <= usize::MAX,
                        limit == sp_xavier_limit::<S>(prev_size, current_size),
                        forall|i: int|
                            0 <= i < row_index ==> (#[trigger] weights@[i])@.len() == prev_size,
                        forall|i: int, j: int|
                            0 <= i < row_index && 0 <= j < prev_size ==> S::sp_le(
                                S::sp_neg(limit),
                                #[trigger] weights@[i]@[j],
                            ) && S::sp_le(weights@[i]@[j], limit),
                    decreases current_size - row_index,
                {
                    let mut row: Vec<S> = Vec::new();
                    let mut col_index: usize = 0;
                    while col_index < prev_size
                        invariant
                            col_index <= prev_size,
                            row@.len() == col_index,
                            current_size == layers_details@[index as int].layer_size,
                            prev_size == layers_details@[index as int - 1].layer_size,
                            current_size + prev_size <= usize::MAX,
                            limit == sp_xavier_limit::<S>(prev_size, current_size),
                            forall|j: int|
                                0 <= j < col_index ==> S::sp_le(S::sp_neg(limit), #[trigger] row@[j])
                                    && S::sp_le(row@[j], limit),
                        decreases prev_size - col_index,
                    {
                        row.push(Self::random_xavier(prev_size, current_size));
                        col_index = col_index + 1;
                    }
                    weights.push(row);
                    row_index = row_index + 1;
                }
                let mut bias_index: usize = 0;
                while bias_index < current_size
                    invariant
                        bias_index <= current_size,
                        biases@.len() == bias_index,
                        forall|j: int| 0 <= j < bias_index ==> biases@[j] == S::sp_zero(),
                    decreases current_size - bias_index,
                {
                    biases.push(S::zero());
                    bias_index = bias_index + 1;
                }
            }
            let current_layer: NeuralNetworkLayer<S> = NeuralNetworkLayer {
                biases,
                weights,
                size: current_size,
                activation_function: layers_details[index].activation_function,
                activations: None,
                z_values: None,
            };
            proof {
                if index >= 1 {
                    assert(current_layer@.biases =~= Seq::new(
                        current_size as nat,
                        |j: int| S::sp_zero(),
                    ));
                }
            }
            layers.push(current_layer);
            index = index + 1;
        }
        let network = NeuralNetwork {
            layers,
            cost_function,
            x_mean: None,
            x_sd: None,
            y_mean: None,
            y_sd: None,
        };
        proof {
            assert forall|i: int| 1 <= i < network.models().len() implies (
            #[trigger] network.models()[i]).wf(network.models()[i - 1].size as nat) by {
                assert(freshly_initialized(
                    network.models()[i],
                    layers_details@[i - 1].layer_size,
                    layers_details@[i],
                ));
            }
            assert(nn_wf(network.models()));
        }
        Ok(network)
    }

    /// Runs the input through every layer in order, caching each layer's
    /// pre-activation and activation, and returns the output layer's
    /// activation.  Fails, if and only if the input does not have the
    /// input layer's width, with a dimension mismatch, leaving the
    /// network untouched.
    #[verifier::rlimit(100)]
    #[verifier::spinoff_prover]
    pub fn forward_propagate(&mut self, input: &Vec<S>) -> (r: Result<Vec<S>, NetworkError>)
        requires
            old(self).wf(),
        ensures
            final(self).wf(),
            final(self).same_config(*old(self)),
            final(self).models().len() == old(self).models().len(),
            final(self).input_size() == old(self).input_size(),
            final(self).output_size() == old(self).output_size(),
            input@.len() != old(self).input_size() ==> (r matches Err(e) && e
                == (NetworkError::DimensionMismatch {
                expected: old(self).input_size(),
                found: input@.len() as usize,
            }) && *final(self) == *old(self)),
            input@.len() == old(self).input_size() ==> ({
                &&& final(self).models() == sp_forward_models(old(self).models(), input@)
                &&& caches_ready(final(self).models())
                &&& r matches Ok(out) && out@ == sp_network_output(old(self).models(), input@)
            }),
    {
        if input.len() != self.layers[0].size {
            return Err(
                NetworkError::DimensionMismatch {
                    expected: self.layers[0].size,
                    found: input.len(),
                },
            );
        }
        let layers_count = self.layers.len();
        let ghost original = self.models();
        self.layers[0].activations = Some(copy_vec(input));
        proof {
            assert(self.models()[0] =~= sp_forward_models(original, input@)[0]);
        }
        let mut prev_activation = copy_vec(input);
        let mut index: usize = 1;
        while index < layers_count
            invariant
                1 <= index <= layers_count,
                self.layers@.len() == layers_count,
                original.len() == layers_count,
                nn_wf(original),
                input@.len() == original[0].size,
                self.same_config(*old(self)),
                forall|k: int| index <= k < layers_count ==> self.models()[k] == original[k],
                forall|k: int|
                    0 <= k < index ==> self.models()[k] == sp_forward_models(original, input@)[k],
                prev_activation@ == sp_activations_at(original, input@, index - 1),
            decreases layers_count - index,
        {
            proof {
                lemma_activations_len(original, input@, index - 1);
                assert(original[index as int].wf(original[index as int - 1].size as nat));
            }
            let ghost lay_snap = self.layers@;
            let z = add_vector(
                &matrix_dot_vector(&self.layers[index].weights, &prev_activation),
                &self.layers[index].biases,
            );
            let a = self.layers[index].activation_function.activate(&z);
            let a_cache = copy_vec(&a);
            self.layers[index].z_values = Some(z);
            self.layers[index].activations = Some(a_cache);
            proof {
                assert forall|k: int|
                    0 <= k < layers_count && k != index implies self.models()[k]
                    == layers_view(lay_snap)[k] by {
                    assert(self.layers@[k] == lay_snap[k]);
                }
                assert(self.models()[index as int] =~= sp_forward_models(
                    original,
                    input@,
                )[index as int]);
                assert forall|k: int|
                    0 <= k < index + 1 implies self.models()[k] == sp_forward_models(
                    original,
                    input@,
                )[k] by {
                    if k < index {
                        assert(layers_view(lay_snap)[k] == sp_forward_models(original, input@)[k]);
                    }
                }
            }
            prev_activation = a;
            index = index + 1;
        }
        proof {
            assert(self.models() =~= sp_forward_models(original, input@));
            lemma_forward_models_wf(original, input@);
            assert(self.models()[0].size == original[0].size);
            assert(self.models()[layers_count - 1].size == original[layers_count - 1].size);
        }
        Ok(prev_activation)
    }

    /// Whether every cache a backward pass reads is populated with a
    /// vector of its layer's width.
    fn caches_ready_check(&self) -> (b: bool)
        requires
            self.layers@.len() >= 1,
        ensures
            b == caches_ready(self.models()),
    {
        let ready0 = match &self.layers[0].activations {
            Some(a) => a.len() == self.layers[0].size,
            None => false,
        };
        if !ready0 {
            return false;
        }
        let n = self.layers.len();
        let mut i: usize = 1;
        while i < n
            invariant
                1 <= i <= n,
                forall|k: int| 1 <= k < i ==> (#[trigger] self.models()[k]).caches_set(),
            decreases n - i,
        {
            let a_ok = match &self.layers[i].activations {
                Some(a) => a.len() == self.layers[i].size,
                None => false,
            };
            let z_ok = match &self.layers[i].z_values {
                Some(z) => z.len() == self.layers[i].size,
                None => false,
            };
            if !(a_ok && z_ok) {
                proof {
                    assert(!self.models()[i as int].caches_set());
                }
                return false;
            }
            i = i + 1;
        }
        true
    }

    /// One stochastic gradient-descent step against the target `actual`,
    /// consuming the caches the last forward pass left.  Walking from the
    /// output layer down, each layer's weights move by
    /// `-learning_rate * (delta x previous activation)` and its biases by
    /// `-learning_rate * delta`; below the output layer the error signal
    /// is pushed through the layer's just-updated weights.  Fails with a
    /// dimension mismatch if and only if `actual` does not have the
    /// output layer's width, and with an uninitialized-state error if and
    /// only if it does but some cache is missing; either failure leaves
    /// the network untouched.
    #[verifier::rlimit(100)]
    #[verifier::spinoff_prover]
    pub fn back_propagate(&mut self, actual: &Vec<S>, learning_rate: S) -> (r: Result<
        (),
        NetworkError,
    >)
        requires
            old(self).wf(),
        ensures
            final(self).wf(),
            final(self).same_config(*old(self)),
            final(self).models().len() == old(self).models().len(),
            final(self).input_size() == old(self).input_size(),
            final(self).output_size() == old(self).output_size(),
            actual@.len() != old(self).output_size() ==> (r matches Err(e) && e
                == (NetworkError::DimensionMismatch {
                expected: old(self).output_size(),
                found: actual@.len() as usize,
            }) && *final(self) == *old(self)),
            actual@.len() == old(self).output_size() && !caches_ready(old(self).models()) ==> (
            r matches Err(e) && e == NetworkError::UninitializedStateError && *final(self) == *old(
                self,
            )),
            actual@.len() == old(self).output_size() && caches_ready(old(self).models()) ==> r
                == Ok::<(), NetworkError>(()) && final(self).models() == sp_backward(
                old(self).models(),
                sp_initial_delta(old(self).models(), old(self).cost_function, actual@),
                learning_rate,
                old(self).models().len() - 1,
            ),
    {
        let layers_count = self.layers.len();
        let last_index = layers_count - 1;
        if actual.len() != self.layers[last_index].size {
            return Err(
                NetworkError::DimensionMismatch {
                    expected: self.layers[last_index].size,
                    found: actual.len(),
                },
            );
        }
        if !self.caches_ready_check() {
            return Err(NetworkError::UninitializedStateError);
        }
        let ghost original = self.models();
        proof {
            assert(original[last_index as int].caches_set());
        }
        let last_a = cached_vec(&self.layers[last_index].activations);
        let cost_derivative = self.cost_function.derivative(last_a, actual);
        let last_z = cached_vec(&self.layers[last_index].z_values);
        let activation_derivative = self.layers[last_index].activation_function.derivative(last_z);
        let mut error = hadamard_product(&[&cost_derivative, &activation_derivative]);
        let ghost initial_delta = sp_initial_delta(original, self.cost_function, actual@);
        proof {
            lemma_hadamard_pair(
                crate::linear_algebra::family_view(
                    seq![&cost_derivative, &activation_derivative],
                ),
            );
            assert(error@ == initial_delta);
        }
        let mut i: usize = last_index;
        #[verifier::loop_isolation(true)]
        while i >= 1
            invariant
                i <= last_index,
                layers_count == self.layers@.len(),
                layers_count == original.len(),
                layers_count >= 2,
                last_index == layers_count - 1,
                nn_wf(original),
                caches_ready(original),
                self.same_config(*old(self)),
                forall|k: int| 0 <= k <= i ==> self.models()[k] == original[k],
                forall|k: int|
                    i < k < layers_count ==> {
                        let m = #[trigger] self.models()[k];
                        &&& m.size == original[k].size
                        &&& m.wf(original[k - 1].size as nat)
                        &&& m.activations == original[k].activations
                        &&& m.z_values == original[k].z_values
                        &&& m.activation_function == original[k].activation_function
                    },
                i >= 1 ==> error@.len() == original[i as int].size,
                sp_backward(self.models(), error@, learning_rate, i as int) == sp_backward(
                    original,
                    initial_delta,
                    learning_rate,
                    last_index as int,
                ),
            decreases i,
        {
            let ghost before = self.models();
            let ghost delta = error@;
            proof {
                if i > 1 {
                    assert(original[i as int - 1].caches_set());
                }
                assert(before[i as int].wf(original[i as int - 1].size as nat));
            }
            let prev_a = copy_vec(cached_vec(&self.layers[i - 1].activations));
            update_layer(&mut self.layers[i], &error, &prev_a, learning_rate);
            let ghost updated = sp_update_layer(
                before[i as int],
                delta,
                before[i as int - 1].activations->0,
                learning_rate,
            );
            proof {
                assert(prev_a@ == before[i as int - 1].activations->0);
                assert(self.models()[i as int] == updated);
                assert(self.models() =~= before.update(i as int, updated));
                assert(updated.weights.len() == delta.len());
                assert forall|k: int| 0 <= k < updated.weights.len() implies (
                #[trigger] updated.weights[k]).len() == original[i as int - 1].size by {
                    assert(updated.weights[k] == sp_add_vectors(
                        before[i as int].weights[k],
                        sp_scale_matrix(
                            S::sp_neg(learning_rate),
                            sp_outer(delta, prev_a@),
                        )[k],
                    ));
                }
            }
            if i > 1 {
                proof {
                    assert(self.models()[i as int - 1] == original[i as int - 1]);
                }
                let next_error = propagate_error(&self.layers[i - 1], &self.layers[i], &error);
                proof {
                    assert(next_error@ == sp_mul_vectors(
                        sp_derivative(
                            before[i as int - 1].activation_function,
                            before[i as int - 1].z_values->0,
                        ),
                        sp_matrix_dot_vector(
                            sp_transpose(updated.weights, updated.weights[0].len()),
                            delta,
                        ),
                    ));
                }
                error = next_error;
            }
            proof {
                assert(sp_backward(before, delta, learning_rate, i as int) == sp_backward(
                    self.models(),
                    error@,
                    learning_rate,
                    i as int - 1,
                ));
            }
            i = i - 1;
        }
        proof {
            assert(self.models()[0] == original[0]);
            assert forall|k: int| 1 <= k < layers_count implies (#[trigger] self.models()[k]).wf(
                self.models()[k - 1].size as nat,
            ) by {
                assert(self.models()[k].wf(original[k - 1].size as nat));
                if k >= 2 {
                    assert(self.models()[k - 1].size == original[k - 1].size);
                }
            }
            assert(nn_wf(self.models()));
            assert(self.models()[layers_count - 1].size == original[layers_count - 1].size);
            assert(self.input_size() == old(self).input_size());
            assert(self.output_size() == old(self).output_size());
        }
        Ok(())
    }

    /// Centers and scales one value: `(value - mean) / sd`.
    pub fn standard_scale(value: S, mean: S, sd: S) -> (r: S)
        ensures
            r == sp_scale_one(value, mean, sd),
    {
        value.sub(mean).div(sd)
    }

    /// Returns one value to original units: `value * sd + mean`.
    pub fn standard_unscale(value: S, mean: S, sd: S) -> (r: S)
        ensures
            r == sp_unscale_one(value, mean, sd),
    {
        value.mul(sd).add(mean)
    }

    /// Standardizes every feature of `x` with its own mean and deviation.
    pub fn vec_standard_scale(x: &Vec<S>, mean: &Vec<S>, sd: &Vec<S>) -> (r: Vec<S>)
        requires
            mean@.len() == x@.len(),
            sd@.len() == x@.len(),
        ensures
            r@ == sp_vec_scale(x@, mean@, sd@),
    {
        let n = x.len();
        let mut result: Vec<S> = Vec::new();
        let mut i: usize = 0;
        while i < n
            invariant
                i <= n,
                result@.len() == i,
                forall|k: int|
                    0 <= k < i ==> result@[k] == sp_scale_one(x@[k], mean@[k], sd@[k]),
            decreases n - i,
        {
            result.push(Self::standard_scale(x[i], mean[i], sd[i]));
            i = i + 1;
        }
        proof {
            assert(result@ =~= sp_vec_scale(x@, mean@, sd@));
        }
        result
    }

    /// Returns every feature of `x` to original units.
    pub fn vec_standard_unscale(x: &Vec<S>, mean: &Vec<S>, sd: &Vec<S>) -> (r: Vec<S>)
        requires
            mean@.len() == x@.len(),
            sd@.len() == x@.len(),
        ensures
            r@ == sp_vec_unscale(x@, mean@, sd@),
    {
        let n = x.len();
        let mut result: Vec<S> = Vec::new();
        let mut i: usize = 0;
        while i < n
            invariant
                i <= n,
                result@.len() == i,
                forall|k: int|
                    0 <= k < i ==> result@[k] == sp_unscale_one(x@[k], mean@[k], sd@[k]),
            decreases n - i,
        {
            result.push(Self::standard_unscale(x[i], mean[i], sd[i]));
            i = i + 1;
        }
        proof {
            assert(result@ =~= sp_vec_unscale(x@, mean@, sd@));
        }
        result
    }

    /// The cost of predicting `predicted` where `actual` was wanted,
    /// under the network's cost strategy.  Fails with a dimension
    /// mismatch if and only if the lengths differ.
    pub fn calculate_error(&self, actual: &Vec<S>, predicted: &Vec<S>) -> (r: Result<
        S,
        NetworkError,
    >)
        ensures
            actual@.len() == predicted@.len() ==> r == Ok::<S, NetworkError>(
                sp_cost(self.cost_function, actual@, predicted@),
            ),
            actual@.len() != predicted@.len() ==> r == Err::<S, NetworkError>(
                NetworkError::DimensionMismatch {
                    expected: actual@.len() as usize,
                    found: predicted@.len() as usize,
                },
            ),
    {
        self.cost_function.cost(actual, predicted)
    }

    /// Trains the network on the whole data set, one gradient-descent
    /// step per sample, in sample order.  `x` holds one series per input
    /// feature and `y` one per output feature; sample `r` is entry `r`
    /// of every series.  First the per-feature mean and sample standard
    /// deviation of every series are computed and stored, replacing any
    /// earlier statistics; then every sample is standardized with them,
    /// propagated forward, and propagated backward against its
    /// standardized target.  A constant feature makes its stored
    /// deviation zero, and standardization then divides by zero: the
    /// scalar's total division decides what values flow on, so callers
    /// must validate their data first.
    #[verifier::rlimit(100)]
    #[verifier::spinoff_prover]
    pub fn train(&mut self, x: Vec<Vec<S>>, y: Vec<Vec<S>>, learning_rate: S)
        requires
            old(self).wf(),
            x@.len() == old(self).input_size(),
            y@.len() == old(self).output_size(),
            x@[0]@.len() >= 2,
            forall|i: int| 0 <= i < x@.len() ==> (#[trigger] x@[i])@.len() == x@[0]@.len(),
            forall|i: int| 0 <= i < y@.len() ==> (#[trigger] y@[i])@.len() == x@[0]@.len(),
        ensures
            final(self).wf(),
            final(self).cost_function == old(self).cost_function,
            final(self).stats_set(),
            final(self).x_mean->0@ == sp_feature_means(rows_view(x@)),
            final(self).x_sd->0@ == sp_feature_sds(rows_view(x@)),
            final(self).y_mean->0@ == sp_feature_means(rows_view(y@)),
            final(self).y_sd->0@ == sp_feature_sds(rows_view(y@)),
            final(self).models() == sp_train_prefix(
                old(self).models(),
                old(self).cost_function,
                rows_view(x@),
                rows_view(y@),
                sp_feature_means(rows_view(x@)),
                sp_feature_sds(rows_view(x@)),
                sp_feature_means(rows_view(y@)),
                sp_feature_sds(rows_view(y@)),
                learning_rate,
                x@[0]@.len() as int,
            ),
    {
        let ghost original = self.models();
        let mut x_mean: Vec<S> = Vec::new();
        let mut x_sd: Vec<S> = Vec::new();
        let mut series_index: usize = 0;
        while series_index < x.len()
            invariant
                series_index <= x@.len(),
                x_mean@.len() == series_index,
                x_sd@.len() == series_index,
                forall|k: int| 0 <= k < series_index ==> x_mean@[k] == sp_mean(x@[k]@),
                forall|k: int| 0 <= k < series_index ==> x_sd@[k] == sp_standard_deviation(x@[k]@),
            decreases x@.len() - series_index,
        {
            let stats = mean_and_standard_deviation(&x[series_index]);
            x_mean.push(stats.0);
            x_sd.push(stats.1);
            series_index = series_index + 1;
        }
        let mut y_mean: Vec<S> = Vec::new();
        let mut y_sd: Vec<S> = Vec::new();
        let mut series_index: usize = 0;
        while series_index < y.len()
            invariant
                series_index <= y@.len(),
                y_mean@.len() == series_index,
                y_sd@.len() == series_index,
                forall|k: int| 0 <= k < series_index ==> y_mean@[k] == sp_mean(y@[k]@),
                forall|k: int| 0 <= k < series_index ==> y_sd@[k] == sp_standard_deviation(y@[k]@),
            decreases y@.len() - series_index,
        {
            let stats = mean_and_standard_deviation(&y[series_index]);
            y_mean.push(stats.0);
            y_sd.push(stats.1);
            series_index = series_index + 1;
        }
        self.x_mean = Some(x_mean);
        self.x_sd = Some(x_sd);
        self.y_mean = Some(y_mean);
        self.y_sd = Some(y_sd);
        proof {
            assert(self.x_mean->0@ =~= sp_feature_means(rows_view(x@)));
            assert(self.x_sd->0@ =~= sp_feature_sds(rows_view(x@)));
            assert(self.y_mean->0@ =~= sp_feature_means(rows_view(y@)));
            assert(self.y_sd->0@ =~= sp_feature_sds(rows_view(y@)));
        }
        let sample_count = x[0].len();
        let mut row: usize = 0;
        #[verifier::loop_isolation(true)]
        while row < sample_count
            invariant
                row <= sample_count,
                sample_count == x@[0]@.len(),
                x@.len() == original[0].size,
                y@.len() == original[original.len() - 1].size,
                x@[0]@.len() >= 2,
                forall|i: int| 0 <= i < x@.len() ==> (#[trigger] x@[i])@.len() == sample_count,
                forall|i: int| 0 <= i < y@.len() ==> (#[trigger] y@[i])@.len() == sample_count,
                nn_wf(original),
                self.wf(),
                self.stats_set(),
                self.cost_function == old(self).cost_function,
                self.models().len() == original.len(),
                self.input_size() == original[0].size,
                self.output_size() == original[original.len() - 1].size,
                self.x_mean->0@ == sp_feature_means(rows_view(x@)),
                self.x_sd->0@ == sp_feature_sds(rows_view(x@)),
                self.y_mean->0@ == sp_feature_means(rows_view(y@)),
                self.y_sd->0@ == sp_feature_sds(rows_view(y@)),
                self.models() == sp_train_prefix(
                    original,
                    old(self).cost_function,
                    rows_view(x@),
                    rows_view(y@),
                    sp_feature_means(rows_view(x@)),
                    sp_feature_sds(rows_view(x@)),
                    sp_feature_means(rows_view(y@)),
                    sp_feature_sds(rows_view(y@)),
                    learning_rate,
                    row as int,
                ),
            decreases sample_count - row,
        {
            let ghost before = self.models();
            let x_of_row = get_row(&x, row);
            let scaled_x = Self::vec_standard_scale(
                &x_of_row,
                cached_vec(&self.x_mean),
                cached_vec(&self.x_sd),
            );
            proof {
                assert(x_of_row@ =~= sp_get_row(rows_view(x@), row as int));
            }
            let forward_result = self.forward_propagate(&scaled_x);
            proof {
                assert(forward_result is Ok);
                assert(self.models() == sp_forward_models(before, scaled_x@));
            }
            let y_of_row = get_row(&y, row);
            let scaled_y = Self::vec_standard_scale(
                &y_of_row,
                cached_vec(&self.y_mean),
                cached_vec(&self.y_sd),
            );
            proof {
                assert(y_of_row@ =~= sp_get_row(rows_view(y@), row as int));
            }
            let backward_result = self.back_propagate(&scaled_y, learning_rate);
            proof {
                assert(backward_result is Ok);
                assert(self.models() == sp_train_step(
                    before,
                    old(self).cost_function,
                    scaled_x@,
                    scaled_y@,
                    learning_rate,
                ));
            }
            row = row + 1;
        }
    }

    /// Standardizes `x` with the statistics stored by training, runs the
    /// network forward, and returns the output back in original units.
    /// Fails with an uninitialized-state error if and only if no
    /// training has stored statistics, and with a dimension mismatch if
    /// and only if `x` does not have the input layer's width; either
    /// failure leaves the network untouched.
    #[verifier::rlimit(100)]
    #[verifier::spinoff_prover]
    pub fn predict(&mut self, x: &Vec<S>) -> (r: Result<Vec<S>, NetworkError>)
        requires
            old(self).wf(),
        ensures
            final(self).wf(),
            final(self).same_config(*old(self)),
            final(self).input_size() == old(self).input_size(),
            final(self).output_size() == old(self).output_size(),
            old(self).stats_unset() ==> r == Err::<Vec<S>, NetworkError>(
                NetworkError::UninitializedStateError,
            ) && *final(self) == *old(self),
            old(self).stats_set() && x@.len() != old(self).input_size() ==> (r matches Err(e)
                && e == (NetworkError::DimensionMismatch {
                expected: old(self).input_size(),
                found: x@.len() as usize,
            }) && *final(self) == *old(self)),
            old(self).stats_set() && x@.len() == old(self).input_size() ==> ({
                let scaled = sp_vec_scale(x@, old(self).x_mean->0@, old(self).x_sd->0@);
                &&& final(self).models() == sp_forward_models(old(self).models(), scaled)
                &&& r matches Ok(out) && out@ == sp_vec_unscale(
                    sp_network_output(old(self).models(), scaled),
                    old(self).y_mean->0@,
                    old(self).y_sd->0@,
                )
            }),
    {
        if self.x_mean.is_none() {
            return Err(NetworkError::UninitializedStateError);
        }
        if x.len() != self.layers[0].size {
            return Err(
                NetworkError::DimensionMismatch {
                    expected: self.layers[0].size,
                    found: x.len(),
                },
            );
        }
        let ghost original = self.models();
        let scaled = Self::vec_standard_scale(x, cached_vec(&self.x_mean), cached_vec(&self.x_sd));
        let predicted = match self.forward_propagate(&scaled) {
            Ok(p) => p,
            Err(_) => vstd::pervasive::unreached(),
        };
        proof {
            lemma_activations_len(original, scaled@, original.len() - 1);
        }
        let result = Self::vec_standard_unscale(
            &predicted,
            cached_vec(&self.y_mean),
            cached_vec(&self.y_sd),
        );
        Ok(result)
    }

    /// Predicts every sample of a column-major test set and returns the
    /// mean absolute error per output feature.  Fails with an
    /// uninitialized-state error, leaving the network untouched, if and
    /// only if no training has stored statistics.
    #[verifier::rlimit(100)]
    #[verifier::spinoff_prover]
    pub fn test(&mut self, input: &Vec<Vec<S>>, output: &Vec<Vec<S>>) -> (r: Result<
        Vec<S>,
        NetworkError,
    >)
        requires
            old(self).wf(),
            input@.len() == old(self).input_size(),
            output@.len() == old(self).output_size(),
            forall|i: int|
                0 <= i < input@.len() ==> (#[trigger] input@[i])@.len() == input@[0]@.len(),
            forall|i: int|
                0 <= i < output@.len() ==> (#[trigger] output@[i])@.len() == input@[0]@.len(),
        ensures
            final(self).wf(),
            final(self).same_config(*old(self)),
            final(self).input_size() == old(self).input_size(),
            final(self).output_size() == old(self).output_size(),
            old(self).stats_unset() ==> r == Err::<Vec<S>, NetworkError>(
                NetworkError::UninitializedStateError,
            ) && *final(self) == *old(self),
            old(self).stats_set() ==> (r matches Ok(mae) && mae@ == sp_scale_vector(
                S::sp_div(S::sp_one(), S::sp_from_usize(output@[0]@.len() as usize)),
                sp_mae_prefix(
                    old(self).models(),
                    old(self).x_mean->0@,
                    old(self).x_sd->0@,
                    old(self).y_mean->0@,
                    old(self).y_sd->0@,
                    rows_view(input@),
                    rows_view(output@),
                    input@[0]@.len() as int,
                ),
            )),
    {
        if self.x_mean.is_none() {
            return Err(NetworkError::UninitializedStateError);
        }
        let ghost original = self.models();
        let ghost x_mean_values = old(self).x_mean->0@;
        let ghost x_sd_values = old(self).x_sd->0@;
        let ghost y_mean_values = old(self).y_mean->0@;
        let ghost y_sd_values = old(self).y_sd->0@;
        let sample_count = input[0].len();
        let out_features = output.len();
        let mut mae: Vec<S> = Vec::new();
        let mut j: usize = 0;
        while j < out_features
            invariant
                j <= out_features,
                mae@.len() == j,
                forall|k: int| 0 <= k < j ==> mae@[k] == S::sp_zero(),
            decreases out_features - j,
        {
            mae.push(S::zero());
            j = j + 1;
        }
        proof {
            assert(mae@ =~= sp_mae_prefix(
                original,
                x_mean_values,
                x_sd_values,
                y_mean_values,
                y_sd_values,
                rows_view(input@),
                rows_view(output@),
                0,
            ));
        }
        let mut row: usize = 0;
        #[verifier::loop_isolation(true)]
        while row < sample_count
            invariant
                row <= sample_count,
                sample_count == input@[0]@.len(),
                input@.len() == original[0].size,
                output@.len() == original[original.len() - 1].size,
                forall|i: int|
                    0 <= i < input@.len() ==> (#[trigger] input@[i])@.len() == sample_count,
                forall|i: int|
                    0 <= i < output@.len() ==> (#[trigger] output@[i])@.len() == sample_count,
                nn_wf(original),
                original.len() == self.models().len(),
                self.wf(),
                self.stats_set(),
                old(self).stats_set(),
                self.same_config(*old(self)),
                self.input_size() == original[0].size,
                self.output_size() == original[original.len() - 1].size,
                x_mean_values == old(self).x_mean->0@,
                x_sd_values == old(self).x_sd->0@,
                y_mean_values == old(self).y_mean->0@,
                y_sd_values == old(self).y_sd->0@,
                forall|k: int|
                    0 <= k < original.len() ==> (#[trigger] self.models()[k]).same_parameters(
                        original[k],
                    ),
                mae@.len() == output@.len(),
                mae@ == sp_mae_prefix(
                    original,
                    x_mean_values,
                    x_sd_values,
                    y_mean_values,
                    y_sd_values,
                    rows_view(input@),
                    rows_view(output@),
                    row as int,
                ),
            decreases sample_count - row,
        {
            let test_sample = get_row(input, row);
            proof {
                assert(test_sample@ =~= sp_get_row(rows_view(input@), row as int));
            }
            let ghost before = self.models();
            let predicted = match self.predict(&test_sample) {
                Ok(p) => p,
                Err(_) => vstd::pervasive::unreached(),
            };
            let ghost scaled = sp_vec_scale(test_sample@, x_mean_values, x_sd_values);
            proof {
                lemma_forward_deterministic(before, original, scaled, original.len() - 1);
                lemma_activations_len(before, scaled, original.len() - 1);
                assert(predicted@ == sp_predicted_row(
                    original,
                    x_mean_values,
                    x_sd_values,
                    y_mean_values,
                    y_sd_values,
                    rows_view(input@),
                    row as int,
                ));
                assert forall|k: int| 0 <= k < original.len() implies (
                #[trigger] self.models()[k]).same_parameters(original[k]) by {
                    assert(self.models()[k] == sp_forward_models(before, scaled)[k]);
                    assert(before[k].same_parameters(original[k]));
                }
            }
            let actual_row = get_row(output, row);
            proof {
                assert(actual_row@ =~= sp_get_row(rows_view(output@), row as int));
            }
            let neg_actual = minus_vector(&actual_row);
            let signed_error = add_vector(&predicted, &neg_actual);
            let error = abs_vector(&signed_error);
            proof {
                assert(error@ =~= sp_abs_error_row(
                    original,
                    x_mean_values,
                    x_sd_values,
                    y_mean_values,
                    y_sd_values,
                    rows_view(input@),
                    rows_view(output@),
                    row as int,
                ));
            }
            let new_mae = add_vector(&mae, &error);
            proof {
                assert(new_mae@ == sp_mae_prefix(
                    original,
                    x_mean_values,
                    x_sd_values,
                    y_mean_values,
                    y_sd_values,
                    rows_view(input@),
                    rows_view(output@),
                    row as int + 1,
                ));
            }
            mae = new_mae;
            row = row + 1;
        }
        let factor = S::one().div(S::from_usize(output[0].len()));
        Ok(scalar_multiply_vector(factor, &mae))
    }
}

} // verus!
