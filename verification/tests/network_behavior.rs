use neural_network::activation_functions::ActivationFunction;
use neural_network::cost_functions::CostFunction;
use neural_network::error::NetworkError;
use neural_network::fx::{Fx, FX_SCALE};
use neural_network::layer_details::LayerDetails;
use neural_network::neural_network::NeuralNetwork;
use neural_network::scalar::Scalar;

fn fx_int(n: i64) -> Fx {
    Fx::from_raw(n * FX_SCALE)
}

fn fx_row(values: &[i64]) -> Vec<Fx> {
    values.iter().map(|&v| fx_int(v)).collect()
}

fn to_f64(x: Fx) -> f64 {
    (x.raw() as f64) / (FX_SCALE as f64)
}

fn linear_specs(sizes: &[usize]) -> Vec<LayerDetails> {
    sizes
        .iter()
        .map(|&s| LayerDetails::new(s, ActivationFunction::Linear))
        .collect()
}

#[test]
fn construction_rejects_fewer_than_two_layers() {
    let result = NeuralNetwork::<Fx>::new(&linear_specs(&[3]), CostFunction::MeanSquaredError);
    assert_eq!(
        result.err(),
        Some(NetworkError::ConfigurationError { layers_supplied: 1 })
    );
    let empty = NeuralNetwork::<Fx>::new(&[], CostFunction::MeanSquaredError);
    assert_eq!(
        empty.err(),
        Some(NetworkError::ConfigurationError { layers_supplied: 0 })
    );
}

#[test]
fn construction_shapes_weights_and_biases_to_the_specs() {
    let network =
        NeuralNetwork::<Fx>::new(&linear_specs(&[3, 4, 2]), CostFunction::MeanSquaredError)
            .unwrap();
    assert_eq!(network.layers.len(), 3);
    assert_eq!(network.layers[0].weights.len(), 0);
    assert_eq!(network.layers[0].biases.len(), 0);
    assert_eq!(network.layers[1].weights.len(), 4);
    for row in &network.layers[1].weights {
        assert_eq!(row.len(), 3);
    }
    assert_eq!(network.layers[1].biases.len(), 4);
    assert_eq!(network.layers[2].weights.len(), 2);
    for row in &network.layers[2].weights {
        assert_eq!(row.len(), 4);
    }
    assert_eq!(network.layers[2].biases.len(), 2);
    for bias in &network.layers[1].biases {
        assert_eq!(bias.raw(), 0);
    }
}

#[test]
fn construction_draws_weights_inside_the_xavier_interval() {
    let network =
        NeuralNetwork::<Fx>::new(&linear_specs(&[3, 4]), CostFunction::MeanSquaredError).unwrap();
    let limit = Fx::from_usize(6).div(Fx::from_usize(7)).sqrt();
    let mut all_equal = true;
    let first = network.layers[1].weights[0][0];
    for row in &network.layers[1].weights {
        for weight in row {
            assert!(-limit.raw() <= weight.raw() && weight.raw() <= limit.raw());
            if weight.raw() != first.raw() {
                all_equal = false;
            }
        }
    }
    // twelve independent draws from tens of thousands of raw values
    assert!(!all_equal);
}

#[test]
fn forward_rejects_an_input_of_the_wrong_width() {
    let mut network =
        NeuralNetwork::<Fx>::new(&linear_specs(&[2, 1]), CostFunction::MeanSquaredError).unwrap();
    let result = network.forward_propagate(&fx_row(&[1, 2, 3]));
    assert_eq!(
        result.err(),
        Some(NetworkError::DimensionMismatch { expected: 2, found: 3 })
    );
    let short = network.forward_propagate(&fx_row(&[1]));
    assert_eq!(
        short.err(),
        Some(NetworkError::DimensionMismatch { expected: 2, found: 1 })
    );
}

#[test]
fn forward_is_deterministic_for_fixed_parameters() {
    let mut network = NeuralNetwork::<Fx>::new(
        &[
            LayerDetails::new(2, ActivationFunction::Linear),
            LayerDetails::new(3, ActivationFunction::Sigmoid),
            LayerDetails::new(1, ActivationFunction::Tanh),
        ],
        CostFunction::MeanSquaredError,
    )
    .unwrap();
    let input = fx_row(&[1, -2]);
    let first = network.forward_propagate(&input).unwrap();
    let second = network.forward_propagate(&input).unwrap();
    assert_eq!(first, second);
}

#[test]
fn forward_computes_weighted_sums_and_caches() {
    let mut network =
        NeuralNetwork::<Fx>::new(&linear_specs(&[2, 1]), CostFunction::MeanSquaredError).unwrap();
    network.layers[1].weights = vec![fx_row(&[2, 3])];
    network.layers[1].biases = fx_row(&[5]);
    let output = network.forward_propagate(&fx_row(&[10, 100])).unwrap();
    assert_eq!(output.len(), 1);
    // 2 * 10 + 3 * 100 + 5
    assert_eq!(output[0].raw(), 325 * FX_SCALE);
    assert_eq!(network.layers[0].activations, Some(fx_row(&[10, 100])));
    assert_eq!(network.layers[1].z_values, Some(fx_row(&[325])));
    assert_eq!(network.layers[1].activations, Some(fx_row(&[325])));
}

#[test]
fn backward_before_any_forward_reports_uninitialized_state() {
    let mut network =
        NeuralNetwork::<Fx>::new(&linear_specs(&[2, 1]), CostFunction::MeanSquaredError).unwrap();
    let result = network.back_propagate(&fx_row(&[1]), fx_int(1));
    assert_eq!(result, Err(NetworkError::UninitializedStateError));
}

#[test]
fn backward_rejects_a_target_of_the_wrong_width() {
    let mut network =
        NeuralNetwork::<Fx>::new(&linear_specs(&[2, 1]), CostFunction::MeanSquaredError).unwrap();
    let result = network.back_propagate(&fx_row(&[1, 2]), fx_int(1));
    assert_eq!(
        result,
        Err(NetworkError::DimensionMismatch { expected: 1, found: 2 })
    );
}

#[test]
fn one_backward_step_moves_against_the_gradient() {
    // a single linear layer with zeroed weights, mean squared error,
    // one sample (x = [1, 2], y = [3]), learning rate one tenth
    let mut network =
        NeuralNetwork::<Fx>::new(&linear_specs(&[2, 1]), CostFunction::MeanSquaredError).unwrap();
    network.layers[1].weights = vec![fx_row(&[0, 0])];
    let learning_rate = Fx::one().div(Fx::from_usize(10));
    network.forward_propagate(&fx_row(&[1, 2])).unwrap();
    network.back_propagate(&fx_row(&[3]), learning_rate).unwrap();
    // the cost gradient at the zero output is 2 * (0 - 3) / 1 = -6, so
    // the bias moves by +0.6 and weight i by 0.6 * x_i
    let bias = to_f64(network.layers[1].biases[0]);
    assert!((bias - 0.6).abs() < 0.001, "bias moved to {bias}");
    let w0 = to_f64(network.layers[1].weights[0][0]);
    let w1 = to_f64(network.layers[1].weights[0][1]);
    assert!((w0 - 0.6).abs() < 0.001, "first weight moved to {w0}");
    assert!((w1 - 1.2).abs() < 0.002, "second weight moved to {w1}");
}

#[test]
fn predict_before_training_reports_uninitialized_state() {
    let mut network =
        NeuralNetwork::<Fx>::new(&linear_specs(&[2, 1]), CostFunction::MeanSquaredError).unwrap();
    let result = network.predict(&fx_row(&[1, 2]));
    assert_eq!(result, Err(NetworkError::UninitializedStateError));
}

#[test]
fn predict_rejects_an_input_of_the_wrong_width() {
    let mut network =
        NeuralNetwork::<Fx>::new(&linear_specs(&[2, 1]), CostFunction::MeanSquaredError).unwrap();
    let learning_rate = Fx::one().div(Fx::from_usize(10));
    network.train(
        vec![fx_row(&[0, 1, 2]), fx_row(&[1, 2, 3])],
        vec![fx_row(&[1, 3, 5])],
        learning_rate,
    );
    let result = network.predict(&fx_row(&[1, 2, 3]));
    assert_eq!(
        result,
        Err(NetworkError::DimensionMismatch { expected: 2, found: 3 })
    );
}

#[test]
fn standardization_round_trips_within_tolerance() {
    let mean = fx_row(&[3, -1, 0]);
    let sd = vec![
        Fx::from_raw(3 * FX_SCALE / 2),
        fx_int(2),
        Fx::from_raw(FX_SCALE / 4),
    ];
    let values = fx_row(&[7, -5, 1]);
    let scaled = NeuralNetwork::vec_standard_scale(&values, &mean, &sd);
    let back = NeuralNetwork::vec_standard_unscale(&scaled, &mean, &sd);
    for (original, returned) in values.iter().zip(back.iter()) {
        assert!((to_f64(*original) - to_f64(*returned)).abs() < 0.001);
    }
}

#[test]
fn cost_is_nonnegative_and_zero_exactly_on_a_perfect_prediction() {
    let network =
        NeuralNetwork::<Fx>::new(&linear_specs(&[2, 2]), CostFunction::MeanSquaredError).unwrap();
    let actual = fx_row(&[1, -4]);
    for predicted in [fx_row(&[0, 0]), fx_row(&[1, -4]), fx_row(&[-7, 9])] {
        let cost = network.calculate_error(&actual, &predicted).unwrap();
        assert!(cost.raw() >= 0);
    }
    let perfect = network.calculate_error(&actual, &fx_row(&[1, -4])).unwrap();
    assert_eq!(perfect.raw(), 0);
}

#[test]
fn training_learns_a_line_end_to_end() {
    // y = 2 x, trained network must predict y(5) = 10 within half a unit
    let mut network =
        NeuralNetwork::<Fx>::new(&linear_specs(&[1, 1]), CostFunction::MeanSquaredError).unwrap();
    let learning_rate = Fx::one().div(Fx::from_usize(10));
    for _ in 0..200 {
        let x = vec![fx_row(&[0, 1, 2, 3])];
        let y = vec![fx_row(&[0, 2, 4, 6])];
        network.train(x, y, learning_rate);
    }
    let predicted = network.predict(&fx_row(&[5])).unwrap();
    assert_eq!(predicted.len(), 1);
    let value = to_f64(predicted[0]);
    assert!((value - 10.0).abs() < 0.5, "predicted {value}");
}

#[test]
fn prediction_is_deterministic_after_training() {
    let mut network =
        NeuralNetwork::<Fx>::new(&linear_specs(&[1, 1]), CostFunction::MeanSquaredError).unwrap();
    let learning_rate = Fx::one().div(Fx::from_usize(20));
    network.train(
        vec![fx_row(&[0, 1, 2, 3])],
        vec![fx_row(&[1, 3, 5, 7])],
        learning_rate,
    );
    let first = network.predict(&fx_row(&[2])).unwrap();
    let second = network.predict(&fx_row(&[2])).unwrap();
    assert_eq!(first, second);
}

#[test]
fn test_reports_the_mean_absolute_error() {
    let mut network =
        NeuralNetwork::<Fx>::new(&linear_specs(&[1, 1]), CostFunction::MeanSquaredError).unwrap();
    let learning_rate = Fx::one().div(Fx::from_usize(10));
    for _ in 0..200 {
        network.train(
            vec![fx_row(&[0, 1, 2, 3])],
            vec![fx_row(&[0, 2, 4, 6])],
            learning_rate,
        );
    }
    let mae = network
        .test(&vec![fx_row(&[0, 1, 2, 3])], &vec![fx_row(&[0, 2, 4, 6])])
        .unwrap();
    assert_eq!(mae.len(), 1);
    assert!(to_f64(mae[0]).abs() < 0.25, "mean absolute error {}", to_f64(mae[0]));
}

#[test]
fn test_before_training_reports_uninitialized_state() {
    let mut network =
        NeuralNetwork::<Fx>::new(&linear_specs(&[1, 1]), CostFunction::MeanSquaredError).unwrap();
    let result = network.test(&vec![fx_row(&[0, 1])], &vec![fx_row(&[0, 2])]);
    assert_eq!(result, Err(NetworkError::UninitializedStateError));
}

#[test]
fn activations_match_their_formulas_at_zero() {
    let zero = vec![Fx::zero()];
    let sigmoid = ActivationFunction::Sigmoid.activate(&zero);
    assert_eq!(sigmoid[0].raw(), FX_SCALE / 2);
    let sigmoid_slope = ActivationFunction::Sigmoid.derivative(&zero);
    assert_eq!(sigmoid_slope[0].raw(), FX_SCALE / 4);
    let tanh = ActivationFunction::Tanh.activate(&zero);
    assert_eq!(tanh[0].raw(), 0);
    let tanh_slope = ActivationFunction::Tanh.derivative(&zero);
    assert_eq!(tanh_slope[0].raw(), FX_SCALE);
    let linear = ActivationFunction::Linear.activate(&fx_row(&[9]));
    assert_eq!(linear[0].raw(), 9 * FX_SCALE);
    let linear_slope = ActivationFunction::Linear.derivative(&fx_row(&[9]));
    assert_eq!(linear_slope[0].raw(), FX_SCALE);
}
