use neural_network::cost_functions::CostFunction;
use neural_network::error::NetworkError;
use neural_network::fx::{Fx, FX_SCALE};
use neural_network::linear_algebra::{
    add_matrices, add_vector, get_row, hadamard_product, matrix_dot_vector, minus_vector,
    powi_vector, scalar_multiply_matrix, scalar_multiply_vector, transpose_matrix,
    vector_dot_transposed_vector,
};
use neural_network::stat::mean_and_standard_deviation;

fn fx_int(n: i64) -> Fx {
    Fx::from_raw(n * FX_SCALE)
}

fn fx_row(values: &[i64]) -> Vec<Fx> {
    values.iter().map(|&v| fx_int(v)).collect()
}

fn raws(v: &Vec<Fx>) -> Vec<i64> {
    v.iter().map(|x| x.raw() / FX_SCALE).collect()
}

#[test]
fn matrix_dot_vector_is_the_row_by_column_product() {
    let matrix = vec![fx_row(&[1, 2]), fx_row(&[3, 4])];
    let vector = fx_row(&[5, 6]);
    let product = matrix_dot_vector(&matrix, &vector);
    assert_eq!(raws(&product), vec![17, 39]);
}

#[test]
fn scalar_multiply_vector_scales_every_entry() {
    let scaled = scalar_multiply_vector(fx_int(3), &fx_row(&[1, -2, 0]));
    assert_eq!(raws(&scaled), vec![3, -6, 0]);
}

#[test]
fn add_vector_adds_elementwise() {
    let sum = add_vector(&fx_row(&[1, 2, 3]), &fx_row(&[10, 20, 30]));
    assert_eq!(raws(&sum), vec![11, 22, 33]);
}

#[test]
fn hadamard_product_multiplies_families_elementwise() {
    let a = fx_row(&[2, 3]);
    let b = fx_row(&[4, 5]);
    let c = fx_row(&[10, 1]);
    assert_eq!(raws(&hadamard_product(&[&a, &b])), vec![8, 15]);
    assert_eq!(raws(&hadamard_product(&[&a, &b, &c])), vec![80, 15]);
    assert_eq!(raws(&hadamard_product(&[&a])), vec![2, 3]);
}

#[test]
fn vector_dot_transposed_vector_is_the_outer_product() {
    let outer = vector_dot_transposed_vector(&fx_row(&[1, 2]), &fx_row(&[3, 4]));
    assert_eq!(raws(&outer[0]), vec![3, 4]);
    assert_eq!(raws(&outer[1]), vec![6, 8]);
}

#[test]
fn add_matrices_adds_entry_by_entry() {
    let sum = add_matrices(
        &vec![fx_row(&[1, 2]), fx_row(&[3, 4])],
        &vec![fx_row(&[10, 20]), fx_row(&[30, 40])],
    );
    assert_eq!(raws(&sum[0]), vec![11, 22]);
    assert_eq!(raws(&sum[1]), vec![33, 44]);
}

#[test]
fn scalar_multiply_matrix_scales_every_entry() {
    let scaled = scalar_multiply_matrix(fx_int(-2), &vec![fx_row(&[1, 2]), fx_row(&[3, 4])]);
    assert_eq!(raws(&scaled[0]), vec![-2, -4]);
    assert_eq!(raws(&scaled[1]), vec![-6, -8]);
}

#[test]
fn transpose_matrix_swaps_rows_and_columns() {
    let transposed = transpose_matrix(&vec![fx_row(&[1, 2, 3]), fx_row(&[4, 5, 6])]);
    assert_eq!(raws(&transposed[0]), vec![1, 4]);
    assert_eq!(raws(&transposed[1]), vec![2, 5]);
    assert_eq!(raws(&transposed[2]), vec![3, 6]);
}

#[test]
fn minus_vector_negates_every_entry() {
    assert_eq!(raws(&minus_vector(&fx_row(&[1, -2, 0]))), vec![-1, 2, 0]);
}

#[test]
fn powi_vector_raises_every_entry() {
    assert_eq!(raws(&powi_vector(&fx_row(&[2, 3]), 2)), vec![4, 9]);
}

#[test]
fn get_row_picks_one_sample_from_every_series() {
    let series = vec![fx_row(&[1, 2]), fx_row(&[3, 4])];
    assert_eq!(raws(&get_row(&series, 0)), vec![1, 3]);
    assert_eq!(raws(&get_row(&series, 1)), vec![2, 4]);
}

#[test]
fn welford_mean_and_deviation_match_the_two_pass_formulas() {
    let data = fx_row(&[0, 1, 2, 3]);
    let (mean, sd) = mean_and_standard_deviation(&data);
    assert_eq!(mean.raw(), 3 * FX_SCALE / 2);
    let sd_value = (sd.raw() as f64) / (FX_SCALE as f64);
    // sample standard deviation of 0..3 is sqrt(5 / 3)
    assert!((sd_value - 1.29099).abs() < 0.001);
}

#[test]
fn mse_cost_is_the_mean_of_squared_differences() {
    let cost_function = CostFunction::MeanSquaredError;
    let cost = cost_function.cost(&fx_row(&[0, 0]), &fx_row(&[3, 1])).unwrap();
    assert_eq!(cost.raw(), 5 * FX_SCALE);
    let zero_cost = cost_function.cost(&fx_row(&[7]), &fx_row(&[7])).unwrap();
    assert_eq!(zero_cost.raw(), 0);
}

#[test]
fn mse_cost_rejects_mismatched_lengths() {
    let cost_function = CostFunction::MeanSquaredError;
    let result = cost_function.cost(&fx_row(&[1, 2]), &fx_row(&[1]));
    assert_eq!(
        result,
        Err(NetworkError::DimensionMismatch { expected: 2, found: 1 })
    );
}

#[test]
fn mse_derivative_is_two_over_n_times_the_difference() {
    let cost_function = CostFunction::MeanSquaredError;
    let gradient = cost_function.derivative(&fx_row(&[0]), &fx_row(&[3]));
    assert_eq!(raws(&gradient), vec![-6]);
    let gradient2 = cost_function.derivative(&fx_row(&[5, 1]), &fx_row(&[1, 1]));
    assert_eq!(raws(&gradient2), vec![4, 0]);
}
