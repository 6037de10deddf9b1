use deep_learn::activations::ActivationKind;
use deep_learn::model::matrix::Matrix;
use deep_learn::model::Layer;

fn bits(values: &[f32]) -> Vec<u32> {
    values.iter().map(|v| v.to_bits()).collect()
}

#[test]
fn new_layer_has_correct_shapes() {
    let weights = Matrix::from_column_slice(5, 3, &bits(&[0.1; 15]));
    let layer = Layer::new(3, 5, ActivationKind::ReLU, weights);
    assert_eq!(layer.in_size(), 3);
    assert_eq!(layer.out_size(), 5);
    assert_eq!(layer.weights.nrows(), 5);
    assert_eq!(layer.weights.ncols(), 3);
    assert_eq!(layer.biases.nrows(), 5);
    assert_eq!(layer.biases.ncols(), 1);
}

#[test]
fn new_layer_biases_start_at_zero() {
    let weights = Matrix::from_column_slice(2, 4, &bits(&[0.5, -0.5, 0.25, -0.25, 1.0, -1.0, 2.0, -2.0]));
    let layer = Layer::new(4, 2, ActivationKind::ReLU, weights);
    assert!(layer.biases.as_slice().iter().all(|&b| f32::from_bits(b) == 0.0));
}

#[test]
fn from_parts_preserves_weights_and_biases() {
    let weights = Matrix::from_column_slice(2, 2, &bits(&[1.0, 2.0, 3.0, 4.0]));
    let biases = Matrix::from_column_slice(2, 1, &bits(&[0.5, 0.5]));
    let layer = Layer::from_parts(weights.clone(), biases.clone(), ActivationKind::ReLU);

    assert_eq!(layer.weights, weights);
    assert_eq!(layer.biases, biases);
    assert_eq!(layer.in_size(), 2);
    assert_eq!(layer.out_size(), 2);
}

#[test]
fn new_layer_keeps_given_weights_and_clears_momentum() {
    let weights = Matrix::from_column_slice(2, 3, &bits(&[1.0, 2.0, 3.0, 4.0, 5.0, 6.0]));
    let layer = Layer::new(3, 2, ActivationKind::Tanh, weights.clone());
    assert_eq!(layer.weights, weights);
    assert_eq!(layer.activation, ActivationKind::Tanh);
    assert_eq!(layer.vel_weights, Matrix::zeros(2, 3));
    assert_eq!(layer.vel_biases, Matrix::zeros(2, 1));
}

#[test]
fn from_parts_starts_momentum_at_zero() {
    let weights = Matrix::from_column_slice(1, 3, &bits(&[1.0, -2.0, 3.0]));
    let biases = Matrix::from_column_slice(1, 1, &bits(&[0.75]));
    let layer = Layer::from_parts(weights, biases, ActivationKind::Linear);
    assert_eq!(layer.vel_weights.nrows(), 1);
    assert_eq!(layer.vel_weights.ncols(), 3);
    assert!(layer.vel_weights.as_slice().iter().all(|&v| v == 0));
    assert_eq!(layer.vel_biases.as_slice(), &[0u32][..]);
}

#[test]
fn cloned_layer_is_equal_field_by_field() {
    let weights = Matrix::from_column_slice(2, 1, &bits(&[3.5, -1.5]));
    let biases = Matrix::from_column_slice(2, 1, &bits(&[0.1, 0.2]));
    let layer = Layer::from_parts(weights, biases, ActivationKind::LeakyReLU(0.01f32.to_bits()));
    let copy = layer.clone();
    assert_eq!(copy.weights, layer.weights);
    assert_eq!(copy.biases, layer.biases);
    assert_eq!(copy.activation, layer.activation);
    assert_eq!(copy.vel_weights, layer.vel_weights);
    assert_eq!(copy.vel_biases, layer.vel_biases);
}

#[test]
fn matrix_keeps_column_major_entries_and_shape() {
    let data = [1u32, 2, 3, 4, 5, 6];
    let m = Matrix::from_column_slice(3, 2, &data);
    assert_eq!(m.nrows(), 3);
    assert_eq!(m.ncols(), 2);
    assert_eq!(m.as_slice(), &data[..]);
    let z = Matrix::zeros(2, 3);
    assert_eq!(z.nrows(), 2);
    assert_eq!(z.ncols(), 3);
    assert_eq!(z.as_slice(), &[0u32; 6][..]);
}
