use deep_learn::activations::ActivationKind;
use deep_learn::model::matrix::Matrix;
use deep_learn::model::model_builder::{read_f32_vec, slice_to_dmatrix};
use deep_learn::model::ModelBuilder;
use deep_learn::ModelError;

fn bits(values: &[f32]) -> Vec<u32> {
    values.iter().map(|v| v.to_bits()).collect()
}

fn weights(rows: usize, cols: usize) -> Matrix {
    let values: Vec<f32> = (0..rows * cols).map(|i| (i as f32) * 0.37 - 1.0).collect();
    Matrix::from_column_slice(rows, cols, &bits(&values))
}

fn xor_builder() -> ModelBuilder {
    ModelBuilder::default()
        .add_layer(2, 4, ActivationKind::LeakyReLU(0.01f32.to_bits()), weights(4, 2))
        .unwrap()
        .add_layer(4, 1, ActivationKind::Sigmoid, weights(1, 4))
        .unwrap()
}

#[test]
fn slice_to_dmatrix_correct_shape_succeeds() {
    let data = bits(&[1.0, 2.0, 3.0, 4.0, 5.0, 6.0]);
    let m = slice_to_dmatrix(&data, 2, 3).unwrap();
    assert_eq!(m.nrows(), 2);
    assert_eq!(m.ncols(), 3);
}

#[test]
fn slice_to_dmatrix_wrong_shape_errors() {
    let data = bits(&[1.0, 2.0, 3.0]);
    let result = slice_to_dmatrix(&data, 2, 2);
    assert!(matches!(result, Err(ModelError::SliceShapeMismatch { .. })));
}

#[test]
fn slice_to_dmatrix_reports_every_size() {
    let data = [9u32, 8, 7];
    assert!(matches!(
        slice_to_dmatrix(&data, 2, 2),
        Err(ModelError::SliceShapeMismatch { expected: 4, rows: 2, cols: 2, actual: 3 })
    ));
    let m = slice_to_dmatrix(&data, 3, 1).unwrap();
    assert_eq!(m.as_slice(), &data[..]);
}

#[test]
fn save_and_load_roundtrip_preserves_weights() {
    let builder = xor_builder();
    let bytes = builder.to_bytes();
    let loaded = ModelBuilder::from_bytes(&bytes).unwrap();

    assert_eq!(loaded.layers.len(), builder.layers.len());
    for (original, restored) in builder.layers.iter().zip(loaded.layers.iter()) {
        assert_eq!(original.weights, restored.weights);
        assert_eq!(original.biases, restored.biases);
        assert_eq!(original.in_size(), restored.in_size());
        assert_eq!(original.out_size(), restored.out_size());
    }
}

#[test]
fn save_and_load_roundtrip_keeps_activations_and_last_size() {
    let builder = xor_builder();
    let loaded = ModelBuilder::from_bytes(&builder.to_bytes()).unwrap();
    assert_eq!(loaded.layers[0].activation, ActivationKind::LeakyReLU(0.01f32.to_bits()));
    assert_eq!(loaded.layers[1].activation, ActivationKind::Sigmoid);
    assert_eq!(loaded.last_out_size, Some(1));
}

#[test]
fn load_invalid_magic_errors() {
    let result = ModelBuilder::from_bytes(b"XXXXgarbagebytes");
    assert!(matches!(result, Err(ModelError::InvalidMagic)));
}

#[test]
fn loaded_builder_can_add_more_layers() {
    let builder = xor_builder();
    let bytes = builder.to_bytes();
    let extended = ModelBuilder::from_bytes(&bytes)
        .unwrap()
        .add_layer(1, 1, ActivationKind::Sigmoid, weights(1, 1))
        .unwrap();
    let model = extended.build();

    assert_eq!(model.layers.len(), 3);
}

#[test]
fn loaded_builder_refuses_a_layer_that_does_not_fit() {
    let loaded = ModelBuilder::from_bytes(&xor_builder().to_bytes()).unwrap();
    let result = loaded.add_layer(3, 1, ActivationKind::Sigmoid, weights(1, 3));
    assert!(matches!(result, Err(ModelError::LayerShapeMismatch { expected: 1, actual: 3 })));
}

#[test]
fn saved_bytes_follow_the_format() {
    let w = Matrix::from_column_slice(1, 2, &[0x0102_0304, 0xAABB_CCDD]);
    let builder = ModelBuilder::new().add_layer(2, 1, ActivationKind::LeakyReLU(0x1122_3344), w).unwrap();
    let bytes = builder.to_bytes();
    let expected: Vec<u8> = vec![
        b'D', b'L', b'R', b'N', // magic
        1, 0, 0, 0, // version
        1, 0, 0, 0, // layer count
        2, 0, 0, 0, // in size
        1, 0, 0, 0, // out size
        2, // activation id
        0x44, 0x33, 0x22, 0x11, // alpha
        0x04, 0x03, 0x02, 0x01, 0xDD, 0xCC, 0xBB, 0xAA, // weights
        0, 0, 0, 0, // bias
    ];
    assert_eq!(bytes, expected);
}

#[test]
fn empty_builder_saves_a_bare_header() {
    let bytes = ModelBuilder::new().to_bytes();
    assert_eq!(bytes, vec![b'D', b'L', b'R', b'N', 1, 0, 0, 0, 0, 0, 0, 0]);
    let loaded = ModelBuilder::from_bytes(&bytes).unwrap();
    assert!(loaded.layers.is_empty());
    assert_eq!(loaded.last_out_size, None);
}

#[test]
fn load_of_short_input_is_an_io_error() {
    assert!(matches!(ModelBuilder::from_bytes(b"DL"), Err(ModelError::Io(_))));
    assert!(matches!(ModelBuilder::from_bytes(b"DLRN\x01\x00"), Err(ModelError::Io(_))));
    let mut bytes = xor_builder().to_bytes();
    bytes.truncate(bytes.len() - 1);
    assert!(matches!(ModelBuilder::from_bytes(&bytes), Err(ModelError::Io(_))));
}

#[test]
fn load_of_other_version_errors() {
    let mut bytes = xor_builder().to_bytes();
    bytes[4] = 2;
    assert!(matches!(ModelBuilder::from_bytes(&bytes), Err(ModelError::UnsupportedVersion(2))));
}

#[test]
fn load_of_unknown_activation_errors() {
    let mut bytes = xor_builder().to_bytes();
    bytes[20] = 9;
    assert!(matches!(ModelBuilder::from_bytes(&bytes), Err(ModelError::UnknownActivationId(9))));
}

#[test]
fn load_ignores_trailing_bytes() {
    let builder = xor_builder();
    let mut bytes = builder.to_bytes();
    bytes.extend_from_slice(&[7, 7, 7]);
    let loaded = ModelBuilder::from_bytes(&bytes).unwrap();
    assert_eq!(loaded.layers.len(), 2);
    assert_eq!(loaded.layers[1].weights, builder.layers[1].weights);
}

#[test]
fn loaded_layers_have_zero_momentum() {
    let loaded = ModelBuilder::from_bytes(&xor_builder().to_bytes()).unwrap();
    for layer in &loaded.layers {
        assert!(layer.vel_weights.as_slice().iter().all(|&v| v == 0));
        assert!(layer.vel_biases.as_slice().iter().all(|&v| v == 0));
    }
}

#[test]
fn read_f32_vec_reads_little_endian_words() {
    let bytes = [9u8, 0x00, 0x00, 0x80, 0x3f, 0x00, 0x00, 0x00, 0x40];
    let values = read_f32_vec(&bytes, 1, 2).unwrap();
    assert_eq!(values, vec![1.0f32.to_bits(), 2.0f32.to_bits()]);
    assert!(matches!(read_f32_vec(&bytes, 2, 2), Err(ModelError::Io(_))));
    assert!(matches!(read_f32_vec(&bytes, 10, 0), Err(ModelError::Io(_))));
    assert_eq!(read_f32_vec(&bytes, 9, 0).unwrap(), Vec::<u32>::new());
}
