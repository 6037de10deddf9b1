//! The errors of every fallible operation of the library.

use vstd::prelude::*;

verus! {

#[verifier::external_type_specification]
#[verifier::external_body]
pub struct ExIoError(std::io::Error);

/// Everything that can go wrong while building, using, saving or loading a
/// model.
#[derive(Debug)]
pub enum ModelError {
    /// `ModelBuilder::add_layer` was given a layer whose input size is not
    /// the output size of the previous layer.
    LayerShapeMismatch { expected: usize, actual: usize },
    /// A single prediction input does not have as many features as the
    /// model expects.
    InputShapeMismatch { expected: usize, actual: usize },
    /// A flat batch of prediction inputs does not hold
    /// `sample_count * feature_size` values.
    BatchShapeMismatch { sample_count: usize, feature_size: usize, expected: usize, actual: usize },
    /// A slice does not hold `rows * cols` values.
    SliceShapeMismatch { expected: usize, rows: usize, cols: usize, actual: usize },
    /// The saved data does not start with the format's magic bytes.
    InvalidMagic,
    /// The saved data has a format version that this library does not read.
    UnsupportedVersion(u32),
    /// The saved data names an activation id that no activation kind has.
    UnknownActivationId(u8),
    /// A lower-level input/output failure, such as saved data that ends early.
    Io(std::io::Error),
}

/// Shorthand for the result of every fallible operation of the library.
pub type ModelResult<T> = Result<T, ModelError>;

/// The error that reading past the end of the available bytes gives
/// (`std::io::Error::from(ErrorKind::UnexpectedEof)`, the kind that
/// `Read::read_exact` reports at the end of its input). Nothing is stated of
/// the returned value: Verus sees `std::io::Error` as opaque.
#[verifier::external_body]
pub(crate) fn unexpected_eof() -> std::io::Error {
    std::io::Error::from(std::io::ErrorKind::UnexpectedEof)
}

} // verus!
