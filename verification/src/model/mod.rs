//! Models, their layers and the builder that assembles them.
//!
//! Running a model forward and training it work on single-precision floats;
//! what the library keeps and proves is the structure around them: layer
//! sizes, the shape checks that guard every input, and the saved format.

pub mod format;
pub mod layer;
pub mod matrix;
pub mod model_builder;

pub use layer::Layer;
pub use model_builder::ModelBuilder;

use crate::error::{ModelError, ModelResult};
use vstd::prelude::*;

verus! {

/// A trained neural network: an ordered list of layers.
///
/// It is not built directly but with a [`ModelBuilder`].
#[derive(Clone)]
pub struct Model {
    pub layers: Vec<Layer>,
}

impl Model {
    /// The number of features the model expects: the input size of the first
    /// layer, or 0 when there is no layer.
    pub open spec fn input_dim(self) -> nat {
        if self.layers@.len() == 0 {
            0
        } else {
            self.layers@[0].in_dim()
        }
    }

    /// The number of outputs the model gives: the output size of the last
    /// layer, or 0 when there is no layer.
    pub open spec fn output_dim(self) -> nat {
        if self.layers@.len() == 0 {
            0
        } else {
            self.layers@.last().out_dim()
        }
    }

    /// The input size the model expects (that of its first layer), 0 when it
    /// has no layer.
    pub fn input_size(&self) -> (n: usize)
        ensures
            n == self.input_dim(),
            self.layers@.len() == 0 ==> n == 0,
            self.layers@.len() > 0 ==> n == self.layers@[0].in_dim(),
    {
        if self.layers.len() == 0 {
            0
        } else {
            self.layers[0].in_size()
        }
    }

    /// The output size the model gives (that of its last layer), 0 when it
    /// has no layer.
    pub fn output_size(&self) -> (n: usize)
        ensures
            n == self.output_dim(),
            self.layers@.len() == 0 ==> n == 0,
            self.layers@.len() > 0 ==> n == self.layers@[self.layers@.len() - 1].out_dim(),
    {
        let count = self.layers.len();
        if count == 0 {
            0
        } else {
            self.layers[count - 1].out_size()
        }
    }

    /// The shape check that guards a single prediction: the input must have
    /// exactly `input_size()` features.
    ///
    /// # Errors
    /// `ModelError::InputShapeMismatch` with the expected and the given
    /// length when they differ.
    pub fn check_predict_input(&self, input_len: usize) -> (r: ModelResult<()>)
        ensures
            input_len == self.input_dim() ==> r is Ok,
            input_len != self.input_dim() ==> (r matches Err(
                ModelError::InputShapeMismatch { expected, actual },
            ) && expected == self.input_dim() && actual == input_len),
            self.layers@.len() > 0 ==> (r is Ok <==> input_len == self.layers@[0].in_dim()),
            self.layers@.len() == 0 ==> (r is Ok <==> input_len == 0),
    {
        let expected = self.input_size();
        if input_len != expected {
            return Err(ModelError::InputShapeMismatch { expected, actual: input_len });
        }
        Ok(())
    }

    /// The shape check that guards a batch prediction: a flat input of
    /// `sample_count` samples must hold `sample_count * feature_size` values,
    /// where `feature_size` is the input size of the first layer.
    ///
    /// # Errors
    /// `ModelError::BatchShapeMismatch` with the sample count, the feature
    /// size, the expected and the given length when the lengths differ.
    pub fn check_batch_input(&self, input_len: usize, sample_count: usize) -> (r: ModelResult<()>)
        requires
            self.layers@.len() > 0,
            sample_count * self.input_dim() <= usize::MAX,
        ensures
            input_len == sample_count * self.input_dim() ==> r is Ok,
            input_len != sample_count * self.input_dim() ==> (r matches Err(
                ModelError::BatchShapeMismatch { sample_count: s, feature_size, expected, actual },
            ) && s == sample_count && feature_size == self.input_dim() && expected == sample_count
                * self.input_dim() && actual == input_len),
            r is Ok <==> input_len == sample_count * self.layers@[0].in_dim(),
            r matches Err(ModelError::BatchShapeMismatch { feature_size, .. }) ==> feature_size
                == self.layers@[0].in_dim(),
    {
        let feature_size = self.layers[0].in_size();
        let expected = sample_count * feature_size;
        if input_len != expected {
            return Err(
                ModelError::BatchShapeMismatch {
                    sample_count,
                    feature_size,
                    expected,
                    actual: input_len,
                },
            );
        }
        Ok(())
    }
}

/// A model expects as many features as its first layer takes and gives as
/// many outputs as its last layer gives; a model without layers takes and
/// gives none.
pub proof fn lemma_model_sizes(m: Model)
    ensures
        m.layers@.len() == 0 ==> m.input_dim() == 0 && m.output_dim() == 0,
        m.layers@.len() > 0 ==> m.input_dim() == m.layers@[0].in_dim(),
        m.layers@.len() > 0 ==> m.output_dim() == m.layers@[m.layers@.len() - 1].out_dim(),
{
}

} // verus!
