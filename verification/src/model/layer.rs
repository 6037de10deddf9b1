//! A single fully connected layer: weights, biases, activation and the
//! momentum state of its training.

use crate::activations::ActivationKind;
use crate::model::format::LayerRecord;
use crate::model::matrix::{entries, has_shape, shape, zero_bits, Matrix};
use vstd::prelude::*;

verus! {

/// A fully connected (dense) layer.
///
/// `weights` is an `out_size` x `in_size` matrix, so that `weights * input`
/// gives an `out_size` x `batch_size` output; `biases` is an `out_size` x 1
/// column. The momentum ("velocity") matrices have the shapes of the
/// parameters they follow and start at zero; the training step, which works
/// on single-precision floats, updates parameters and momentum together.
pub struct Layer {
    pub weights: Matrix,
    pub biases: Matrix,
    pub activation: ActivationKind,
    pub vel_weights: Matrix,
    pub vel_biases: Matrix,
}

impl Layer {
    /// The input size: the number of columns of `weights`.
    pub open spec fn in_dim(self) -> nat {
        shape(self.weights).1
    }

    /// The output size: the number of rows of `weights`.
    pub open spec fn out_dim(self) -> nat {
        shape(self.weights).0
    }

    /// Every matrix of the layer has the shape that its role asks for.
    pub open spec fn wf(self) -> bool {
        &&& has_shape(self.weights, self.out_dim(), self.in_dim())
        &&& has_shape(self.biases, self.out_dim(), 1)
        &&& has_shape(self.vel_weights, self.out_dim(), self.in_dim())
        &&& has_shape(self.vel_biases, self.out_dim(), 1)
    }

    /// Both momentum matrices are zero, with the shapes of the parameters.
    pub open spec fn velocities_cleared(self) -> bool {
        &&& shape(self.vel_weights) == (self.out_dim(), self.in_dim())
        &&& entries(self.vel_weights) == zero_bits(self.out_dim() * self.in_dim())
        &&& shape(self.vel_biases) == (self.out_dim(), 1nat)
        &&& entries(self.vel_biases) == zero_bits(self.out_dim())
    }

    /// The layer is newly made with `activation` and `weights`: zero biases
    /// (one per output) and zero momentum.
    pub open spec fn fresh_from(self, activation: ActivationKind, weights: Matrix) -> bool {
        &&& self.weights == weights
        &&& self.activation == activation
        &&& shape(self.biases) == (self.out_dim(), 1nat)
        &&& entries(self.biases) == zero_bits(self.out_dim())
        &&& self.velocities_cleared()
    }

    /// What is saved of the layer: its activation, its sizes and its
    /// parameters (the momentum is not saved).
    pub open spec fn record(self) -> LayerRecord {
        LayerRecord {
            activation: self.activation,
            in_size: self.in_dim(),
            out_size: self.out_dim(),
            weights: entries(self.weights),
            biases: entries(self.biases),
        }
    }

    /// A new layer with the given initial weights, zero biases and zero
    /// momentum.
    pub fn new(in_size: usize, out_size: usize, activation: ActivationKind, weights: Matrix) -> (l: Layer)
        requires
            shape(weights) == (out_size as nat, in_size as nat),
        ensures
            l.fresh_from(activation, weights),
            l.wf(),
    {
        let rows = weights.nrows();
        let cols = weights.ncols();
        let biases = Matrix::zeros(rows, 1);
        let vel_weights = Matrix::zeros(rows, cols);
        let vel_biases = Matrix::zeros(rows, 1);
        Layer { weights, biases, activation, vel_weights, vel_biases }
    }

    /// The input size of the layer (the number of columns of `weights`).
    pub fn in_size(&self) -> (n: usize)
        ensures
            n == self.in_dim(),
    {
        self.weights.ncols()
    }

    /// The output size of the layer (the number of rows of `weights`).
    pub fn out_size(&self) -> (n: usize)
        ensures
            n == self.out_dim(),
    {
        self.weights.nrows()
    }

    /// A layer made of saved weights, biases and activation. The momentum
    /// starts at zero: it is not saved.
    pub fn from_parts(weights: Matrix, biases: Matrix, activation: ActivationKind) -> (l: Layer)
        ensures
            l.weights == weights,
            l.biases == biases,
            l.activation == activation,
            l.velocities_cleared(),
    {
        let out_size = weights.nrows();
        let in_size = weights.ncols();
        let vel_weights = Matrix::zeros(out_size, in_size);
        let vel_biases = Matrix::zeros(out_size, 1);
        Layer { weights, biases, activation, vel_weights, vel_biases }
    }
}

impl Clone for Layer {
    /// Copies the layer: the copy has the same activation and matrices of the
    /// same shapes and entries.
    fn clone(&self) -> (c: Self)
        ensures
            c.activation == self.activation,
            shape(c.weights) == shape(self.weights),
            entries(c.weights) == entries(self.weights),
            shape(c.biases) == shape(self.biases),
            entries(c.biases) == entries(self.biases),
            shape(c.vel_weights) == shape(self.vel_weights),
            entries(c.vel_weights) == entries(self.vel_weights),
            shape(c.vel_biases) == shape(self.vel_biases),
            entries(c.vel_biases) == entries(self.vel_biases),
    {
        Layer {
            weights: self.weights.clone(),
            biases: self.biases.clone(),
            activation: self.activation,
            vel_weights: self.vel_weights.clone(),
            vel_biases: self.vel_biases.clone(),
        }
    }
}

} // verus!
