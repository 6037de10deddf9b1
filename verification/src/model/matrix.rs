//! Dense `nalgebra` matrices of layer parameters.
//!
//! The parameters of a layer are single-precision floats; the library keeps
//! each one as its IEEE-754 bit pattern, so a `Matrix` is a
//! `nalgebra::DMatrix<u32>`. Its shape and its entries, column by column,
//! are what the contracts speak of.

use nalgebra::DMatrix;
use vstd::prelude::*;

verus! {

/// A dense `nalgebra` matrix whose entries are the IEEE-754 bit patterns of
/// single-precision parameters, stored column by column.
#[verifier::external_body]
#[derive(Debug, PartialEq)]
pub struct Matrix {
    inner: DMatrix<u32>,
}

/// The entries of a matrix in column-major order.
pub uninterp spec fn entries(m: Matrix) -> Seq<u32>;

/// The shape of a matrix: its number of rows and its number of columns.
pub uninterp spec fn shape(m: Matrix) -> (nat, nat);

/// A sequence of `len` zero bit patterns (the pattern of `+0.0`).
pub open spec fn zero_bits(len: nat) -> Seq<u32> {
    Seq::new(len, |i: int| 0u32)
}

/// The shape of `m` is `rows` x `cols` and it holds one entry per cell.
pub open spec fn has_shape(m: Matrix, rows: nat, cols: nat) -> bool {
    &&& shape(m) == (rows, cols)
    &&& entries(m).len() == rows * cols
}

impl Matrix {
    /// Builds a `rows` x `cols` matrix from `data` read column by column
    /// (`DMatrix::from_column_slice`, which panics unless
    /// `data.len() == rows * cols`): the matrix has that shape and its
    /// entries are `data`.
    #[verifier::external_body]
    pub fn from_column_slice(rows: usize, cols: usize, data: &[u32]) -> (m: Matrix)
        requires
            data@.len() == rows * cols,
        ensures
            shape(m) == (rows as nat, cols as nat),
            entries(m) == data@,
    {
        Matrix { inner: DMatrix::from_column_slice(rows, cols, data) }
    }

    /// A `rows` x `cols` matrix of zeros (`DMatrix::zeros`, whose element
    /// count `rows * cols` must not overflow).
    #[verifier::external_body]
    pub fn zeros(rows: usize, cols: usize) -> (m: Matrix)
        requires
            rows * cols <= usize::MAX,
        ensures
            shape(m) == (rows as nat, cols as nat),
            entries(m) == zero_bits(rows as nat * cols as nat),
    {
        Matrix { inner: DMatrix::zeros(rows, cols) }
    }

    /// The number of rows (`Matrix::nrows`). Every dense matrix stores
    /// exactly `rows * cols` entries in one vector, so that product fits in
    /// `usize`.
    #[verifier::external_body]
    pub fn nrows(&self) -> (n: usize)
        ensures
            n == shape(*self).0,
            entries(*self).len() == n * shape(*self).1,
            n * shape(*self).1 <= usize::MAX,
    {
        self.inner.nrows()
    }

    /// The number of columns (`Matrix::ncols`). Every dense matrix stores
    /// exactly `rows * cols` entries in one vector, so that product fits in
    /// `usize`.
    #[verifier::external_body]
    pub fn ncols(&self) -> (n: usize)
        ensures
            n == shape(*self).1,
            entries(*self).len() == shape(*self).0 * n,
            shape(*self).0 * n <= usize::MAX,
    {
        self.inner.ncols()
    }

    /// The entries in column-major order (`Matrix::as_slice`), one per cell.
    #[verifier::external_body]
    pub fn as_slice(&self) -> (s: &[u32])
        ensures
            s@ == entries(*self),
            s@.len() == shape(*self).0 * shape(*self).1,
    {
        self.inner.as_slice()
    }
}

impl Clone for Matrix {
    /// Copies the matrix (`Clone` of `nalgebra::Matrix`, which clones its
    /// storage): the copy has the same shape and entries.
    #[verifier::external_body]
    fn clone(&self) -> (c: Self)
        ensures
            shape(c) == shape(*self),
            entries(c) == entries(*self),
    {
        Matrix { inner: self.inner.clone() }
    }
}

} // verus!
