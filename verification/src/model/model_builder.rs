//! The builder that assembles a model layer by layer, and the saved form of
//! its layers.

use crate::activations::ActivationKind;
use crate::error::{unexpected_eof, ModelError, ModelResult};
use crate::model::format::{
    decode_model, encode_layer, encode_layers, encode_model, parse_layer, parse_layers, prepend,
    push_word, push_words, read_u32_le, reports, words_at, LayerRecord, LoadFailure,
    FORMAT_VERSION, MAGIC, lemma_prepend_prepend, lemma_prepend_empty, magic, lemma_decode_encode,
};
use crate::model::layer::Layer;
use crate::model::matrix::{entries, shape, Matrix};
use crate::model::Model;
use vstd::prelude::*;

verus! {

/// What is saved of each of `layers`, in order.
pub open spec fn records(layers: Seq<Layer>) -> Seq<LayerRecord> {
    layers.map_values(|l: Layer| l.record())
}

/// Builds a [`Model`] layer by layer, checking that the sizes of successive
/// layers fit.
pub struct ModelBuilder {
    pub layers: Vec<Layer>,
    pub last_out_size: Option<usize>,
}

impl ModelBuilder {
    /// Every layer is well formed, and `last_out_size` is the output size of
    /// the last layer (`None` when there is none).
    pub open spec fn wf(self) -> bool {
        &&& forall|i: int| 0 <= i < self.layers@.len() ==> (#[trigger] self.layers@[i]).wf()
        &&& match self.last_out_size {
            Some(n) => self.layers@.len() > 0 && n == self.layers@.last().out_dim(),
            None => self.layers@.len() == 0,
        }
    }

    /// Each layer takes as many inputs as the layer before it gives outputs.
    pub open spec fn chained(self) -> bool {
        forall|i: int, j: int|
            0 <= i && j == i + 1 && j < self.layers@.len() ==> #[trigger] self.layers@[j].in_dim()
                == #[trigger] self.layers@[i].out_dim()
    }

    /// The format can hold the builder: the number of layers and every layer
    /// size fit in a 32-bit word.
    pub open spec fn fits_format(self) -> bool {
        &&& self.layers@.len() <= u32::MAX
        &&& forall|i: int|
            0 <= i < self.layers@.len() ==> (#[trigger] self.layers@[i]).in_dim() <= u32::MAX
                && self.layers@[i].out_dim() <= u32::MAX
    }

    /// A layer with `in_size` inputs does not fit after the last layer.
    pub open spec fn rejects(self, in_size: usize) -> bool {
        match self.last_out_size {
            Some(expected) => expected != in_size,
            None => false,
        }
    }

    /// A builder with no layer.
    pub fn new() -> (b: Self)
        ensures
            b.layers@.len() == 0,
            b.last_out_size is None,
            b.wf(),
            b.chained(),
    {
        ModelBuilder { layers: Vec::new(), last_out_size: None }
    }

    /// Appends a layer of `in_size` inputs and `out_size` outputs with the
    /// given activation, initial weights (an `out_size` x `in_size` matrix),
    /// zero biases and zero momentum.
    ///
    /// # Errors
    /// `ModelError::LayerShapeMismatch` when `in_size` differs from the
    /// output size of the previous layer; the builder is then consumed.
    pub fn add_layer(
        self,
        in_size: usize,
        out_size: usize,
        activation: ActivationKind,
        weights: Matrix,
    ) -> (r: ModelResult<Self>)
        requires
            shape(weights) == (out_size as nat, in_size as nat),
        ensures
            self.rejects(in_size) ==> (r matches Err(
                ModelError::LayerShapeMismatch { expected, actual },
            ) && self.last_out_size == Some(expected) && actual == in_size),
            !self.rejects(in_size) ==> (r matches Ok(b) && b.layers@.drop_last() == self.layers@
                && b.layers@.len() == self.layers@.len() + 1 && b.layers@.last().fresh_from(
                activation,
                weights,
            ) && b.last_out_size == Some(out_size)),
            self.wf() && self.chained() ==> (r matches Ok(b) ==> b.wf() && b.chained()),
    {
        if let Some(expected) = self.last_out_size {
            if expected != in_size {
                return Err(ModelError::LayerShapeMismatch { expected, actual: in_size });
            }
        }
        let mut builder = self;
        builder.layers.push(Layer::new(in_size, out_size, activation, weights));
        builder.last_out_size = Some(out_size);
        assert(builder.layers@.drop_last() =~= self.layers@);
        assert(forall|i: int|
            0 <= i < self.layers@.len() ==> builder.layers@[i] == #[trigger] self.layers@[i]);
        proof {
            if self.wf() && self.chained() {
                let n = self.layers@.len() as int;
                assert forall|i: int, j: int|
                    0 <= i && j == i + 1 && j < builder.layers@.len() implies #[trigger] builder.layers@[j].in_dim()
                    == #[trigger] builder.layers@[i].out_dim() by {
                    if j < n {
                        assert(builder.layers@[j] == self.layers@[j]);
                        assert(builder.layers@[i] == self.layers@[i]);
                    } else {
                        assert(builder.layers@[i] == self.layers@.last());
                    }
                }
            }
        }
        Ok(builder)
    }

    /// Consumes the builder and gives the model of its layers.
    pub fn build(self) -> (m: Model)
        ensures
            m.layers@ == self.layers@,
    {
        Model { layers: self.layers }
    }

    /// The saved form of the builder's layers: for each its sizes,
    /// activation and parameters, in the versioned binary format (see
    /// [`crate::model::format`]). Momentum is not saved.
    ///
    /// Sizes and the layer count are written as 32-bit words, truncated as
    /// `as u32` truncates.
    pub fn to_bytes(&self) -> (bytes: Vec<u8>)
        ensures
            bytes@ == encode_model(records(self.layers@)),
    {
        let mut out: Vec<u8> = Vec::new();
        out.push(MAGIC[0]);
        out.push(MAGIC[1]);
        out.push(MAGIC[2]);
        out.push(MAGIC[3]);
        assert(out@ =~= magic());
        push_word(&mut out, FORMAT_VERSION);
        let count = self.layers.len();
        push_word(&mut out, count as u32);
        let ghost head = out@;
        let ghost saved = records(self.layers@);
        assert(encode_layers(saved.take(0)) =~= seq![]);
        for i in 0..count
            invariant
                count == self.layers@.len(),
                saved == records(self.layers@),
                out@ == head + encode_layers(saved.take(i as int)),
        {
            let layer = &self.layers[i];
            let ghost before = out@;
            push_word(&mut out, layer.in_size() as u32);
            push_word(&mut out, layer.out_size() as u32);
            let activation = layer.activation;
            out.push(activation.to_id());
            // every activation but LeakyReLU saves the bit pattern of 0.0
            let alpha: u32 = match activation {
                ActivationKind::LeakyReLU(a) => a,
                _ => 0,
            };
            push_word(&mut out, alpha);
            push_words(&mut out, layer.weights.as_slice());
            push_words(&mut out, layer.biases.as_slice());
            proof {
                assert(saved.take(i + 1).drop_last() =~= saved.take(i as int));
                assert(saved.take(i + 1).last() == layer.record());
                assert(out@ =~= before + encode_layer(layer.record()));
            }
        }
        assert(saved.take(count as int) =~= saved);
        out
    }

    /// Reads a model saved by [`ModelBuilder::to_bytes`]. The layers come
    /// back with zero momentum (momentum is not saved); more layers can then
    /// be added, or the model built. Bytes after the last layer are ignored.
    ///
    /// # Errors
    /// - `ModelError::Io` (an unexpected end of input) when the bytes end
    ///   before the data they announce
    /// - `ModelError::InvalidMagic` when they do not start with `DLRN`
    /// - `ModelError::UnsupportedVersion` for another format version
    /// - `ModelError::UnknownActivationId` for an unknown activation
    ///
    /// each at the first place where the bytes go wrong.
    pub fn from_bytes(bytes: &[u8]) -> (r: ModelResult<Self>)
        ensures
            match decode_model(bytes@) {
                Ok(rs) => r matches Ok(b) && records(b.layers@) == rs && b.wf() && (forall|i: int|
                    0 <= i < b.layers@.len() ==> (#[trigger] b.layers@[i]).velocities_cleared()),
                Err(f) => r matches Err(e) && reports(e, f),
            },
    {
        let len = bytes.len();
        if len < 4 {
            return Err(ModelError::Io(unexpected_eof()));
        }
        if bytes[0] != MAGIC[0] || bytes[1] != MAGIC[1] || bytes[2] != MAGIC[2] || bytes[3]
            != MAGIC[3] {
            return Err(ModelError::InvalidMagic);
        }
        assert(bytes@.subrange(0, 4) =~= magic());
        if len < 8 {
            return Err(ModelError::Io(unexpected_eof()));
        }
        let version = read_u32_le(bytes, 4);
        if version != FORMAT_VERSION {
            return Err(ModelError::UnsupportedVersion(version));
        }
        if len < 12 {
            return Err(ModelError::Io(unexpected_eof()));
        }
        let num_layers = read_u32_le(bytes, 8);

        let mut layers: Vec<Layer> = Vec::new();
        let mut last_out_size: Option<usize> = None;
        let mut pos: usize = 12;
        let mut done: u32 = 0;
        assert(records(layers@) =~= seq![]);
        proof {
            lemma_prepend_empty(parse_layers(bytes@, 12, num_layers as nat));
        }
        while done < num_layers
            invariant
                len == bytes@.len(),
                12 <= pos <= len,
                done <= num_layers,
                decode_model(bytes@) == match parse_layers(bytes@, 12, num_layers as nat) {
                    Ok((rs, _)) => Ok::<Seq<LayerRecord>, LoadFailure>(rs),
                    Err(f) => Err(f),
                },
                parse_layers(bytes@, 12, num_layers as nat) == prepend(
                    records(layers@),
                    parse_layers(bytes@, pos as int, (num_layers - done) as nat),
                ),
                layers@.len() == done,
                forall|i: int|
                    0 <= i < layers@.len() ==> (#[trigger] layers@[i]).wf()
                        && layers@[i].velocities_cleared(),
                match last_out_size {
                    Some(n) => layers@.len() > 0 && n == layers@.last().out_dim(),
                    None => layers@.len() == 0,
                },
            decreases num_layers - done,
        {
            let ghost remaining = (num_layers - done) as nat;
            let (layer, next) = read_layer(bytes, pos)?;
            proof {
                let record = layer.record();
                lemma_prepend_prepend(
                    records(layers@),
                    seq![record],
                    parse_layers(bytes@, next as int, (remaining - 1) as nat),
                );
                assert(records(layers@.push(layer)) =~= records(layers@) + seq![record]);
            }
            last_out_size = Some(layer.out_size());
            layers.push(layer);
            pos = next;
            done = done + 1;
        }
        proof {
            assert(records(layers@) + seq![] =~= records(layers@));
        }
        Ok(ModelBuilder { layers, last_out_size })
    }
}

impl Default for ModelBuilder {
    /// A builder with no layer.
    fn default() -> (b: Self)
        ensures
            b.layers@.len() == 0,
            b.last_out_size is None,
    {
        ModelBuilder::new()
    }
}

} // verus!

verus! {

/// Turns a slice into a `rows` x `cols` matrix, read column by column (the
/// order in which a saved model holds its parameters).
///
/// # Errors
/// `ModelError::SliceShapeMismatch` when the slice does not hold
/// `rows * cols` values.
pub fn slice_to_dmatrix(data: &[u32], rows: usize, cols: usize) -> (r: ModelResult<Matrix>)
    requires
        rows * cols <= usize::MAX,
    ensures
        data@.len() == rows * cols ==> (r matches Ok(m) && shape(m) == (rows as nat, cols as nat)
            && entries(m) == data@),
        data@.len() != rows * cols ==> (r matches Err(
            ModelError::SliceShapeMismatch { expected, rows: r_rows, cols: r_cols, actual },
        ) && expected == rows * cols && r_rows == rows && r_cols == cols && actual == data@.len()),
{
    let expected = rows * cols;
    if data.len() != expected {
        return Err(
            ModelError::SliceShapeMismatch { expected, rows, cols, actual: data.len() },
        );
    }
    Ok(Matrix::from_column_slice(rows, cols, data))
}

/// Reads `count` parameters, each the little-endian bit pattern of a
/// single-precision float, from `bytes` starting at `pos`.
///
/// # Errors
/// `ModelError::Io` (an unexpected end of input) when fewer than
/// `4 * count` bytes follow `pos`.
pub fn read_f32_vec(bytes: &[u8], pos: usize, count: usize) -> (r: ModelResult<Vec<u32>>)
    ensures
        pos + 4 * count <= bytes@.len() ==> (r matches Ok(v) && v@ == words_at(
            bytes@,
            pos as int,
            count as nat,
        )),
        pos + 4 * count > bytes@.len() ==> (r matches Err(e) && e is Io),
{
    let len = bytes.len();
    if pos > len || count > (len - pos) / 4 {
        return Err(ModelError::Io(unexpected_eof()));
    }
    let mut values: Vec<u32> = Vec::new();
    for i in 0..count
        invariant
            len == bytes@.len(),
            pos + 4 * count <= len,
            values@ == words_at(bytes@, pos as int, i as nat),
    {
        let value = read_u32_le(bytes, pos + 4 * i);
        values.push(value);
        assert(values@ =~= words_at(bytes@, pos as int, (i + 1) as nat));
    }
    Ok(values)
}

/// Reads the layer saved at `pos`: the layer (with zero momentum, which is
/// not saved) and the position right after it.
fn read_layer(bytes: &[u8], pos: usize) -> (r: ModelResult<(Layer, usize)>)
    requires
        pos <= bytes@.len(),
    ensures
        match parse_layer(bytes@, pos as int) {
            Ok((record, end)) => r matches Ok((layer, next)) && layer.record() == record
                && layer.wf() && layer.velocities_cleared() && next == end,
            Err(f) => r matches Err(e) && reports(e, f),
        },
{
    let len = bytes.len();
    if len - pos < 13 {
        return Err(ModelError::Io(unexpected_eof()));
    }
    let in_size = read_u32_le(bytes, pos);
    let out_size = read_u32_le(bytes, pos + 4);
    let id = bytes[pos + 8];
    let alpha = read_u32_le(bytes, pos + 9);
    let activation = ActivationKind::from_id(id, alpha)?;

    let weights_at = pos + 13;
    assert((in_size as u64) * (out_size as u64) <= u64::MAX) by (nonlinear_arith)
        requires
            in_size <= u32::MAX,
            out_size <= u32::MAX,
    ;
    let count64 = (in_size as u64) * (out_size as u64);
    let available = ((len - weights_at) / 4) as u64;
    if count64 > available {
        return Err(ModelError::Io(unexpected_eof()));
    }
    let count = count64 as usize;
    assert(out_size * in_size == count) by (nonlinear_arith)
        requires
            count == in_size * out_size,
    ;
    let weight_data = read_f32_vec(bytes, weights_at, count)?;
    let weights = slice_to_dmatrix(&weight_data, out_size as usize, in_size as usize)?;

    let biases_at = weights_at + 4 * count;
    let bias_data = read_f32_vec(bytes, biases_at, out_size as usize)?;
    let biases = slice_to_dmatrix(&bias_data, out_size as usize, 1)?;

    let layer = Layer::from_parts(weights, biases, activation);
    Ok((layer, biases_at + 4 * (out_size as usize)))
}

/// Saving and loading give back what was saved: the saved bytes of a well
/// formed builder that the format can hold, followed by anything, load as
/// the same layers (activations, sizes, weights and biases).
pub proof fn lemma_save_load_roundtrip(b: ModelBuilder, tail: Seq<u8>)
    requires
        b.wf(),
        b.fits_format(),
    ensures
        decode_model(encode_model(records(b.layers@)) + tail) == Ok::<
            Seq<LayerRecord>,
            LoadFailure,
        >(records(b.layers@)),
{
    let rs = records(b.layers@);
    assert forall|i: int| 0 <= i < rs.len() implies (#[trigger] rs[i]).savable() by {
        let l = b.layers@[i];
        assert(l.wf());
        assert(rs[i] == l.record());
        assert(l.out_dim() * l.in_dim() == l.in_dim() * l.out_dim()) by (nonlinear_arith);
    }
    lemma_decode_encode(rs, tail);
}

/// The model built from a well formed builder gives as many outputs as the
/// last added layer (the builder's `last_out_size`, 0 without layers), and
/// expects as many features as the first added layer takes.
pub proof fn lemma_built_model_sizes(b: ModelBuilder, m: Model)
    requires
        b.wf(),
        m.layers@ == b.layers@,
    ensures
        m.output_dim() == match b.last_out_size {
            Some(n) => n as nat,
            None => 0nat,
        },
        b.layers@.len() > 0 ==> m.input_dim() == b.layers@[0].in_dim(),
        b.layers@.len() == 0 ==> m.input_dim() == 0,
{
}

/// A well formed builder (one made by `new`, `add_layer` or `from_bytes`)
/// refuses exactly the layers whose input size differs from the output size
/// of its last layer: an empty builder takes any layer, and a loaded builder
/// takes more layers that fit after its last one.
pub proof fn lemma_accepts_fitting_layer(b: ModelBuilder, in_size: usize)
    requires
        b.wf(),
    ensures
        b.rejects(in_size) <==> (b.layers@.len() > 0 && in_size != b.layers@.last().out_dim()),
{
}

} // verus!
