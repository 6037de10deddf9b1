//! The versioned binary format of saved models.
//!
//! All integers are little-endian. A file is the magic bytes `DLRN`, the
//! format version (a 32-bit word, 1), the number of layers (a 32-bit word),
//! then each layer: its input size and output size (32-bit words), its
//! activation identifier (one byte), the activation parameter (the bit
//! pattern of a single-precision float), the `out_size * in_size` weights in
//! column-major order and the `out_size` biases, each weight and bias the bit
//! pattern of a single-precision float.

use crate::activations::{kind_from_id, ActivationKind};
use crate::error::ModelError;
use vstd::bytes::{spec_u32_from_le_bytes, spec_u32_to_le_bytes, lemma_auto_spec_u32_to_from_le_bytes, u32_from_le_bytes, u32_to_le_bytes};
use vstd::prelude::*;
use vstd::slice::slice_subrange;

verus! {

/// The bytes every saved model starts with: `DLRN`.
pub const MAGIC: [u8; 4] = [0x44, 0x4c, 0x52, 0x4e];

/// The only format version that is written and read.
pub const FORMAT_VERSION: u32 = 1;

/// The magic bytes as a sequence.
pub open spec fn magic() -> Seq<u8> {
    seq![0x44u8, 0x4c, 0x52, 0x4e]
}

/// What is saved of one layer.
pub struct LayerRecord {
    pub activation: ActivationKind,
    pub in_size: nat,
    pub out_size: nat,
    /// The weights in column-major order.
    pub weights: Seq<u32>,
    pub biases: Seq<u32>,
}

impl LayerRecord {
    /// The record describes a layer that the format can hold: its sizes fit
    /// in a 32-bit word and it has one weight per cell and one bias per
    /// output.
    pub open spec fn savable(self) -> bool {
        &&& self.in_size <= u32::MAX
        &&& self.out_size <= u32::MAX
        &&& self.weights.len() == self.in_size * self.out_size
        &&& self.biases.len() == self.out_size
    }
}

/// Why loading saved bytes fails.
pub enum LoadFailure {
    /// The bytes end before the data they announce.
    Truncated,
    /// The bytes do not start with the magic bytes.
    InvalidMagic,
    /// The format version is not the one this library reads.
    UnsupportedVersion(u32),
    /// A layer names an unknown activation identifier.
    UnknownActivationId(u8),
}

/// The library error `e` reports the load failure `f`.
pub open spec fn reports(e: ModelError, f: LoadFailure) -> bool {
    match f {
        LoadFailure::Truncated => e is Io,
        LoadFailure::InvalidMagic => e is InvalidMagic,
        LoadFailure::UnsupportedVersion(v) => e matches ModelError::UnsupportedVersion(w) && w == v,
        LoadFailure::UnknownActivationId(id) => e matches ModelError::UnknownActivationId(i) && i == id,
    }
}

/// The little-endian bytes of a 32-bit word.
pub open spec fn word(w: u32) -> Seq<u8> {
    spec_u32_to_le_bytes(w)
}

/// The little-endian bytes of a sequence of 32-bit words, one after the other.
pub open spec fn words(ws: Seq<u32>) -> Seq<u8>
    decreases ws.len(),
{
    if ws.len() == 0 {
        seq![]
    } else {
        words(ws.drop_last()) + word(ws.last())
    }
}

/// The 32-bit word stored little-endian at `pos`.
pub open spec fn word_at(bytes: Seq<u8>, pos: int) -> u32 {
    spec_u32_from_le_bytes(bytes.subrange(pos, pos + 4))
}

/// The `count` 32-bit words stored little-endian from `pos` on.
pub open spec fn words_at(bytes: Seq<u8>, pos: int, count: nat) -> Seq<u32> {
    Seq::new(count, |i: int| word_at(bytes, pos + 4 * i))
}

/// The bytes of one saved layer.
pub open spec fn encode_layer(r: LayerRecord) -> Seq<u8> {
    word(r.in_size as u32) + word(r.out_size as u32) + seq![r.activation.id()] + word(
        r.activation.saved_alpha(),
    ) + words(r.weights) + words(r.biases)
}

/// The bytes of saved layers, one after the other.
pub open spec fn encode_layers(rs: Seq<LayerRecord>) -> Seq<u8>
    decreases rs.len(),
{
    if rs.len() == 0 {
        seq![]
    } else {
        encode_layers(rs.drop_last()) + encode_layer(rs.last())
    }
}

/// The bytes of a saved model with the given layers.
pub open spec fn encode_model(rs: Seq<LayerRecord>) -> Seq<u8> {
    magic() + word(FORMAT_VERSION) + word(rs.len() as u32) + encode_layers(rs)
}

/// Reads one layer at `pos`: the layer and the position after it.
pub open spec fn parse_layer(bytes: Seq<u8>, pos: int) -> Result<(LayerRecord, int), LoadFailure> {
    if bytes.len() < pos + 13 {
        Err(LoadFailure::Truncated)
    } else {
        let in_size = word_at(bytes, pos);
        let out_size = word_at(bytes, pos + 4);
        let id = bytes[pos + 8];
        let alpha = word_at(bytes, pos + 9);
        match kind_from_id(id, alpha) {
            None => Err(LoadFailure::UnknownActivationId(id)),
            Some(kind) => {
                let count = in_size * out_size;
                let weights_at = pos + 13;
                let biases_at = weights_at + 4 * count;
                let end = biases_at + 4 * out_size;
                if bytes.len() < end {
                    Err(LoadFailure::Truncated)
                } else {
                    Ok(
                        (
                            LayerRecord {
                                activation: kind,
                                in_size: in_size as nat,
                                out_size: out_size as nat,
                                weights: words_at(bytes, weights_at, count as nat),
                                biases: words_at(bytes, biases_at, out_size as nat),
                            },
                            end,
                        ),
                    )
                }
            },
        }
    }
}

/// Puts `pre` in front of the layers of a successful read.
pub open spec fn prepend(
    pre: Seq<LayerRecord>,
    r: Result<(Seq<LayerRecord>, int), LoadFailure>,
) -> Result<(Seq<LayerRecord>, int), LoadFailure> {
    match r {
        Ok((rs, end)) => Ok((pre + rs, end)),
        Err(f) => Err(f),
    }
}

/// Reads `count` layers from `pos` on: the layers and the position after
/// them, or the first failure.
pub open spec fn parse_layers(bytes: Seq<u8>, pos: int, count: nat) -> Result<
    (Seq<LayerRecord>, int),
    LoadFailure,
>
    decreases count,
{
    if count == 0 {
        Ok((seq![], pos))
    } else {
        match parse_layer(bytes, pos) {
            Err(f) => Err(f),
            Ok((r, next)) => prepend(seq![r], parse_layers(bytes, next, (count - 1) as nat)),
        }
    }
}

/// Reads a saved model: its layers, or why the bytes are not one. Bytes after
/// the last layer are ignored.
pub open spec fn decode_model(bytes: Seq<u8>) -> Result<Seq<LayerRecord>, LoadFailure> {
    if bytes.len() < 4 {
        Err(LoadFailure::Truncated)
    } else if bytes.subrange(0, 4) != magic() {
        Err(LoadFailure::InvalidMagic)
    } else if bytes.len() < 8 {
        Err(LoadFailure::Truncated)
    } else if word_at(bytes, 4) != FORMAT_VERSION {
        Err(LoadFailure::UnsupportedVersion(word_at(bytes, 4)))
    } else if bytes.len() < 12 {
        Err(LoadFailure::Truncated)
    } else {
        match parse_layers(bytes, 12, word_at(bytes, 8) as nat) {
            Ok((rs, _)) => Ok(rs),
            Err(f) => Err(f),
        }
    }
}

/// Reads the little-endian 32-bit word at `pos`.
pub(crate) fn read_u32_le(bytes: &[u8], pos: usize) -> (w: u32)
    requires
        pos + 4 <= bytes.len(),
    ensures
        w == word_at(bytes@, pos as int),
{
    let chunk = slice_subrange(bytes, pos, pos + 4);
    u32_from_le_bytes(chunk)
}

/// Appends the little-endian bytes of `w`.
pub(crate) fn push_word(out: &mut Vec<u8>, w: u32)
    ensures
        final(out)@ == old(out)@ + word(w),
{
    let mut bytes = u32_to_le_bytes(w);
    out.append(&mut bytes);
}

/// Appends the little-endian bytes of each word of `ws`, in order.
pub(crate) fn push_words(out: &mut Vec<u8>, ws: &[u32])
    ensures
        final(out)@ == old(out)@ + words(ws@),
{
    let ghost start = out@;
    let n = ws.len();
    for i in 0..n
        invariant
            n == ws@.len(),
            out@ == start + words(ws@.take(i as int)),
    {
        proof {
            assert(ws@.take(i + 1).drop_last() =~= ws@.take(i as int));
            assert(ws@.take(i + 1).last() == ws@[i as int]);
        }
        push_word(out, ws[i]);
        assert(out@ =~= start + words(ws@.take(i + 1)));
    }
    assert(ws@.take(n as int) =~= ws@);
}

/// Putting `a` and then `b` in front of a read is putting `a + b` in front
/// of it.
pub proof fn lemma_prepend_prepend(
    a: Seq<LayerRecord>,
    b: Seq<LayerRecord>,
    r: Result<(Seq<LayerRecord>, int), LoadFailure>,
)
    ensures
        prepend(a, prepend(b, r)) == prepend(a + b, r),
{
    if let Ok((rs, end)) = r {
        assert(a + (b + rs) =~= (a + b) + rs);
    }
}

/// Putting nothing in front of a read leaves it as it is.
pub proof fn lemma_prepend_empty(r: Result<(Seq<LayerRecord>, int), LoadFailure>)
    ensures
        prepend(seq![], r) == r,
{
    if let Ok((rs, end)) = r {
        assert(seq![] + rs =~= rs);
    }
}

/// A word takes four bytes, and a sequence of words four bytes per word.
pub proof fn lemma_words_len(ws: Seq<u32>)
    ensures
        words(ws).len() == 4 * ws.len(),
    decreases ws.len(),
{
    lemma_auto_spec_u32_to_from_le_bytes();
    if ws.len() > 0 {
        lemma_words_len(ws.drop_last());
    }
}

/// A word written anywhere is read back at the same place.
pub proof fn lemma_word_at_concat(pre: Seq<u8>, w: u32, post: Seq<u8>)
    ensures
        word_at(pre + word(w) + post, pre.len() as int) == w,
{
    lemma_auto_spec_u32_to_from_le_bytes();
    let bytes = pre + word(w) + post;
    assert(bytes.subrange(pre.len() as int, pre.len() + 4int) =~= word(w));
}

/// Words written one after the other anywhere are read back at the same
/// place.
pub proof fn lemma_words_at_concat(pre: Seq<u8>, ws: Seq<u32>, post: Seq<u8>)
    ensures
        words_at(pre + words(ws) + post, pre.len() as int, ws.len()) == ws,
    decreases ws.len(),
{
    let bytes = pre + words(ws) + post;
    if ws.len() == 0 {
        assert(words_at(bytes, pre.len() as int, ws.len()) =~= ws);
    } else {
        let init = ws.drop_last();
        let last = ws.last();
        assert(bytes =~= pre + words(init) + (word(last) + post));
        lemma_words_at_concat(pre, init, word(last) + post);
        lemma_words_len(init);
        assert(bytes =~= (pre + words(init)) + word(last) + post);
        lemma_word_at_concat(pre + words(init), last, post);
        assert forall|i: int| 0 <= i < ws.len() implies #[trigger] words_at(
            bytes,
            pre.len() as int,
            ws.len(),
        )[i] == ws[i] by {
            if i < init.len() {
                assert(words_at(bytes, pre.len() as int, init.len())[i] == init[i]);
            }
        }
        assert(words_at(bytes, pre.len() as int, ws.len()) =~= ws);
    }
}

/// In the bytes of a saved layer, the identifier is byte 8 and the four
/// bytes after it are the activation parameter: the slope of `LeakyReLU`, and
/// the encoding of the word 0 (the bit pattern of `0.0`) for any other
/// activation.
pub proof fn lemma_encode_layer_activation_bytes(r: LayerRecord)
    ensures
        encode_layer(r)[8] == r.activation.id(),
        r.activation matches ActivationKind::LeakyReLU(a) ==> encode_layer(r).subrange(9, 13)
            == word(a),
        !(r.activation is LeakyReLU) ==> encode_layer(r).subrange(9, 13) == word(0u32),
{
    lemma_auto_spec_u32_to_from_le_bytes();
    let head = word(r.in_size as u32) + word(r.out_size as u32) + seq![r.activation.id()];
    let alpha_w = word(r.activation.saved_alpha());
    assert(encode_layer(r) =~= head + alpha_w + (words(r.weights) + words(r.biases)));
    assert(encode_layer(r).subrange(9, 13) =~= alpha_w);
    crate::activations::lemma_saved_alpha(r.activation);
}

/// The layers of a model are written first to last: the first layer's bytes
/// come first.
pub proof fn lemma_encode_layers_front(rs: Seq<LayerRecord>)
    requires
        rs.len() > 0,
    ensures
        encode_layers(rs) == encode_layer(rs[0]) + encode_layers(rs.drop_first()),
    decreases rs.len(),
{
    if rs.len() == 1 {
        assert(rs.drop_last().len() == 0);
        assert(rs.drop_first().len() == 0);
        assert(encode_layers(rs.drop_last()) =~= seq![]);
        assert(encode_layers(rs.drop_first()) =~= seq![]);
        assert(rs.last() == rs[0]);
        assert(encode_layers(rs) =~= encode_layer(rs[0]) + encode_layers(rs.drop_first()));
    } else {
        let init = rs.drop_last();
        lemma_encode_layers_front(init);
        let rest = rs.drop_first();
        assert(rest.drop_last() =~= init.drop_first());
        assert(rest.last() == rs.last());
        assert(init[0] == rs[0]);
        assert(encode_layers(rs) == encode_layers(init) + encode_layer(rs.last()));
        assert(encode_layers(rest) == encode_layers(rest.drop_last()) + encode_layer(rest.last()));
        assert(encode_layers(rs) =~= encode_layer(rs[0]) + encode_layers(rest));
    }
}

/// The bytes of one layer take 13 bytes of header, four bytes per weight
/// and four bytes per bias.
pub proof fn lemma_encode_layer_len(r: LayerRecord)
    ensures
        encode_layer(r).len() == 13 + 4 * r.weights.len() + 4 * r.biases.len(),
{
    lemma_auto_spec_u32_to_from_le_bytes();
    lemma_words_len(r.weights);
    lemma_words_len(r.biases);
}

/// A savable layer written anywhere is read back at the same place, and the
/// read ends right after its bytes.
pub proof fn lemma_parse_layer_encoded(pre: Seq<u8>, r: LayerRecord, post: Seq<u8>)
    requires
        r.savable(),
    ensures
        parse_layer(pre + encode_layer(r) + post, pre.len() as int) == Ok::<
            (LayerRecord, int),
            LoadFailure,
        >((r, (pre.len() + encode_layer(r).len()) as int)),
{
    lemma_auto_spec_u32_to_from_le_bytes();
    lemma_encode_layer_len(r);
    let p = pre.len() as int;
    let in_w = word(r.in_size as u32);
    let out_w = word(r.out_size as u32);
    let id_b = seq![r.activation.id()];
    let alpha_w = word(r.activation.saved_alpha());
    let ws = words(r.weights);
    let bs = words(r.biases);
    let bytes = pre + encode_layer(r) + post;
    lemma_words_len(r.weights);
    lemma_words_len(r.biases);

    assert(bytes =~= pre + in_w + (out_w + id_b + alpha_w + ws + bs + post));
    lemma_word_at_concat(pre, r.in_size as u32, out_w + id_b + alpha_w + ws + bs + post);
    assert(bytes =~= (pre + in_w) + out_w + (id_b + alpha_w + ws + bs + post));
    lemma_word_at_concat(pre + in_w, r.out_size as u32, id_b + alpha_w + ws + bs + post);
    assert(bytes[p + 8] == r.activation.id());
    assert(bytes =~= (pre + in_w + out_w + id_b) + alpha_w + (ws + bs + post));
    lemma_word_at_concat(pre + in_w + out_w + id_b, r.activation.saved_alpha(), ws + bs + post);
    crate::activations::lemma_kind_id_roundtrip(r.activation);

    assert(word_at(bytes, p) == r.in_size);
    assert(word_at(bytes, p + 4) == r.out_size);
    let count = word_at(bytes, p) * word_at(bytes, p + 4);
    assert(count == r.weights.len());
    assert(bytes =~= (pre + in_w + out_w + id_b + alpha_w) + ws + (bs + post));
    lemma_words_at_concat(pre + in_w + out_w + id_b + alpha_w, r.weights, bs + post);
    assert(bytes =~= (pre + in_w + out_w + id_b + alpha_w + ws) + bs + post);
    lemma_words_at_concat(pre + in_w + out_w + id_b + alpha_w + ws, r.biases, post);
}

/// Savable layers written one after the other anywhere are read back at the
/// same place, and the read ends right after their bytes.
pub proof fn lemma_parse_layers_encoded(pre: Seq<u8>, rs: Seq<LayerRecord>, post: Seq<u8>)
    requires
        forall|i: int| 0 <= i < rs.len() ==> (#[trigger] rs[i]).savable(),
    ensures
        parse_layers(pre + encode_layers(rs) + post, pre.len() as int, rs.len()) == Ok::<
            (Seq<LayerRecord>, int),
            LoadFailure,
        >((rs, (pre.len() + encode_layers(rs).len()) as int)),
    decreases rs.len(),
{
    let bytes = pre + encode_layers(rs) + post;
    if rs.len() == 0 {
        assert(rs =~= seq![]);
    } else {
        let first = rs[0];
        let rest = rs.drop_first();
        lemma_encode_layers_front(rs);
        assert(bytes =~= pre + encode_layer(first) + (encode_layers(rest) + post));
        lemma_parse_layer_encoded(pre, first, encode_layers(rest) + post);
        assert(bytes =~= (pre + encode_layer(first)) + encode_layers(rest) + post);
        assert forall|i: int| 0 <= i < rest.len() implies (#[trigger] rest[i]).savable() by {
            assert(rest[i] == rs[i + 1]);
        }
        lemma_parse_layers_encoded(pre + encode_layer(first), rest, post);
        assert(seq![first] + rest =~= rs);
    }
}

/// Saving and loading: the bytes of a model whose layers are all savable,
/// followed by anything, load back as exactly those layers.
pub proof fn lemma_decode_encode(rs: Seq<LayerRecord>, post: Seq<u8>)
    requires
        rs.len() <= u32::MAX,
        forall|i: int| 0 <= i < rs.len() ==> (#[trigger] rs[i]).savable(),
    ensures
        decode_model(encode_model(rs) + post) == Ok::<Seq<LayerRecord>, LoadFailure>(rs),
{
    lemma_auto_spec_u32_to_from_le_bytes();
    let head = magic() + word(FORMAT_VERSION);
    let bytes = encode_model(rs) + post;
    assert(bytes.subrange(0, 4) =~= magic());
    assert(bytes =~= magic() + word(FORMAT_VERSION) + (word(rs.len() as u32) + encode_layers(rs) + post));
    lemma_word_at_concat(magic(), FORMAT_VERSION, word(rs.len() as u32) + encode_layers(rs) + post);
    assert(bytes =~= head + word(rs.len() as u32) + (encode_layers(rs) + post));
    lemma_word_at_concat(head, rs.len() as u32, encode_layers(rs) + post);
    assert(bytes =~= (head + word(rs.len() as u32)) + encode_layers(rs) + post);
    lemma_parse_layers_encoded(head + word(rs.len() as u32), rs, post);
}

} // verus!
