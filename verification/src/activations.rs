//! Activation functions and the serialisable description of each.
//!
//! The numeric behaviour of an activation (its value and its derivative)
//! works on single-precision floats; what the library keeps and proves is
//! which activation a layer uses, and how that choice is written to and read
//! back from a one-byte identifier and a parameter.

use crate::error::{ModelError, ModelResult};
use vstd::prelude::*;

verus! {

/// The serialisable description of an activation function.
///
/// The parameter of `LeakyReLU` is the slope applied to negative inputs,
/// held as the IEEE-754 bit pattern of a single-precision float.
#[derive(Clone, Copy, Debug, PartialEq, Eq, Structural)]
pub enum ActivationKind {
    Sigmoid,
    ReLU,
    LeakyReLU(u32),
    Tanh,
    Linear,
}

/// The activation that an identifier and a parameter describe, if the
/// identifier is known: identifiers 0 to 4 name `Sigmoid`, `ReLU`,
/// `LeakyReLU`, `Tanh` and `Linear`; only `LeakyReLU` keeps the parameter.
pub open spec fn kind_from_id(id: u8, alpha: u32) -> Option<ActivationKind> {
    if id == 0 {
        Some(ActivationKind::Sigmoid)
    } else if id == 1 {
        Some(ActivationKind::ReLU)
    } else if id == 2 {
        Some(ActivationKind::LeakyReLU(alpha))
    } else if id == 3 {
        Some(ActivationKind::Tanh)
    } else if id == 4 {
        Some(ActivationKind::Linear)
    } else {
        None
    }
}

impl ActivationKind {
    /// The one-byte identifier under which this activation is saved.
    pub open spec fn id(self) -> u8 {
        match self {
            ActivationKind::Sigmoid => 0,
            ActivationKind::ReLU => 1,
            ActivationKind::LeakyReLU(_) => 2,
            ActivationKind::Tanh => 3,
            ActivationKind::Linear => 4,
        }
    }

    /// The parameter saved beside the identifier: the slope of `LeakyReLU`,
    /// and the bit pattern of `0.0` (all bits clear) for every other kind.
    pub open spec fn saved_alpha(self) -> u32 {
        match self {
            ActivationKind::LeakyReLU(alpha) => alpha,
            _ => 0,
        }
    }

    /// Turns this activation into the one-byte identifier that is saved.
    pub fn to_id(self) -> (id: u8)
        ensures
            id == self.id(),
    {
        match self {
            ActivationKind::Sigmoid => 0,
            ActivationKind::ReLU => 1,
            ActivationKind::LeakyReLU(_) => 2,
            ActivationKind::Tanh => 3,
            ActivationKind::Linear => 4,
        }
    }

    /// Rebuilds an activation from a saved identifier and parameter.
    ///
    /// # Errors
    /// `ModelError::UnknownActivationId(id)` when `id` names no activation.
    pub fn from_id(id: u8, alpha: u32) -> (r: ModelResult<Self>)
        ensures
            match kind_from_id(id, alpha) {
                Some(kind) => r matches Ok(k) && k == kind,
                None => r matches Err(ModelError::UnknownActivationId(bad)) && bad == id,
            },
    {
        match id {
            0 => Ok(ActivationKind::Sigmoid),
            1 => Ok(ActivationKind::ReLU),
            2 => Ok(ActivationKind::LeakyReLU(alpha)),
            3 => Ok(ActivationKind::Tanh),
            4 => Ok(ActivationKind::Linear),
            _ => Err(ModelError::UnknownActivationId(id)),
        }
    }
}

/// Saving an activation and reading it back gives the same activation: its
/// identifier together with its saved parameter describes it exactly.
pub proof fn lemma_kind_id_roundtrip(kind: ActivationKind)
    ensures
        kind_from_id(kind.id(), kind.saved_alpha()) == Some(kind),
{
}

/// The parameter saved with an activation is the slope of `LeakyReLU`, and
/// the bit pattern of `0.0` (all bits clear) for every other activation.
pub proof fn lemma_saved_alpha(kind: ActivationKind)
    ensures
        kind matches ActivationKind::LeakyReLU(a) ==> kind.saved_alpha() == a,
        !(kind is LeakyReLU) ==> kind.saved_alpha() == 0u32,
{
}

/// Exactly the identifiers below 5 are known, and each known identifier is
/// the identifier of the activation it describes.
pub proof fn lemma_known_ids(id: u8, alpha: u32)
    ensures
        kind_from_id(id, alpha) is Some <==> id < 5,
        kind_from_id(id, alpha) matches Some(kind) ==> kind.id() == id,
{
}

/// The standard logistic function `1 / (1 + e^-x)`, with outputs in `(0, 1)`.
pub struct Sigmoid;

/// The hyperbolic tangent.
pub struct Tanh;

/// The identity function.
pub struct Linear;

/// Leaky ReLU: keeps positive inputs and multiplies the others by `alpha`,
/// held as the IEEE-754 bit pattern of a single-precision float.
pub struct LeakyReLU {
    pub alpha: u32,
}

/// The rectified linear unit `max(0, x)`.
pub struct ReLU;

impl Sigmoid {
    /// The serialisable description of this activation.
    pub fn kind(&self) -> (k: ActivationKind)
        ensures
            k == ActivationKind::Sigmoid,
    {
        ActivationKind::Sigmoid
    }
}

impl Tanh {
    /// The serialisable description of this activation.
    pub fn kind(&self) -> (k: ActivationKind)
        ensures
            k == ActivationKind::Tanh,
    {
        ActivationKind::Tanh
    }
}

impl Linear {
    /// The serialisable description of this activation.
    pub fn kind(&self) -> (k: ActivationKind)
        ensures
            k == ActivationKind::Linear,
    {
        ActivationKind::Linear
    }
}

impl LeakyReLU {
    /// The serialisable description of this activation, slope included.
    pub fn kind(&self) -> (k: ActivationKind)
        ensures
            k == ActivationKind::LeakyReLU(self.alpha),
    {
        ActivationKind::LeakyReLU(self.alpha)
    }
}

impl ReLU {
    /// The serialisable description of this activation.
    pub fn kind(&self) -> (k: ActivationKind)
        ensures
            k == ActivationKind::ReLU,
    {
        ActivationKind::ReLU
    }
}

} // verus!
