//! A small feed-forward neural-network library: layer bookkeeping, the
//! model builder with its shape checks, and the versioned binary format in
//! which trained models are saved and loaded.

pub mod activations;
pub mod error;
pub mod model;

pub use error::{ModelError, ModelResult};
