//! Inspection and reconstruction of low-rank adapter weight files.

pub mod blocks;
pub mod file;
pub mod header;
pub mod keys;
pub mod metadata;
pub mod network;
pub mod reconstruct;
pub mod statistic;
pub mod tensor;
pub mod text;
pub mod weight;

use vstd::prelude::*;

verus! {

#[verifier::external_type_specification]
#[verifier::external_body]
pub struct ExJsonError(serde_json::Error);

#[verifier::external_type_specification]
pub struct ExCandleDType(candle_core::DType);

#[verifier::external_type_specification]
#[verifier::external_body]
pub struct ExSafeTensorError(safetensors::SafeTensorError);

/// What can go wrong while reading a file or rebuilding one of its weights.
#[derive(Debug)]
pub enum InspectorError {
    /// A failure of the tensor backend.
    Candle(candle_core::Error),
    /// The header of the file could not be read.
    SafeTensor(safetensors::SafeTensorError),
    /// The header lists a data range that ends past the buffer.
    MalformedHeader,
    /// The network arguments in the metadata are not JSON.
    Metadata(serde_json::Error),
    /// A network argument holds a value of the wrong kind; the argument's name.
    InvalidNetworkArg(String),
    /// The decomposition library's algorithm is not one this library knows; its name.
    UnrecognizedAlgorithm(String),
    /// A tensor that the weight needs is not in the file.
    NotFound,
    /// The file's network type has no reconstruction.
    UnsupportedNetworkType,
    /// The tensors are not loaded: the file could not be read, or it was unloaded.
    NotLoaded,
    /// A tensor's shape does not fit the operation.
    Msg(String),
}

} // verus!
