//! The failures of packing and unpacking.

use crate::wire::CodecError;
use vstd::prelude::*;

verus! {

/// Why an operation on rule documents or on a package failed.
#[derive(Debug, Clone, PartialEq, Eq)]
pub enum PackError {
    /// The text of the document at position `index` of the input is not a
    /// well-formed document; `message` holds the parser's complaint.
    Extraction { index: usize, message: String },
    /// `algorithm` names no supported compression.
    Config { algorithm: String },
    /// The bytes are not the encoding of a package.
    Codec(CodecError),
    /// The compressor could not write its stream.
    Io { message: String },
}

} // verus!
