//! Error taxonomy of the decoder. Every fallible accessor returns one of
//! these; nothing in the decoding core panics on input data.

use vstd::prelude::*;

verus! {

/// Which of the cooperating binary formats an error concerns.
#[derive(Debug, Clone, Copy, PartialEq, Eq, Structural)]
pub enum FileType {
    Mdl,
    Vvd,
    Vtx,
}

/// Decoder errors.
///
/// `Io` is reserved for the collaborator that loads buffers from storage;
/// the decoding core itself only produces the other variants.
#[derive(Debug, Clone, PartialEq)]
pub enum Error {
    /// Reading a backing buffer failed; carries the path and the I/O error kind.
    Io { path: String, kind: String },
    /// The buffer does not begin with the fixed four-byte magic; carries the
    /// bytes actually found.
    InvalidSignature { ty: FileType, signature: Vec<u8> },
    /// The format revision is not on the allow-list of known revisions.
    UnsupportedVersion { ty: FileType, version: i32 },
    /// A companion file's checksum does not match the model's checksum.
    ChecksumMismatch(FileType),
    /// A bounds, alignment, sign or text violation while resolving offsets or
    /// decoding fields; carries a static description of the failing field.
    Corrupted { ty: FileType, error: &'static str },
    /// Structurally valid data that the decoder deliberately does not handle.
    Unsupported { ty: FileType, feature: &'static str },
}

pub type Result<T> = core::result::Result<T, Error>;

/// Shorthand for a corruption error in the model format.
pub fn corrupted(error: &'static str) -> (r: Error)
    ensures
        r == (Error::Corrupted { ty: FileType::Mdl, error }),
{
    Error::Corrupted { ty: FileType::Mdl, error }
}

impl Error {
    /// Wraps an I/O failure, recording the path it concerned.
    pub fn from_io(path: String, kind: String) -> (r: Error)
        ensures
            r == (Error::Io { path, kind }),
    {
        Error::Io { path, kind }
    }
}

} // verus!
