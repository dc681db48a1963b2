use vstd::prelude::*;

verus! {

/// Errors reported by the library.
#[derive(Debug, Clone, Copy, PartialEq, Eq, Structural)]
pub enum Error {
    /// The compressed image stream could not be inflated.
    InvalidBitstream,
    /// A numeric parameter is outside of its valid range.
    InvalidData,
    /// The byte stream is not a well-formed PNG file.
    InvalidPng,
    /// The PNG chunk sequence ended without an `IEND` chunk.
    PngIendMissing,
    /// The pixel format is valid but not supported by the decoder.
    InvalidColorFormat,
}

} // verus!
