//! The unified error model: transport failures and format-level failures.

use vstd::prelude::*;

verus! {

/// A format-level failure: the bytes were readable but do not form a valid
/// record of this container format.
#[derive(Debug, Clone, Copy, PartialEq, Eq, Structural)]
pub enum FormatError {
    /// An option code outside the known set for the block type being decoded.
    UnknownOption,
    /// A string-valued option whose bytes are not valid text.
    Utf8Error,
    /// A Section Header whose magic field differs from `0x1A2B3C4D`: the
    /// stream was written with another byte order or is not this format.
    UnsupportedEndianness,
    /// The trailing length field of a block does not repeat its leading
    /// `total_length` field: the framing is corrupt.
    LengthMismatch,
}

/// Any failure a decode entry point can report: either the underlying byte
/// source ran short, or the bytes violate the format.
#[derive(Debug, Clone, Copy, PartialEq, Eq, Structural)]
pub enum Error {
    /// A short read: the stream ended where more bytes were required.
    Io,
    /// A format-level failure, carrying its precise kind.
    FormatError(FormatError),
}

impl From<FormatError> for Error {
    /// Wraps a format-level failure into the unified error, preserving its
    /// kind for diagnostics.
    fn from(err: FormatError) -> (r: Error) {
        Error::FormatError(err)
    }
}

impl vstd::std_specs::convert::FromSpecImpl<FormatError> for Error {
    open spec fn obeys_from_spec() -> bool {
        true
    }

    open spec fn from_spec(err: FormatError) -> Error {
        Error::FormatError(err)
    }
}

} // verus!
