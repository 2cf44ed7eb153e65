use vstd::prelude::*;

verus! {

/// The ways in which an archive operation can fail.
#[derive(Clone, Copy, Debug, PartialEq, Eq, Structural)]
pub enum Error {
    /// The file cannot be opened as an archive, or lacks the required schema.
    NotAnArchive,
    /// A decode was asked of a payload that is not compressed.
    UnsupportedFormat,
    /// A payload could not be decompressed or parsed.
    CorruptData,
    /// No grid is stored at the requested coordinate.
    NotFound,
    /// A required numeric metadata value is malformed.
    ParseError,
}

} // verus!
