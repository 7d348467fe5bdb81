use vstd::prelude::*;

verus! {

/// The ways reading an archive can fail.
#[derive(Debug, Clone, Copy, PartialEq, Eq, Structural)]
pub enum Error {
    UnknownCompression(u8),
    UnknownMimeType,
    InvalidMagicNumber,
    InvalidVersion(u16),
    InvalidHeader,
    InvalidNamespace,
    InvalidClusterExtension,
    MissingBlobList,
    MissingChecksum,
    InvalidChecksum,
    OutOfBounds,
    /// A lower-level decoder or reader failed on malformed data.
    Parsing,
    /// An index lies past the end of the table it addresses.
    IndexOutOfRange,
}

pub type Result<T> = core::result::Result<T, Error>;

} // verus!
