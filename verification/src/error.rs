//! The ways in which an operation of the store fails.

use vstd::prelude::*;

verus! {

/// Why an operation of the object store failed.
#[derive(Clone, Copy, Debug, PartialEq, Eq, Structural)]
pub enum StoreError {
    /// The file system refused an access: permission, a missing path, a full disk.
    IoError,
    /// No object file corresponds to the digest.
    NotFound,
    /// An object file does not decompress, or its directory could not be created.
    CorruptStore,
    /// Decompressed bytes break the header and payload format, or a tree entry
    /// has an invalid header or mode.
    MalformedObject,
    /// A payload handed in for storing is not valid UTF-8 text.
    InvalidInput,
}

} // verus!
