//! The failures that the engine tells apart.

use vstd::prelude::*;

verus! {

/// Why a step of a poll cycle failed.
#[derive(Clone, Copy, Debug, PartialEq, Eq, Structural)]
pub enum SyncError {
    /// A local read or write failed.
    IoError,
    /// A request to the object store failed.
    NetworkError,
    /// A manifest, or the metadata of an object, does not parse.
    FormatError,
    /// The digest of downloaded content is not the tag that the store reported.
    IntegrityMismatch,
}

impl SyncError {
    /// A short text for log lines.
    pub fn describe(&self) -> (text: &'static str)
        ensures
            text@ == match *self {
                SyncError::IoError => "local read or write failed"@,
                SyncError::NetworkError => "request to the object store failed"@,
                SyncError::FormatError => "manifest or object metadata does not parse"@,
                SyncError::IntegrityMismatch => "downloaded content does not match its tag"@,
            },
    {
        match self {
            SyncError::IoError => "local read or write failed",
            SyncError::NetworkError => "request to the object store failed",
            SyncError::FormatError => "manifest or object metadata does not parse",
            SyncError::IntegrityMismatch => "downloaded content does not match its tag",
        }
    }
}

} // verus!
