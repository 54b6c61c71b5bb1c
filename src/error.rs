use vstd::prelude::*;

verus! {

/// The failures that the storage and hashing layers report.
#[derive(Debug, PartialEq, Eq)]
pub enum HashitError {
    /// An input or entry could not be resolved to bytes.
    NotFound { file: String, reason: String },
    /// Any other failure while reading or writing through a backend.
    IoError(String),
    /// The structure that an entry needs (its directory) is missing.
    MissingDir(String),
    /// A key that was looked up is absent.
    MissingKey(String),
    /// A capability that a backend leaves unimplemented.
    NotImplemented(String),
}

pub type Result<R> = core::result::Result<R, HashitError>;

} // verus!
