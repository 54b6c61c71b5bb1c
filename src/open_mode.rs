use vstd::prelude::*;

verus! {

/// How a writable handle treats the bytes already stored under its key.
#[derive(Debug, Clone, Copy, PartialEq, Eq, Structural)]
pub enum OpenMode {
    /// Keep the stored bytes and write after them.
    WriteAppend,
    /// Discard the stored bytes before writing.
    WriteTruncate,
}

} // verus!
