//! Hashit: keep track of whether a set of inputs has changed since it was
//! last looked at, by comparing a combined content digest with the digest
//! stored under a caller-chosen key.
//!
//! The storage and the hashing are reached through traits, so that the
//! compare-and-update step works the same over a filesystem, an in-memory
//! store, or any other backend.
pub mod error;
pub use error::{HashitError, Result};

pub mod open_mode;
pub use open_mode::OpenMode;

pub mod utils;

pub mod traits;
pub use traits::{CalcHash, FetchCachedHash, Open, OpenMut};

pub mod string;
pub use string::{HtString, StringHash};

pub mod hashit;
pub use hashit::Hashit;

pub mod platform;
pub use platform::{LocusError, Platform};
