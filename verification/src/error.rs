//! Errors of the library.

use vstd::prelude::*;

verus! {

/// What went wrong, with a human-readable message.
#[derive(Debug)]
pub enum Error {
    /// Invalid configuration (file content, paths, durations).
    Config(String),
    /// A filter string that cannot be understood.
    Filter(String),
    /// A malformed SSH agent protocol message.
    InvalidMessage(String),
    /// A socket could not be prepared.
    Socket(String),
    /// Service or daemon management failed.
    Daemon(String),
    /// Anything else.
    Other(String),
}

/// Result with this crate's error.
pub type Result<T> = core::result::Result<T, Error>;

} // verus!
