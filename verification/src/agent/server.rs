//! Ownership of the socket files the proxy listens on.

use vstd::prelude::*;

verus! {

/// Names a socket file that must be removed when its owner goes away.
/// The owner (the application) removes the file; this value records which.
#[derive(Debug)]
pub struct SocketCleanupGuard {
    path: String,
}

impl SocketCleanupGuard {
    /// The socket path to clean up.
    pub closed spec fn spec_path(&self) -> Seq<char> {
        self.path@
    }

    /// A cleanup guard for the given socket path.
    pub fn new(path: &str) -> (g: SocketCleanupGuard)
        ensures
            g.spec_path() == path@,
    {
        SocketCleanupGuard { path: path.to_string() }
    }

    /// The socket path to clean up.
    pub fn path(&self) -> (s: &str)
        ensures
            s@ == self.spec_path(),
    {
        self.path.as_str()
    }
}

} // verus!
