//! The proxy between SSH agent clients and the upstream agent.

pub mod proxy;
pub mod server;

use vstd::prelude::*;

verus! {

/// The upstream SSH agent that a proxy forwards to, known by its socket path.
#[derive(Debug)]
pub struct Upstream {
    socket_path: String,
}

impl Upstream {
    /// The upstream agent's socket path.
    pub closed spec fn spec_socket_path(&self) -> Seq<char> {
        self.socket_path@
    }

    /// An upstream agent listening at `socket_path`.
    pub fn new(socket_path: &str) -> (u: Upstream)
        ensures
            u.spec_socket_path() == socket_path@,
    {
        Upstream { socket_path: socket_path.to_string() }
    }

    /// The upstream agent's socket path.
    pub fn socket_path(&self) -> (s: &str)
        ensures
            s@ == self.spec_socket_path(),
    {
        self.socket_path.as_str()
    }
}

} // verus!
