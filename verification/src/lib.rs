//! authsock-filter: an SSH agent proxy that filters the keys an upstream
//! agent offers and the signatures it makes.
//!
//! The crate holds the proxy's logic: the agent wire protocol, the key
//! filters, the decisions the proxy makes on each request, configuration
//! handling and the text that service registration writes.

pub mod agent;
pub mod cli;
pub mod config;
pub mod error;
pub mod filter;
pub mod logging;
pub mod protocol;
pub mod service;
pub mod text;
pub mod utils;

use vstd::prelude::*;

verus! {

/// Package version.
pub const VERSION: &'static str = "0.1.32";

/// Package name.
pub const NAME: &'static str = "authsock-filter";

} // verus!
