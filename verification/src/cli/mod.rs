//! Command-line handling that is not I/O: argument grouping, exit codes,
//! and the pure parts of the commands.

pub mod args;
pub mod commands;
pub mod exit_code;

use vstd::prelude::*;

verus! {

/// Configuration subcommands.
#[derive(Debug, Clone, Copy, PartialEq, Eq, Structural)]
pub enum ConfigCommand {
    /// Show configuration content (default).
    Show,
    /// Open configuration in an editor.
    Edit,
    /// Print the configuration file path.
    Path,
    /// Print the configuration as command-line arguments.
    Command,
}

/// Service subcommands.
#[derive(Debug)]
pub enum ServiceCommand {
    /// Register and start as an OS service.
    Register(crate::cli::args::RegisterArgs),
    /// Stop and unregister the OS service.
    Unregister(crate::cli::args::UnregisterArgs),
    /// Reload configuration (restart the service).
    Reload(crate::cli::args::UnregisterArgs),
    /// Show service status.
    Status(crate::cli::args::UnregisterArgs),
}

} // verus!
