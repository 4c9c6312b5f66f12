//! Structured log records of what the proxy does, and the logging level
//! the command-line flags choose.

pub mod jsonl;

use vstd::prelude::*;

verus! {

/// The least severe level of messages shown.
#[derive(Debug, Clone, Copy, PartialEq, Eq, Structural)]
pub enum LogLevel {
    /// Warnings and errors only.
    Warn,
    /// Information and above.
    Info,
    /// Debugging messages and above.
    Debug,
}

/// Logging configuration.
#[derive(Debug)]
pub struct LogConfig {
    /// Verbosity: -1 quiet, 0 normal, 1 verbose.
    pub verbosity: i8,
    /// Path of the JSON-lines log file, if any.
    pub jsonl_path: Option<String>,
}

impl Default for LogConfig {
    fn default() -> (c: LogConfig)
        ensures
            c.verbosity == 0,
            c.jsonl_path is None,
    {
        LogConfig { verbosity: 0, jsonl_path: None }
    }
}

impl LogConfig {
    /// The default configuration: normal verbosity, no log file.
    pub fn new() -> (c: LogConfig)
        ensures
            c.verbosity == 0,
            c.jsonl_path is None,
    {
        LogConfig::default()
    }

    /// Verbose mode.
    pub fn verbose(self) -> (c: LogConfig)
        ensures
            c.verbosity == 1,
            c.jsonl_path == self.jsonl_path,
    {
        LogConfig { verbosity: 1, ..self }
    }

    /// Quiet mode.
    pub fn quiet(self) -> (c: LogConfig)
        ensures
            c.verbosity == -1,
            c.jsonl_path == self.jsonl_path,
    {
        LogConfig { verbosity: -1, ..self }
    }

    /// Writes JSON lines to `path`.
    pub fn with_jsonl_path(self, path: &str) -> (c: LogConfig)
        ensures
            c.verbosity == self.verbosity,
            c.jsonl_path matches Some(p) && p@ == path@,
    {
        LogConfig { jsonl_path: Some(path.to_string()), ..self }
    }

    /// The least severe level shown: warnings when quiet, information
    /// normally, debugging messages when verbose.
    pub fn min_level(&self) -> (l: LogLevel)
        ensures
            self.verbosity < 0 ==> l == LogLevel::Warn,
            self.verbosity == 0 ==> l == LogLevel::Info,
            self.verbosity > 0 ==> l == LogLevel::Debug,
    {
        if self.verbosity < 0 {
            LogLevel::Warn
        } else if self.verbosity == 0 {
            LogLevel::Info
        } else {
            LogLevel::Debug
        }
    }

    /// The configuration the `--verbose` and `--quiet` flags choose (quiet
    /// wins), without a log file.
    pub fn from_flags(verbose: bool, quiet: bool) -> (c: LogConfig)
        ensures
            c.verbosity == if quiet {
                -1i8
            } else if verbose {
                1i8
            } else {
                0i8
            },
            c.jsonl_path is None,
    {
        LogConfig {
            verbosity: if quiet {
                -1
            } else if verbose {
                1
            } else {
                0
            },
            jsonl_path: None,
        }
    }
}

} // verus!
