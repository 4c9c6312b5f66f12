//! Exit codes of the program.

use vstd::prelude::*;
use crate::text::{lower, spec_contains};

verus! {

/// Exit codes for the application.
#[derive(Debug, Clone, Copy, PartialEq, Eq, Structural)]
pub enum ExitCode {
    /// Successful execution (0).
    Success,
    /// General error (1).
    GeneralError,
    /// Configuration error (2).
    ConfigError,
    /// Socket error (3).
    SocketError,
    /// Upstream error (4).
    UpstreamError,
}

/// The process exit status of an exit code.
pub open spec fn spec_exit_status(c: ExitCode) -> u8 {
    match c {
        ExitCode::Success => 0,
        ExitCode::GeneralError => 1,
        ExitCode::ConfigError => 2,
        ExitCode::SocketError => 3,
        ExitCode::UpstreamError => 4,
    }
}

impl ExitCode {
    /// The process exit status.
    pub fn code(&self) -> (b: u8)
        ensures
            b == spec_exit_status(*self),
    {
        match self {
            ExitCode::Success => 0,
            ExitCode::GeneralError => 1,
            ExitCode::ConfigError => 2,
            ExitCode::SocketError => 3,
            ExitCode::UpstreamError => 4,
        }
    }
}

impl vstd::std_specs::convert::FromSpecImpl<ExitCode> for u8 {
    open spec fn obeys_from_spec() -> bool {
        true
    }

    open spec fn from_spec(c: ExitCode) -> u8 {
        spec_exit_status(c)
    }
}

impl From<ExitCode> for u8 {
    fn from(code: ExitCode) -> (b: u8) {
        code.code()
    }
}


/// The exit code an error message calls for: a configuration error when
/// it mentions the configuration, an upstream error when it mentions the
/// upstream or `SSH_AUTH_SOCK`, a socket error when it mentions a socket,
/// binding or listening, else a general error. The message is compared in
/// lower case; only ASCII letters and the Kelvin sign lower-case to the
/// ASCII letters these words are made of, so the comparison is that of
/// the message's full Unicode lower-case form.
pub open spec fn spec_classify_error(message: Seq<char>) -> ExitCode {
    let m = lower(message);
    if spec_contains(m, "config"@) || spec_contains(m, "configuration"@) {
        ExitCode::ConfigError
    } else if spec_contains(m, "upstream"@) || spec_contains(m, "ssh_auth_sock"@) {
        ExitCode::UpstreamError
    } else if spec_contains(m, "socket"@) || spec_contains(m, "bind"@) || spec_contains(m, "listen"@) {
        ExitCode::SocketError
    } else {
        ExitCode::GeneralError
    }
}

/// The exit code an error message calls for, as [`spec_classify_error`]
/// states.
pub fn classify_error(message: &str) -> (r: ExitCode)
    ensures
        r == spec_classify_error(message@),
{
    let v = crate::text::chars_of(message);
    let m = crate::text::lower_chars(v.as_slice());
    let has = |p: &str| -> (b: bool)
        ensures
            b == spec_contains(m@, p@),
        {
            let pv = crate::text::chars_of(p);
            crate::text::contains(m.as_slice(), pv.as_slice())
        };
    if has("config") || has("configuration") {
        ExitCode::ConfigError
    } else if has("upstream") || has("ssh_auth_sock") {
        ExitCode::UpstreamError
    } else if has("socket") || has("bind") || has("listen") {
        ExitCode::SocketError
    } else {
        ExitCode::GeneralError
    }
}

} // verus!
