//! The background daemon: its PID file and the decisions around starting,
//! stopping and signalling it.

use vstd::prelude::*;
use crate::config::duration::{all_digits, digits_value, parse_u64_text, strip_plus};
use crate::error::Error;
use crate::text::{concat_str, decimal, decimal_string, strings_view, trim};
use crate::utils::path::spec_path_join;

verus! {

/// The daemon's status.
#[derive(Debug)]
pub struct DaemonStatus {
    /// Whether the daemon is running.
    pub running: bool,
    /// Its process ID, when the PID file names one.
    pub pid: Option<u32>,
    /// The PID file's path.
    pub pid_file: String,
}

/// The daemon manager, which knows where the PID file is.
#[derive(Debug)]
pub struct Daemon {
    pid_file: String,
}

/// Why a text is not a `u32`, in the words of `ParseIntError`.
pub open spec fn pid_parse_error(t: Seq<char>) -> Seq<char> {
    if t.len() == 0 {
        "cannot parse integer from empty string"@
    } else {
        let d = strip_plus(t);
        if d.len() > 0 && all_digits(d) {
            "number too large to fit in target type"@
        } else {
            "invalid digit found in string"@
        }
    }
}

/// The status a PID file gives: `pid_text` is its text (`None` when there
/// is no PID file), `running` whether the process it names is alive. The
/// trimmed text must be a process ID.
pub open spec fn spec_status_from(pid_file: Seq<char>, pid_text: Option<Seq<char>>, running: bool) -> Result<
    (bool, Option<u32>, Seq<char>),
    Seq<char>,
> {
    match pid_text {
        None => Ok((false, None, pid_file)),
        Some(t) => match parse_u64_text(trim(t)) {
            Some(v) => if v <= u32::MAX {
                Ok((running, Some(v as u32), pid_file))
            } else {
                Err("Invalid PID in file: "@ + pid_parse_error(trim(t)))
            },
            None => Err("Invalid PID in file: "@ + pid_parse_error(trim(t))),
        },
    }
}

impl Daemon {
    /// The PID file's path.
    pub closed spec fn spec_pid_file(&self) -> Seq<char> {
        self.pid_file@
    }

    /// The default PID file: `authsock-filter/authsock-filter.pid` under
    /// `$XDG_RUNTIME_DIR`, or under `/tmp` when that is not set.
    pub fn default_pid_file(xdg_runtime_dir: Option<String>) -> (r: String)
        ensures
            r@ == spec_path_join(
                spec_path_join(
                    match xdg_runtime_dir {
                        Some(d) => d@,
                        None => "/tmp"@,
                    },
                    "authsock-filter"@,
                ),
                "authsock-filter.pid"@,
            ),
    {
        let dir = match xdg_runtime_dir {
            Some(d) => d,
            None => "/tmp".to_string(),
        };
        let sub = crate::utils::path::path_join(dir.as_str(), "authsock-filter");
        crate::utils::path::path_join(sub.as_str(), "authsock-filter.pid")
    }

    /// A manager with the default PID file (`xdg_runtime_dir` is the value
    /// of `XDG_RUNTIME_DIR`).
    pub fn new(xdg_runtime_dir: Option<String>) -> (d: Daemon)
        ensures
            d.spec_pid_file() == spec_path_join(
                spec_path_join(
                    match xdg_runtime_dir {
                        Some(x) => x@,
                        None => "/tmp"@,
                    },
                    "authsock-filter"@,
                ),
                "authsock-filter.pid"@,
            ),
    {
        Daemon { pid_file: Self::default_pid_file(xdg_runtime_dir) }
    }

    /// A manager with the given PID file.
    pub fn with_pid_file(pid_file: String) -> (d: Daemon)
        ensures
            d.spec_pid_file() == pid_file@,
    {
        Daemon { pid_file }
    }

    /// The PID file's path.
    pub fn pid_file(&self) -> (r: &String)
        ensures
            r@ == self.spec_pid_file(),
    {
        &self.pid_file
    }

    /// The status the PID file gives, as [`spec_status_from`] states.
    pub fn status(&self, pid_text: Option<String>, running: bool) -> (r: Result<DaemonStatus, Error>)
        ensures
            match spec_status_from(
                self.spec_pid_file(),
                match pid_text {
                    Some(t) => Some(t@),
                    None => None,
                },
                running,
            ) {
                Ok((run, pid, file)) => (r matches Ok(s) && s.running == run && s.pid == pid && s.pid_file@ == file),
                Err(m) => (r matches Err(Error::Daemon(e)) && e@ == m),
            },
    {
        match pid_text {
            None => Ok(DaemonStatus { running: false, pid: None, pid_file: self.pid_file.clone() }),
            Some(t) => {
                let v = crate::text::chars_of(t.as_str());
                let tv = crate::text::trim_chars(v.as_slice());
                let ts = crate::text::string_of(tv.as_slice());
                match crate::config::duration::parse_u32_str(ts.as_str()) {
                    Some(pid) => Ok(DaemonStatus { running, pid: Some(pid), pid_file: self.pid_file.clone() }),
                    None => {
                        let why = pid_parse_error_exec(tv.as_slice());
                        Err(Error::Daemon(concat_str("Invalid PID in file: ", why)))
                    },
                }
            },
        }
    }

    /// Whether the daemon can be started: not while it runs.
    pub fn start_check(status: &DaemonStatus) -> (r: Result<(), Error>)
        ensures
            r is Ok <==> !status.running,
            r matches Err(e) ==> (e matches Error::Daemon(m) && m@ == "Daemon is already running with PID "@ + decimal(
                match status.pid {
                    Some(p) => p as nat,
                    None => 0,
                },
            )),
    {
        if status.running {
            let pid: u32 = match status.pid {
                Some(p) => p,
                None => 0,
            };
            Err(Error::Daemon(concat_str("Daemon is already running with PID ", decimal_string(pid as u64).as_str())))
        } else {
            Ok(())
        }
    }

    /// The arguments the daemon process is started with: `run`, then the
    /// given ones.
    pub fn run_args(args: &[String]) -> (r: Vec<String>)
        ensures
            strings_view(r@) == seq!["run"@] + strings_view(args@),
    {
        let mut out: Vec<String> = Vec::new();
        crate::text::push_string(&mut out, "run".to_string());
        let mut i: usize = 0;
        while i < args.len()
            invariant
                i <= args@.len(),
                strings_view(out@) == seq!["run"@] + strings_view(args@).take(i as int),
            decreases args@.len() - i,
        {
            crate::text::push_string(&mut out, args[i].clone());
            assert(strings_view(args@).take(i + 1) =~= strings_view(args@).take(i as int).push(args@[i as int]@));
            assert(strings_view(out@) =~= seq!["run"@] + strings_view(args@).take(i + 1));
            i = i + 1;
        }
        assert(strings_view(args@).take(i as int) =~= strings_view(args@));
        out
    }

    /// The process to stop: the running daemon's PID. An error when it is
    /// not running (a stale PID file is then removed) or has no PID.
    pub fn stop_target(status: &DaemonStatus) -> (r: Result<u32, Error>)
        ensures
            match r {
                Ok(pid) => status.running && status.pid == Some(pid),
                Err(e) => e matches Error::Daemon(m) && if !status.running {
                    m@ == "Daemon is not running"@
                } else {
                    status.pid is None && m@ == "No PID found"@
                },
            },
    {
        if !status.running {
            return Err(Error::Daemon("Daemon is not running".to_string()));
        }
        match status.pid {
            Some(p) => Ok(p),
            None => Err(Error::Daemon("No PID found".to_string())),
        }
    }

    /// Whether a stale PID file is to be removed: when it exists and the
    /// daemon it names is not running.
    pub fn stale_pid_file(pid_file_exists: bool, status: &DaemonStatus) -> (r: bool)
        ensures
            r == (pid_file_exists && !status.running),
    {
        pid_file_exists && !status.running
    }

    /// Whether a process runs, from whether `kill -0` could be run and
    /// succeeded (`None`: it could not be run).
    pub fn is_process_running(kill_succeeded: Option<bool>) -> (r: bool)
        ensures
            r == (kill_succeeded == Some(true)),
    {
        match kill_succeeded {
            Some(b) => b,
            None => false,
        }
    }

    /// The arguments of `kill` that send `signal` to `pid`.
    pub fn signal_args(pid: u32, signal: &str) -> (r: Vec<String>)
        ensures
            strings_view(r@) == seq!["-"@ + signal@, decimal(pid as nat)],
    {
        let mut out: Vec<String> = Vec::new();
        crate::text::push_string(&mut out, concat_str("-", signal));
        crate::text::push_string(&mut out, decimal_string(pid as u64));
        assert(strings_view(out@) =~= seq!["-"@ + signal@, decimal(pid as nat)]);
        out
    }

    /// What sending a signal came to: `outcome` is whether `kill` exited
    /// successfully and what it wrote to its standard error, or why it
    /// could not be run.
    pub fn send_signal(pid: u32, signal: &str, outcome: Result<(bool, String), String>) -> (r: Result<(), Error>)
        ensures
            r is Ok <==> (outcome matches Ok((ok, _)) && ok),
            match outcome {
                Ok((ok, err)) => !ok ==> (r matches Err(Error::Daemon(m)) && m@ == "Failed to send "@ + signal@
                    + " to process "@ + decimal(pid as nat) + ": "@ + trim(err@)),
                Err(e) => (r matches Err(Error::Daemon(m)) && m@ == "Failed to run kill command: "@ + e@),
            },
    {
        match outcome {
            Ok((ok, err)) => {
                if ok {
                    Ok(())
                } else {
                    let a = concat_str("Failed to send ", signal);
                    let b = concat_str(a.as_str(), " to process ");
                    let c = concat_str(b.as_str(), decimal_string(pid as u64).as_str());
                    let d = concat_str(c.as_str(), ": ");
                    let ev = crate::text::chars_of(err.as_str());
                    let t = crate::text::trim_chars(ev.as_slice());
                    let ts = crate::text::string_of(t.as_slice());
                    Err(Error::Daemon(concat_str(d.as_str(), ts.as_str())))
                }
            },
            Err(e) => Err(Error::Daemon(concat_str("Failed to run kill command: ", e.as_str()))),
        }
    }
}

/// Why a trimmed text is not a `u32`, as [`pid_parse_error`] states.
fn pid_parse_error_exec(t: &[char]) -> (r: &'static str)
    ensures
        r@ == pid_parse_error(t@),
{
    if t.len() == 0 {
        return "cannot parse integer from empty string";
    }
    let start: usize = if t[0] == '+' {
        1
    } else {
        0
    };
    let d = crate::text::sub_chars(t, start, t.len());
    assert(d@ =~= strip_plus(t@));
    if d.len() == 0 {
        return "invalid digit found in string";
    }
    let mut i: usize = 0;
    while i < d.len()
        invariant
            i <= d@.len(),
            t@.len() > 0,
            d@.len() > 0,
            d@ == strip_plus(t@),
            forall|j: int| 0 <= j < i ==> crate::config::duration::is_ascii_digit(#[trigger] d@[j]),
        decreases d@.len() - i,
    {
        if !('0' <= d[i] && d[i] <= '9') {
            return "invalid digit found in string";
        }
        i = i + 1;
    }
    "number too large to fit in target type"
}

} // verus!
