//! The `status` command: what the PID file says and how the status is
//! shown.

use vstd::prelude::*;
use crate::config::duration::{parse_u64_text, parse_u32_str};
use crate::text::{concat_str, decimal, decimal_string, trim};
use crate::utils::path::spec_path_join;

verus! {

/// The daemon's status.
#[derive(Debug)]
pub struct StatusInfo {
    /// Whether the daemon is running.
    pub running: bool,
    /// Its process ID, when the PID file holds one.
    pub pid: Option<u32>,
    /// The PID file's path.
    pub pid_file: String,
    /// How long it has run, in seconds, when known.
    pub uptime_secs: Option<u64>,
    /// Its sockets, when known.
    pub sockets: Vec<SocketStatus>,
}

/// A socket's status.
#[derive(Debug)]
pub struct SocketStatus {
    /// Socket path.
    pub path: String,
    /// Whether the socket file exists.
    pub exists: bool,
    /// Number of active connections.
    pub connections: u32,
}

/// The default PID file: `authsock-filter.pid` in the runtime directory,
/// else in the state directory, else in `/tmp`.
pub fn default_pid_file(runtime_dir: Option<String>, state_dir: Option<String>) -> (r: String)
    ensures
        r@ == spec_path_join(
            match runtime_dir {
                Some(d) => d@,
                None => match state_dir {
                    Some(d) => d@,
                    None => "/tmp"@,
                },
            },
            "authsock-filter.pid"@,
        ),
{
    let dir = match runtime_dir {
        Some(d) => d,
        None => match state_dir {
            Some(d) => d,
            None => "/tmp".to_string(),
        },
    };
    crate::utils::path::path_join(dir.as_str(), "authsock-filter.pid")
}

/// The process ID a PID file's text holds: the trimmed text read as a
/// `u32`.
pub open spec fn spec_parse_pid(text: Seq<char>) -> Option<u32> {
    match parse_u64_text(trim(text)) {
        Some(v) => if v <= u32::MAX {
            Some(v as u32)
        } else {
            None
        },
        None => None,
    }
}

/// The process ID a PID file's text holds, as [`spec_parse_pid`] states.
pub fn parse_pid(text: &str) -> (r: Option<u32>)
    ensures
        r == spec_parse_pid(text@),
{
    let v = crate::text::chars_of(text);
    let t = crate::text::trim_chars(v.as_slice());
    let s = crate::text::string_of(t.as_slice());
    parse_u32_str(s.as_str())
}

/// The daemon's status from its PID file: `pid_text` is the file's text
/// (`None` when there is no PID file), `running` whether the process it
/// names is alive, `uptime` how long it has run when known. A text that
/// holds no process ID counts as no PID.
pub fn get_status(pid_file: &str, pid_text: Option<String>, running: bool, uptime: Option<u64>) -> (r: StatusInfo)
    ensures
        r.pid_file@ == pid_file@,
        r.pid == match pid_text {
            Some(t) => spec_parse_pid(t@),
            None => None,
        },
        r.running == (r.pid is Some && running),
        r.uptime_secs == if r.running {
            uptime
        } else {
            None
        },
        r.sockets@.len() == 0,
{
    let pid = match &pid_text {
        Some(t) => parse_pid(t.as_str()),
        None => None,
    };
    let is_running = pid.is_some() && running;
    StatusInfo {
        running: is_running,
        pid,
        pid_file: pid_file.to_string(),
        uptime_secs: if is_running {
            uptime
        } else {
            None
        },
        sockets: Vec::new(),
    }
}

/// An uptime in days, hours, minutes and seconds, leaving out leading
/// zero units: `1d 2h 3m 4s`, `2h 3m 4s`, `3m 4s` or `4s`.
pub open spec fn spec_format_uptime(secs: nat) -> Seq<char> {
    let days = secs / 86400;
    let hours = (secs % 86400) / 3600;
    let minutes = (secs % 3600) / 60;
    let seconds = secs % 60;
    if days > 0 {
        decimal(days) + "d "@ + decimal(hours) + "h "@ + decimal(minutes) + "m "@ + decimal(seconds) + "s"@
    } else if hours > 0 {
        decimal(hours) + "h "@ + decimal(minutes) + "m "@ + decimal(seconds) + "s"@
    } else if minutes > 0 {
        decimal(minutes) + "m "@ + decimal(seconds) + "s"@
    } else {
        decimal(seconds) + "s"@
    }
}

/// An uptime as [`spec_format_uptime`] writes it.
pub fn format_uptime(secs: u64) -> (r: String)
    ensures
        r@ == spec_format_uptime(secs as nat),
{
    let days = secs / 86400;
    let hours = (secs % 86400) / 3600;
    let minutes = (secs % 3600) / 60;
    let seconds = secs % 60;
    let s = concat_str(decimal_string(seconds).as_str(), "s");
    let m = concat_str(decimal_string(minutes).as_str(), "m ");
    let ms = concat_str(m.as_str(), s.as_str());
    if days > 0 {
        let h = concat_str(decimal_string(hours).as_str(), "h ");
        let hms = concat_str(h.as_str(), ms.as_str());
        let d = concat_str(decimal_string(days).as_str(), "d ");
        concat_str(d.as_str(), hms.as_str())
    } else if hours > 0 {
        let h = concat_str(decimal_string(hours).as_str(), "h ");
        concat_str(h.as_str(), ms.as_str())
    } else if minutes > 0 {
        ms
    } else {
        s
    }
}

/// The lines listing the first `k` sockets.
pub open spec fn socket_lines(sockets: Seq<SocketStatus>, k: int) -> Seq<char>
    decreases k,
{
    if k <= 0 {
        Seq::empty()
    } else {
        let s = sockets[k - 1];
        socket_lines(sockets, k - 1) + "  "@ + (if s.exists {
            "[OK]"@
        } else {
            "[--]"@
        }) + " "@ + s.path@ + " (connections: "@ + decimal(s.connections as nat) + ")\n"@
    }
}

/// The status as text: whether the daemon runs (with its PID and uptime,
/// or a note on a stale PID file), the PID file, and the sockets.
pub open spec fn spec_status_text(s: StatusInfo) -> Seq<char> {
    let head = "authsock-filter Status\n======================\n\n"@;
    let state = if s.running {
        "Status:   RUNNING\n"@ + match s.pid {
            Some(p) => "PID:      "@ + decimal(p as nat) + "\n"@,
            None => Seq::empty(),
        } + match s.uptime_secs {
            Some(u) => "Uptime:   "@ + spec_format_uptime(u as nat) + "\n"@,
            None => Seq::empty(),
        }
    } else {
        "Status:   STOPPED\n"@ + if s.pid is Some {
            "Note:     Stale PID file exists\n"@
        } else {
            Seq::empty()
        }
    };
    let file = "PID File: "@ + s.pid_file@ + "\n"@;
    let socks = if s.sockets@.len() > 0 {
        "\nSockets:\n"@ + socket_lines(s.sockets@, s.sockets@.len() as int)
    } else {
        Seq::empty()
    };
    head + state + file + socks
}

/// The status as text, as [`spec_status_text`] states.
pub fn status_text(s: &StatusInfo) -> (r: String)
    ensures
        r@ == spec_status_text(*s),
{
    proof {
        reveal_strlit("");
    }
    let mut out = "authsock-filter Status\n======================\n\n".to_string();
    if s.running {
        out = concat_str(out.as_str(), "Status:   RUNNING\n");
        match s.pid {
            Some(p) => {
                let a = concat_str("PID:      ", decimal_string(p as u64).as_str());
                let b = concat_str(a.as_str(), "\n");
                out = concat_str(out.as_str(), b.as_str());
            },
            None => {},
        }
        match s.uptime_secs {
            Some(u) => {
                let a = concat_str("Uptime:   ", format_uptime(u).as_str());
                let b = concat_str(a.as_str(), "\n");
                out = concat_str(out.as_str(), b.as_str());
            },
            None => {},
        }
    } else {
        out = concat_str(out.as_str(), "Status:   STOPPED\n");
        if s.pid.is_some() {
            out = concat_str(out.as_str(), "Note:     Stale PID file exists\n");
        }
    }
    let f1 = concat_str("PID File: ", s.pid_file.as_str());
    let f2 = concat_str(f1.as_str(), "\n");
    out = concat_str(out.as_str(), f2.as_str());
    if s.sockets.len() > 0 {
        let mut lines = String::new();
        let mut i: usize = 0;
        while i < s.sockets.len()
            invariant
                i <= s.sockets@.len(),
                lines@ == socket_lines(s.sockets@, i as int),
            decreases s.sockets@.len() - i,
        {
            let sock = &s.sockets[i];
            let icon = if sock.exists {
                "[OK]"
            } else {
                "[--]"
            };
            let a = concat_str(lines.as_str(), "  ");
            let b = concat_str(a.as_str(), icon);
            let c = concat_str(b.as_str(), " ");
            let d = concat_str(c.as_str(), sock.path.as_str());
            let e = concat_str(d.as_str(), " (connections: ");
            let f = concat_str(e.as_str(), decimal_string(sock.connections as u64).as_str());
            lines = concat_str(f.as_str(), ")\n");
            i = i + 1;
        }
        let l = concat_str("\nSockets:\n", lines.as_str());
        out = concat_str(out.as_str(), l.as_str());
    }
    out
}

} // verus!
