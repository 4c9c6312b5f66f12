//! macOS launchd: the user agent's plist, and what `launchctl` answers.

use vstd::prelude::*;
use crate::config::duration::parse_u64_text;
use crate::error::Error;
use crate::text::{concat_str, spec_contains, spec_join, split_char, strings_view, trim};
use crate::utils::path::spec_path_join;

verus! {

/// The launchd label of the service.
pub const SERVICE_LABEL: &'static str = "com.github.kawaz.authsock-filter";

/// The launchd manager: where the plist is and the service's label.
#[derive(Debug)]
pub struct Launchd {
    plist_path: String,
    label: String,
}

/// The status of the launchd service.
#[derive(Debug)]
pub struct LaunchdStatus {
    /// Whether the service is registered with launchd.
    pub registered: bool,
    /// Whether the service is running.
    pub running: bool,
    /// The plist's path.
    pub plist_path: String,
    /// The service label.
    pub label: String,
}

/// The home directory, or `~` when it is not known.
pub open spec fn home_or_tilde(home: Option<Seq<char>>) -> Seq<char> {
    match home {
        Some(h) => h,
        None => "~"@,
    }
}

/// `~/Library/LaunchAgents/com.github.kawaz.authsock-filter.plist`.
pub open spec fn spec_default_plist_path(home: Option<Seq<char>>) -> Seq<char> {
    spec_path_join(
        spec_path_join(spec_path_join(home_or_tilde(home), "Library"@), "LaunchAgents"@),
        SERVICE_LABEL@ + ".plist"@,
    )
}

/// `~/Library/Logs/authsock-filter`, where the service logs.
pub open spec fn spec_log_dir(home: Option<Seq<char>>) -> Seq<char> {
    spec_path_join(spec_path_join(spec_path_join(home_or_tilde(home), "Library"@), "Logs"@), "authsock-filter"@)
}

/// A character as XML text writes it.
pub open spec fn xml_char(c: char) -> Seq<char> {
    if c == '&' {
        "&amp;"@
    } else if c == '<' {
        "&lt;"@
    } else if c == '>' {
        "&gt;"@
    } else if c == '"' {
        "&quot;"@
    } else if c == '\'' {
        "&apos;"@
    } else {
        seq![c]
    }
}

/// A text with XML's special characters escaped.
pub open spec fn spec_escape_xml(s: Seq<char>) -> Seq<char>
    decreases s.len(),
{
    if s.len() == 0 {
        Seq::empty()
    } else {
        spec_escape_xml(s.drop_last()) + xml_char(s.last())
    }
}

/// Escapes XML's special characters (`&`, `<`, `>`, `"`, `'`), as
/// [`spec_escape_xml`] states.
pub fn escape_xml(s: &str) -> (r: String)
    ensures
        r@ == spec_escape_xml(s@),
{
    let v = crate::text::chars_of(s);
    let mut out = String::new();
    let mut i: usize = 0;
    while i < v.len()
        invariant
            i <= v@.len(),
            v@ == s@,
            out@ == spec_escape_xml(v@.take(i as int)),
        decreases v@.len() - i,
    {
        let c = v[i];
        let piece: &str = if c == '&' {
            "&amp;"
        } else if c == '<' {
            "&lt;"
        } else if c == '>' {
            "&gt;"
        } else if c == '"' {
            "&quot;"
        } else if c == '\'' {
            "&apos;"
        } else {
            ""
        };
        if c == '&' || c == '<' || c == '>' || c == '"' || c == '\'' {
            out = concat_str(out.as_str(), piece);
        } else {
            crate::text::string_push(&mut out, c);
        }
        assert(v@.take(i + 1).drop_last() =~= v@.take(i as int));
        assert(v@.take(i + 1).last() == c);
        assert(out@ =~= spec_escape_xml(v@.take(i + 1)));
        i = i + 1;
    }
    assert(v@.take(i as int) =~= v@);
    out
}

/// One program argument line of the plist.
pub open spec fn arg_line(value: Seq<char>) -> Seq<char> {
    "        <string>"@ + value + "</string>"@
}

/// The plist of the service: it runs `EXE run ARGS...` (the arguments
/// escaped for XML), starts at load, is kept alive, and logs to
/// `authsock-filter.log` and `authsock-filter.error.log` in the log
/// directory.
pub open spec fn spec_generate_plist(label: Seq<char>, exe: Seq<char>, home: Option<Seq<char>>, args: Seq<Seq<char>>) -> Seq<
    char,
> {
    let lines = seq![arg_line(exe), arg_line("run"@)] + Seq::new(args.len(), |i: int| arg_line(spec_escape_xml(args[i])));
    let log_dir = spec_log_dir(home);
    "<?xml version=\"1.0\" encoding=\"UTF-8\"?>\n<!DOCTYPE plist PUBLIC \"-//Apple//DTD PLIST 1.0//EN\" \"http://www.apple.com/DTDs/PropertyList-1.0.dtd\">\n<plist version=\"1.0\">\n<dict>\n    <key>Label</key>\n    <string>"@
        + label + "</string>\n    <key>ProgramArguments</key>\n    <array>\n"@ + spec_join(lines, "\n"@)
        + "\n    </array>\n    <key>RunAtLoad</key>\n    <true/>\n    <key>KeepAlive</key>\n    <true/>\n    <key>StandardOutPath</key>\n    <string>"@
        + spec_path_join(log_dir, "authsock-filter.log"@)
        + "</string>\n    <key>StandardErrorPath</key>\n    <string>"@ + spec_path_join(
        log_dir,
        "authsock-filter.error.log"@,
    ) + "</string>\n    <key>ProcessType</key>\n    <string>Background</string>\n</dict>\n</plist>\n"@
}

/// Whether `launchctl list` output shows the service running: on the
/// first line that mentions the label, the first tab-separated field is a
/// process ID (not `-`).
pub open spec fn spec_running_from_list(stdout: Seq<char>, label: Seq<char>) -> bool {
    let lines = split_char(stdout, '\n');
    if exists|i: int| 0 <= i < lines.len() && spec_contains(#[trigger] lines[i], label) {
        let i = choose|i: int|
            0 <= i < lines.len() && spec_contains(#[trigger] lines[i], label) && forall|j: int|
                0 <= j < i ==> !spec_contains(#[trigger] lines[j], label);
        let first = split_char(lines[i], '\t')[0];
        first != "-"@ && (parse_u64_text(first) matches Some(v) && v <= u32::MAX)
    } else {
        false
    }
}

/// The log directory, as [`spec_log_dir`] states.
pub fn log_dir(home: Option<String>) -> (r: String)
    ensures
        r@ == spec_log_dir(
            match home {
                Some(h) => Some(h@),
                None => None,
            },
        ),
{
    let base = match home {
        Some(h) => h,
        None => "~".to_string(),
    };
    let a = crate::utils::path::path_join(base.as_str(), "Library");
    let b = crate::utils::path::path_join(a.as_str(), "Logs");
    crate::utils::path::path_join(b.as_str(), "authsock-filter")
}

impl Launchd {
    /// The plist's path.
    pub closed spec fn spec_plist_path(&self) -> Seq<char> {
        self.plist_path@
    }

    /// The service label.
    pub closed spec fn spec_label(&self) -> Seq<char> {
        self.label@
    }

    /// The default plist path, as [`spec_default_plist_path`] states.
    pub fn default_plist_path(home: Option<String>) -> (r: String)
        ensures
            r@ == spec_default_plist_path(
                match home {
                    Some(h) => Some(h@),
                    None => None,
                },
            ),
    {
        let base = match home {
            Some(h) => h,
            None => "~".to_string(),
        };
        let a = crate::utils::path::path_join(base.as_str(), "Library");
        let b = crate::utils::path::path_join(a.as_str(), "LaunchAgents");
        let file = concat_str(SERVICE_LABEL, ".plist");
        crate::utils::path::path_join(b.as_str(), file.as_str())
    }

    /// A manager with the default plist path under the home directory.
    pub fn new(home: Option<String>) -> (l: Launchd)
        ensures
            l.spec_plist_path() == spec_default_plist_path(
                match home {
                    Some(h) => Some(h@),
                    None => None,
                },
            ),
            l.spec_label() == SERVICE_LABEL@,
    {
        Launchd { plist_path: Self::default_plist_path(home), label: SERVICE_LABEL.to_string() }
    }

    /// A manager with the given plist path.
    pub fn with_plist_path(plist_path: String) -> (l: Launchd)
        ensures
            l.spec_plist_path() == plist_path@,
            l.spec_label() == SERVICE_LABEL@,
    {
        Launchd { plist_path, label: SERVICE_LABEL.to_string() }
    }

    /// The plist's path.
    pub fn plist_path(&self) -> (r: &String)
        ensures
            r@ == self.spec_plist_path(),
    {
        &self.plist_path
    }

    /// The service label.
    pub fn label(&self) -> (r: &str)
        ensures
            r@ == self.spec_label(),
    {
        self.label.as_str()
    }

    /// The plist XML for the service, as [`spec_generate_plist`] states;
    /// `executable` is the program's path.
    pub fn generate_plist(&self, executable: &str, home: Option<String>, args: &[String]) -> (r: String)
        ensures
            r@ == spec_generate_plist(
                self.spec_label(),
                executable@,
                match home {
                    Some(h) => Some(h@),
                    None => None,
                },
                strings_view(args@),
            ),
    {
        let ghost av = strings_view(args@);
        let mut lines: Vec<String> = Vec::new();
        let a0 = concat_str("        <string>", executable);
        crate::text::push_string(&mut lines, concat_str(a0.as_str(), "</string>"));
        let r0 = concat_str("        <string>", "run");
        crate::text::push_string(&mut lines, concat_str(r0.as_str(), "</string>"));
        assert(strings_view(lines@) =~= seq![arg_line(executable@), arg_line("run"@)]);
        let mut i: usize = 0;
        while i < args.len()
            invariant
                i <= args@.len(),
                av == strings_view(args@),
                strings_view(lines@) == seq![arg_line(executable@), arg_line("run"@)] + Seq::new(
                    i as nat,
                    |j: int| arg_line(spec_escape_xml(av[j])),
                ),
            decreases args@.len() - i,
        {
            let esc = escape_xml(args[i].as_str());
            let a = concat_str("        <string>", esc.as_str());
            crate::text::push_string(&mut lines, concat_str(a.as_str(), "</string>"));
            assert(strings_view(lines@) =~= seq![arg_line(executable@), arg_line("run"@)] + Seq::new(
                (i + 1) as nat,
                |j: int| arg_line(spec_escape_xml(av[j])),
            ));
            i = i + 1;
        }
        let program_args = crate::text::join_strings(lines.as_slice(), "\n");
        let dir = log_dir(home);
        let stdout_log = crate::utils::path::path_join(dir.as_str(), "authsock-filter.log");
        let stderr_log = crate::utils::path::path_join(dir.as_str(), "authsock-filter.error.log");
        let p1 = concat_str(
            "<?xml version=\"1.0\" encoding=\"UTF-8\"?>\n<!DOCTYPE plist PUBLIC \"-//Apple//DTD PLIST 1.0//EN\" \"http://www.apple.com/DTDs/PropertyList-1.0.dtd\">\n<plist version=\"1.0\">\n<dict>\n    <key>Label</key>\n    <string>",
            self.label.as_str(),
        );
        let p2 = concat_str(p1.as_str(), "</string>\n    <key>ProgramArguments</key>\n    <array>\n");
        let p3 = concat_str(p2.as_str(), program_args.as_str());
        let p4 = concat_str(
            p3.as_str(),
            "\n    </array>\n    <key>RunAtLoad</key>\n    <true/>\n    <key>KeepAlive</key>\n    <true/>\n    <key>StandardOutPath</key>\n    <string>",
        );
        let p5 = concat_str(p4.as_str(), stdout_log.as_str());
        let p6 = concat_str(p5.as_str(), "</string>\n    <key>StandardErrorPath</key>\n    <string>");
        let p7 = concat_str(p6.as_str(), stderr_log.as_str());
        concat_str(p7.as_str(), "</string>\n    <key>ProcessType</key>\n    <string>Background</string>\n</dict>\n</plist>\n")
    }

    /// Registration is refused when the service is already registered.
    pub fn register_check(&self, registered: bool) -> (r: Result<(), Error>)
        ensures
            r is Ok <==> !registered,
            r matches Err(e) ==> (e matches Error::Daemon(m) && m@ == "Service "@ + self.spec_label() + " is already registered"@),
    {
        if registered {
            let a = concat_str("Service ", self.label.as_str());
            Err(Error::Daemon(concat_str(a.as_str(), " is already registered")))
        } else {
            Ok(())
        }
    }

    /// Unregistration needs the plist.
    pub fn unregister_check(&self, plist_exists: bool) -> (r: Result<(), Error>)
        ensures
            r is Ok <==> plist_exists,
            r matches Err(e) ==> (e matches Error::Daemon(m) && m@ == "Service "@ + self.spec_label()
                + " is not registered (plist not found)"@),
    {
        if !plist_exists {
            let a = concat_str("Service ", self.label.as_str());
            Err(Error::Daemon(concat_str(a.as_str(), " is not registered (plist not found)")))
        } else {
            Ok(())
        }
    }

    /// The error when `launchctl load` fails, with what it wrote.
    pub fn load_failure(stderr: &str) -> (r: Error)
        ensures
            r matches Error::Daemon(m) && m@ == "launchctl load failed: "@ + trim(stderr@),
    {
        let v = crate::text::chars_of(stderr);
        let t = crate::text::trim_chars(v.as_slice());
        let ts = crate::text::string_of(t.as_slice());
        Error::Daemon(concat_str("launchctl load failed: ", ts.as_str()))
    }

    /// Whether the service is registered: its plist exists and
    /// `launchctl list LABEL` succeeds (asked only when the plist exists).
    pub fn is_registered(&self, plist_exists: bool, listed: bool) -> (r: bool)
        ensures
            r == (plist_exists && listed),
    {
        plist_exists && listed
    }

    /// Whether the service runs, from the output of `launchctl list LABEL`
    /// (`None` when that failed), as [`spec_running_from_list`] states.
    pub fn is_running(&self, stdout: Option<String>) -> (r: bool)
        ensures
            r == match stdout {
                Some(s) => spec_running_from_list(s@, self.spec_label()),
                None => false,
            },
    {
        match stdout {
            Some(s) => running_from_list_exec(s.as_str(), self.label.as_str()),
            None => false,
        }
    }

    /// The status, from whether the service is registered and whether it
    /// runs (asked only when registered).
    pub fn status(&self, registered: bool, running: bool) -> (r: LaunchdStatus)
        ensures
            r.registered == registered,
            r.running == (registered && running),
            r.plist_path@ == self.spec_plist_path(),
            r.label@ == self.spec_label(),
    {
        LaunchdStatus {
            registered,
            running: registered && running,
            plist_path: self.plist_path.clone(),
            label: self.label.clone(),
        }
    }
}

/// Whether `launchctl list` output shows the service running.
fn running_from_list_exec(stdout: &str, label: &str) -> (r: bool)
    ensures
        r == spec_running_from_list(stdout@, label@),
{
    let sv = crate::text::chars_of(stdout);
    let lv = crate::text::chars_of(label);
    let lines = crate::text::split_on(sv.as_slice(), '\n');
    let ghost ls = split_char(stdout@, '\n');
    let mut i: usize = 0;
    while i < lines.len()
        invariant
            i <= lines@.len(),
            lv@ == label@,
            ls == split_char(stdout@, '\n'),
            lines@.len() == ls.len(),
            forall|j: int| 0 <= j < lines@.len() ==> #[trigger] lines@[j]@ == ls[j],
            forall|j: int| 0 <= j < i ==> !spec_contains(#[trigger] ls[j], label@),
        decreases lines@.len() - i,
    {
        assert(lines@[i as int]@ == ls[i as int]);
        if crate::text::contains(lines[i].as_slice(), lv.as_slice()) {
            proof {
                let k = i as int;
                let c = choose|c: int|
                    0 <= c < ls.len() && spec_contains(#[trigger] ls[c], label@) && forall|j: int|
                        0 <= j < c ==> !spec_contains(#[trigger] ls[j], label@);
                if c > k {
                    assert(!spec_contains(ls[k], label@));
                }
                crate::text::lemma_split_char_nonempty(ls[k], '\t');
            }
            let parts = crate::text::split_on(lines[i].as_slice(), '\t');
            let first = crate::text::string_of(parts[0].as_slice());
            assert(first@ == split_char(ls[i as int], '\t')[0]);
            let is_dash = crate::text::str_eq(first.as_str(), "-");
            let pid = crate::config::duration::parse_u32_str(first.as_str());
            return !is_dash && pid.is_some();
        }
        i = i + 1;
    }
    false
}

} // verus!
