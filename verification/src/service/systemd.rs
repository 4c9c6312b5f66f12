//! Linux systemd: the user unit, and what `systemctl` answers.

use vstd::prelude::*;
use crate::error::Error;
use crate::text::{concat_str, spec_join, strings_view, trim};
use crate::utils::path::spec_path_join;

verus! {

/// The unit name of the service.
pub const SERVICE_NAME: &'static str = "authsock-filter.service";

/// The systemd manager: where the unit file is and the service's name.
#[derive(Debug)]
pub struct Systemd {
    unit_path: String,
    service_name: String,
}

/// The status of the systemd service.
#[derive(Debug)]
pub struct SystemdStatus {
    /// Whether the unit file exists.
    pub registered: bool,
    /// Whether the service is enabled.
    pub enabled: bool,
    /// Whether the service is running.
    pub running: bool,
    /// The unit file's path.
    pub unit_path: String,
    /// The service name.
    pub service_name: String,
}

/// `CONFIG/systemd/user/authsock-filter.service`, where `CONFIG` is the
/// configuration directory, else `~/.config` (with `~` for an unknown home
/// directory).
pub open spec fn spec_default_unit_path(config_dir: Option<Seq<char>>, home: Option<Seq<char>>) -> Seq<char> {
    let base = match config_dir {
        Some(c) => c,
        None => spec_path_join(
            match home {
                Some(h) => h,
                None => "~"@,
            },
            ".config"@,
        ),
    };
    spec_path_join(spec_path_join(spec_path_join(base, "systemd"@), "user"@), SERVICE_NAME@)
}

/// The unit file of the service: it runs `EXE run ARGS...` (joined with
/// spaces), restarts on failure, and logs at level `info`.
pub open spec fn spec_generate_unit(exe: Seq<char>, args: Seq<Seq<char>>) -> Seq<char> {
    "[Unit]\nDescription=SSH Agent Filter Proxy\nDocumentation=https://github.com/kawaz/authsock-filter\nAfter=default.target\n\n[Service]\nType=simple\nExecStart="@
        + spec_join(seq![exe, "run"@] + args, " "@)
        + "\nRestart=on-failure\nRestartSec=5\n\n# Environment\nEnvironment=RUST_LOG=info\n\n[Install]\nWantedBy=default.target\n"@
}

impl Systemd {
    /// The unit file's path.
    pub closed spec fn spec_unit_path(&self) -> Seq<char> {
        self.unit_path@
    }

    /// The service name.
    pub closed spec fn spec_service_name(&self) -> Seq<char> {
        self.service_name@
    }

    /// The default unit file path, as [`spec_default_unit_path`] states.
    pub fn default_unit_path(config_dir: Option<String>, home: Option<String>) -> (r: String)
        ensures
            r@ == spec_default_unit_path(
                match config_dir {
                    Some(c) => Some(c@),
                    None => None,
                },
                match home {
                    Some(h) => Some(h@),
                    None => None,
                },
            ),
    {
        let base = match config_dir {
            Some(c) => c,
            None => {
                let h = match home {
                    Some(h) => h,
                    None => "~".to_string(),
                };
                crate::utils::path::path_join(h.as_str(), ".config")
            },
        };
        let a = crate::utils::path::path_join(base.as_str(), "systemd");
        let b = crate::utils::path::path_join(a.as_str(), "user");
        crate::utils::path::path_join(b.as_str(), SERVICE_NAME)
    }

    /// A manager with the default unit path.
    pub fn new(config_dir: Option<String>, home: Option<String>) -> (s: Systemd)
        ensures
            s.spec_unit_path() == spec_default_unit_path(
                match config_dir {
                    Some(c) => Some(c@),
                    None => None,
                },
                match home {
                    Some(h) => Some(h@),
                    None => None,
                },
            ),
            s.spec_service_name() == SERVICE_NAME@,
    {
        Systemd { unit_path: Self::default_unit_path(config_dir, home), service_name: SERVICE_NAME.to_string() }
    }

    /// A manager with the given unit path.
    pub fn with_unit_path(unit_path: String) -> (s: Systemd)
        ensures
            s.spec_unit_path() == unit_path@,
            s.spec_service_name() == SERVICE_NAME@,
    {
        Systemd { unit_path, service_name: SERVICE_NAME.to_string() }
    }

    /// The unit file's path.
    pub fn unit_path(&self) -> (r: &String)
        ensures
            r@ == self.spec_unit_path(),
    {
        &self.unit_path
    }

    /// The service name.
    pub fn service_name(&self) -> (r: &str)
        ensures
            r@ == self.spec_service_name(),
    {
        self.service_name.as_str()
    }

    /// The unit file's content, as [`spec_generate_unit`] states;
    /// `executable` is the program's path.
    pub fn generate_unit(&self, executable: &str, args: &[String]) -> (r: String)
        ensures
            r@ == spec_generate_unit(executable@, strings_view(args@)),
    {
        let mut parts: Vec<String> = Vec::new();
        crate::text::push_string(&mut parts, executable.to_string());
        crate::text::push_string(&mut parts, "run".to_string());
        let mut i: usize = 0;
        while i < args.len()
            invariant
                i <= args@.len(),
                strings_view(parts@) == seq![executable@, "run"@] + strings_view(args@).take(i as int),
            decreases args@.len() - i,
        {
            crate::text::push_string(&mut parts, args[i].clone());
            assert(strings_view(args@).take(i + 1) =~= strings_view(args@).take(i as int).push(args@[i as int]@));
            assert(strings_view(parts@) =~= seq![executable@, "run"@] + strings_view(args@).take(i + 1));
            i = i + 1;
        }
        assert(strings_view(args@).take(i as int) =~= strings_view(args@));
        let exec_start = crate::text::join_strings(parts.as_slice(), " ");
        let a = concat_str(
            "[Unit]\nDescription=SSH Agent Filter Proxy\nDocumentation=https://github.com/kawaz/authsock-filter\nAfter=default.target\n\n[Service]\nType=simple\nExecStart=",
            exec_start.as_str(),
        );
        concat_str(
            a.as_str(),
            "\nRestart=on-failure\nRestartSec=5\n\n# Environment\nEnvironment=RUST_LOG=info\n\n[Install]\nWantedBy=default.target\n",
        )
    }

    /// Whether the service is registered: its unit file exists.
    pub fn is_registered(&self, unit_file_exists: bool) -> (r: bool)
        ensures
            r == unit_file_exists,
    {
        unit_file_exists
    }

    /// Whether `systemctl --user is-enabled` output (`None` when it could
    /// not be run) says `enabled`.
    pub fn is_enabled(&self, stdout: Option<String>) -> (r: bool)
        ensures
            r == (stdout matches Some(s) && trim(s@) == "enabled"@),
    {
        answer_is(stdout, "enabled")
    }

    /// Whether `systemctl --user is-active` output (`None` when it could
    /// not be run) says `active`.
    pub fn is_running(&self, stdout: Option<String>) -> (r: bool)
        ensures
            r == (stdout matches Some(s) && trim(s@) == "active"@),
    {
        answer_is(stdout, "active")
    }

    /// The status, from whether the unit exists, is enabled and runs (the
    /// last two asked only when it exists).
    pub fn status(&self, registered: bool, enabled: bool, running: bool) -> (r: SystemdStatus)
        ensures
            r.registered == registered,
            r.enabled == (registered && enabled),
            r.running == (registered && running),
            r.unit_path@ == self.spec_unit_path(),
            r.service_name@ == self.spec_service_name(),
    {
        SystemdStatus {
            registered,
            enabled: registered && enabled,
            running: registered && running,
            unit_path: self.unit_path.clone(),
            service_name: self.service_name.clone(),
        }
    }

    /// Registration is refused when the service is already registered.
    pub fn register_check(&self, registered: bool) -> (r: Result<(), Error>)
        ensures
            r is Ok <==> !registered,
            r matches Err(e) ==> (e matches Error::Daemon(m) && m@ == "Service "@ + self.spec_service_name()
                + " is already registered"@),
    {
        if registered {
            let a = concat_str("Service ", self.service_name.as_str());
            Err(Error::Daemon(concat_str(a.as_str(), " is already registered")))
        } else {
            Ok(())
        }
    }

    /// Unregistration needs the unit file.
    pub fn unregister_check(&self, unit_file_exists: bool) -> (r: Result<(), Error>)
        ensures
            r is Ok <==> unit_file_exists,
            r matches Err(e) ==> (e matches Error::Daemon(m) && m@ == "Service "@ + self.spec_service_name()
                + " is not registered (unit file not found)"@),
    {
        if !unit_file_exists {
            let a = concat_str("Service ", self.service_name.as_str());
            Err(Error::Daemon(concat_str(a.as_str(), " is not registered (unit file not found)")))
        } else {
            Ok(())
        }
    }

    /// A restart needs the unit file.
    pub fn restart_check(&self, registered: bool) -> (r: Result<(), Error>)
        ensures
            r is Ok <==> registered,
            r matches Err(e) ==> (e matches Error::Daemon(m) && m@ == "Service "@ + self.spec_service_name() + " is not registered"@),
    {
        if !registered {
            let a = concat_str("Service ", self.service_name.as_str());
            Err(Error::Daemon(concat_str(a.as_str(), " is not registered")))
        } else {
            Ok(())
        }
    }

    /// The error when a `systemctl` step (`enable` or `restart`) fails,
    /// with what it wrote.
    pub fn step_failure(step: &str, stderr: &str) -> (r: Error)
        ensures
            r matches Error::Daemon(m) && m@ == "systemctl "@ + step@ + " failed: "@ + trim(stderr@),
    {
        let v = crate::text::chars_of(stderr);
        let t = crate::text::trim_chars(v.as_slice());
        let ts = crate::text::string_of(t.as_slice());
        let a = concat_str("systemctl ", step);
        let b = concat_str(a.as_str(), " failed: ");
        Error::Daemon(concat_str(b.as_str(), ts.as_str()))
    }
}

/// Whether a command's output, trimmed, is `word`.
fn answer_is(stdout: Option<String>, word: &str) -> (r: bool)
    ensures
        r == (stdout matches Some(s) && trim(s@) == word@),
{
    match stdout {
        Some(s) => {
            let v = crate::text::chars_of(s.as_str());
            let t = crate::text::trim_chars(v.as_slice());
            let ts = crate::text::string_of(t.as_slice());
            crate::text::str_eq(ts.as_str(), word)
        },
        None => false,
    }
}

} // verus!
