//! The files that registering the proxy as an OS service writes, with
//! the sockets given on the command line.

use vstd::prelude::*;
use crate::cli::args::SocketSpec;
use crate::config::file::Platform;
use crate::error::Error;
use crate::text::{concat_str, push_string, spec_join, strings_view};

verus! {

/// The service manager that runs the proxy.
#[derive(Debug, Clone, Copy, PartialEq, Eq, Structural)]
pub enum ServiceManager {
    /// macOS launchd.
    Launchd,
    /// Linux systemd, per user.
    SystemdUser,
    /// Linux systemd, system-wide.
    SystemdSystem,
}

/// The service manager of the platform: launchd on macOS; on Linux the
/// user systemd when systemd runs (`/run/systemd/system` exists).
pub fn detect_service_manager(platform: Platform, systemd_running: bool) -> (r: Result<ServiceManager, Error>)
    ensures
        platform == Platform::MacOs ==> r == Ok::<ServiceManager, Error>(ServiceManager::Launchd),
        platform == Platform::Linux ==> (systemd_running <==> r == Ok::<ServiceManager, Error>(
            ServiceManager::SystemdUser,
        )) && (!systemd_running ==> (r matches Err(e) && e matches Error::Daemon(m) && m@
            == "No supported service manager found. systemd is required on Linux."@)),
        platform == Platform::Other ==> (r matches Err(e) && e matches Error::Daemon(m) && m@
            == "Service registration is not supported on this platform"@),
{
    match platform {
        Platform::MacOs => Ok(ServiceManager::Launchd),
        Platform::Linux => if systemd_running {
            Ok(ServiceManager::SystemdUser)
        } else {
            Err(Error::Daemon("No supported service manager found. systemd is required on Linux.".to_string()))
        },
        Platform::Other => Err(Error::Daemon("Service registration is not supported on this platform".to_string())),
    }
}

/// The arguments each socket adds: `--socket PATH`, then `--filter F` for
/// each of its filters, for the first `k` sockets.
pub open spec fn socket_args(specs: Seq<SocketSpec>, k: int) -> Seq<Seq<char>>
    decreases k,
{
    if k <= 0 {
        Seq::empty()
    } else {
        let s = specs[k - 1];
        socket_args(specs, k - 1) + seq!["--socket"@, s.path@] + filter_args(s.filters@.map_values(|f: String| f@))
    }
}

/// `--filter F` for each filter.
pub open spec fn filter_args(filters: Seq<Seq<char>>) -> Seq<Seq<char>>
    decreases filters.len(),
{
    if filters.len() == 0 {
        Seq::empty()
    } else {
        filter_args(filters.drop_last()) + seq!["--filter"@, filters.last()]
    }
}

/// The command line the service runs: `EXE run`, `--upstream UP` when an
/// upstream is given, then each socket's arguments.
pub open spec fn service_command(exe: Seq<char>, upstream: Option<Seq<char>>, specs: Seq<SocketSpec>) -> Seq<Seq<char>> {
    let head = match upstream {
        Some(u) => seq![exe, "run"@, "--upstream"@, u],
        None => seq![exe, "run"@],
    };
    head + socket_args(specs, specs.len() as int)
}

/// The command line the service runs, as [`service_command`] states.
pub fn service_command_exec(exe: &str, upstream: Option<String>, specs: &[SocketSpec]) -> (r: Vec<String>)
    ensures
        strings_view(r@) == service_command(
            exe@,
            match upstream {
                Some(u) => Some(u@),
                None => None,
            },
            specs@,
        ),
{
    let mut args: Vec<String> = Vec::new();
    push_string(&mut args, exe.to_string());
    push_string(&mut args, "run".to_string());
    match &upstream {
        Some(u) => {
            push_string(&mut args, "--upstream".to_string());
            push_string(&mut args, u.clone());
        },
        None => {},
    }
    let ghost head = strings_view(args@);
    assert(head =~= match upstream {
        Some(u) => seq![exe@, "run"@, "--upstream"@, u@],
        None => seq![exe@, "run"@],
    });
    let mut i: usize = 0;
    while i < specs.len()
        invariant
            i <= specs@.len(),
            strings_view(args@) == head + socket_args(specs@, i as int),
        decreases specs@.len() - i,
    {
        let spec = &specs[i];
        push_string(&mut args, "--socket".to_string());
        push_string(&mut args, spec.path.clone());
        let ghost fv = spec.filters@.map_values(|f: String| f@);
        let ghost before = strings_view(args@);
        let mut k: usize = 0;
        while k < spec.filters.len()
            invariant
                k <= spec.filters@.len(),
                fv == spec.filters@.map_values(|f: String| f@),
                strings_view(args@) == before + filter_args(fv.take(k as int)),
            decreases spec.filters@.len() - k,
        {
            push_string(&mut args, "--filter".to_string());
            push_string(&mut args, spec.filters[k].clone());
            assert(fv.take(k + 1).drop_last() =~= fv.take(k as int));
            assert(fv.take(k + 1).last() == spec.filters@[k as int]@);
            assert(strings_view(args@) =~= before + filter_args(fv.take(k + 1)));
            k = k + 1;
        }
        assert(fv.take(k as int) =~= fv);
        assert(strings_view(args@) =~= head + socket_args(specs@, i + 1));
        i = i + 1;
    }
    args
}

/// The launchd plist that runs the service command (each argument in a
/// `<string>` line), at load and kept alive, logging to
/// `/tmp/NAME.stdout.log` and `/tmp/NAME.stderr.log`.
pub open spec fn spec_launchd_plist(name: Seq<char>, args: Seq<Seq<char>>) -> Seq<char> {
    let lines = Seq::new(args.len(), |i: int| "    <string>"@ + args[i] + "</string>"@);
    "<?xml version=\"1.0\" encoding=\"UTF-8\"?>\n<!DOCTYPE plist PUBLIC \"-//Apple//DTD PLIST 1.0//EN\" \"http://www.apple.com/DTDs/PropertyList-1.0.dtd\">\n<plist version=\"1.0\">\n<dict>\n  <key>Label</key>\n  <string>com.github.kawaz."@
        + name + "</string>\n\n  <key>ProgramArguments</key>\n  <array>\n"@ + spec_join(lines, "\n"@)
        + "\n  </array>\n\n  <key>RunAtLoad</key>\n  <true/>\n\n  <key>KeepAlive</key>\n  <true/>\n\n  <key>StandardOutPath</key>\n  <string>/tmp/"@
        + name + ".stdout.log</string>\n\n  <key>StandardErrorPath</key>\n  <string>/tmp/"@ + name
        + ".stderr.log</string>\n\n  <key>EnvironmentVariables</key>\n  <dict>\n    <key>PATH</key>\n    <string>/usr/local/bin:/usr/bin:/bin</string>\n  </dict>\n</dict>\n</plist>\n"@
}

/// The launchd plist of a named service, as [`spec_launchd_plist`] states
/// of its [`service_command`].
pub fn generate_launchd_plist(name: &str, exe_path: &str, upstream: Option<String>, socket_specs: &[SocketSpec]) -> (r:
    String)
    ensures
        r@ == spec_launchd_plist(
            name@,
            service_command(
                exe_path@,
                match upstream {
                    Some(u) => Some(u@),
                    None => None,
                },
                socket_specs@,
            ),
        ),
{
    let args = service_command_exec(exe_path, upstream, socket_specs);
    let ghost av = strings_view(args@);
    let mut lines: Vec<String> = Vec::new();
    let mut i: usize = 0;
    while i < args.len()
        invariant
            i <= args@.len(),
            av == strings_view(args@),
            strings_view(lines@) == Seq::new(i as nat, |j: int| "    <string>"@ + av[j] + "</string>"@),
        decreases args@.len() - i,
    {
        let a = concat_str("    <string>", args[i].as_str());
        push_string(&mut lines, concat_str(a.as_str(), "</string>"));
        assert(strings_view(lines@) =~= Seq::new((i + 1) as nat, |j: int| "    <string>"@ + av[j] + "</string>"@));
        i = i + 1;
    }
    let args_xml = crate::text::join_strings(lines.as_slice(), "\n");
    let p1 = concat_str(
        "<?xml version=\"1.0\" encoding=\"UTF-8\"?>\n<!DOCTYPE plist PUBLIC \"-//Apple//DTD PLIST 1.0//EN\" \"http://www.apple.com/DTDs/PropertyList-1.0.dtd\">\n<plist version=\"1.0\">\n<dict>\n  <key>Label</key>\n  <string>com.github.kawaz.",
        name,
    );
    let p2 = concat_str(p1.as_str(), "</string>\n\n  <key>ProgramArguments</key>\n  <array>\n");
    let p3 = concat_str(p2.as_str(), args_xml.as_str());
    let p4 = concat_str(
        p3.as_str(),
        "\n  </array>\n\n  <key>RunAtLoad</key>\n  <true/>\n\n  <key>KeepAlive</key>\n  <true/>\n\n  <key>StandardOutPath</key>\n  <string>/tmp/",
    );
    let p5 = concat_str(p4.as_str(), name);
    let p6 = concat_str(p5.as_str(), ".stdout.log</string>\n\n  <key>StandardErrorPath</key>\n  <string>/tmp/");
    let p7 = concat_str(p6.as_str(), name);
    concat_str(
        p7.as_str(),
        ".stderr.log</string>\n\n  <key>EnvironmentVariables</key>\n  <dict>\n    <key>PATH</key>\n    <string>/usr/local/bin:/usr/bin:/bin</string>\n  </dict>\n</dict>\n</plist>\n",
    )
}

/// The systemd unit that runs the service command (joined with spaces),
/// restarting on failure, with the sandboxing options.
pub open spec fn spec_systemd_unit(args: Seq<Seq<char>>) -> Seq<char> {
    "[Unit]\nDescription=SSH agent proxy with filtering and logging\nAfter=default.target\n\n[Service]\nType=simple\nExecStart="@
        + spec_join(args, " "@)
        + "\nRestart=on-failure\nRestartSec=5\n\n# Security hardening\nNoNewPrivileges=true\nProtectSystem=strict\nProtectHome=read-only\nPrivateTmp=true\n\n[Install]\nWantedBy=default.target\n"@
}

/// The systemd unit of a named service, as [`spec_systemd_unit`] states
/// of its [`service_command`].
pub fn generate_systemd_unit(name: &str, exe_path: &str, upstream: Option<String>, socket_specs: &[SocketSpec]) -> (r:
    String)
    ensures
        r@ == spec_systemd_unit(
            service_command(
                exe_path@,
                match upstream {
                    Some(u) => Some(u@),
                    None => None,
                },
                socket_specs@,
            ),
        ),
{
    let args = service_command_exec(exe_path, upstream, socket_specs);
    let exec_start = crate::text::join_strings(args.as_slice(), " ");
    let a = concat_str(
        "[Unit]\nDescription=SSH agent proxy with filtering and logging\nAfter=default.target\n\n[Service]\nType=simple\nExecStart=",
        exec_start.as_str(),
    );
    concat_str(
        a.as_str(),
        "\nRestart=on-failure\nRestartSec=5\n\n# Security hardening\nNoNewPrivileges=true\nProtectSystem=strict\nProtectHome=read-only\nPrivateTmp=true\n\n[Install]\nWantedBy=default.target\n",
    )
}

/// Registration is refused when the service file already exists.
pub fn already_registered_check(exists: bool, path: &str) -> (r: Result<(), Error>)
    ensures
        r is Ok <==> !exists,
        r matches Err(e) ==> (e matches Error::Daemon(m) && m@ == "Service is already registered: "@ + path@
            + "\nUse 'unregister' first to remove it."@),
{
    if exists {
        let a = concat_str("Service is already registered: ", path);
        Err(Error::Daemon(concat_str(a.as_str(), "\nUse 'unregister' first to remove it.")))
    } else {
        Ok(())
    }
}

} // verus!
