use authsock_filter::error::Error;
use authsock_filter::service::launchd::escape_xml;
use authsock_filter::service::{Daemon, Launchd, Systemd};

#[test]
fn test_default_pid_file() {
    let pid_file = Daemon::default_pid_file(None);
    assert!(pid_file.ends_with("authsock-filter/authsock-filter.pid"));
}

#[test]
fn test_daemon_with_custom_pid_file() {
    let custom_path = "/tmp/test.pid".to_string();
    let daemon = Daemon::with_pid_file(custom_path.clone());
    assert_eq!(daemon.pid_file(), &custom_path);
}

#[test]
fn test_status_no_pid_file() {
    let daemon = Daemon::with_pid_file("/tmp/nonexistent.pid".to_string());
    let status = daemon.status(None, false).unwrap();
    assert!(!status.running);
    assert!(status.pid.is_none());
}

#[test]
fn daemon_status_reads_and_rejects_pids() {
    let daemon = Daemon::with_pid_file("/run/x.pid".to_string());
    let s = daemon.status(Some(" 999999999\n".to_string()), false).unwrap();
    assert_eq!(s.pid, Some(999999999));
    assert!(!s.running);
    match daemon.status(Some("abc".to_string()), true) {
        Err(Error::Daemon(m)) => assert_eq!(m, "Invalid PID in file: invalid digit found in string"),
        other => panic!("unexpected {:?}", other),
    }
    match daemon.status(Some("".to_string()), true) {
        Err(Error::Daemon(m)) => assert_eq!(m, "Invalid PID in file: cannot parse integer from empty string"),
        other => panic!("unexpected {:?}", other),
    }
    match daemon.status(Some("99999999999".to_string()), true) {
        Err(Error::Daemon(m)) => assert_eq!(m, "Invalid PID in file: number too large to fit in target type"),
        other => panic!("unexpected {:?}", other),
    }
    assert_eq!(Daemon::default_pid_file(Some("/run/user/1".to_string())), "/run/user/1/authsock-filter/authsock-filter.pid");
}

#[test]
fn daemon_start_stop_decisions() {
    let daemon = Daemon::with_pid_file("/run/x.pid".to_string());
    let running = daemon.status(Some("42".to_string()), true).unwrap();
    match Daemon::start_check(&running) {
        Err(Error::Daemon(m)) => assert_eq!(m, "Daemon is already running with PID 42"),
        other => panic!("unexpected {:?}", other),
    }
    assert_eq!(Daemon::stop_target(&running).unwrap(), 42);
    let stopped = daemon.status(Some("42".to_string()), false).unwrap();
    assert!(Daemon::start_check(&stopped).is_ok());
    assert!(Daemon::stop_target(&stopped).is_err());
    assert!(Daemon::stale_pid_file(true, &stopped));
    assert_eq!(Daemon::signal_args(42, "TERM"), vec!["-TERM".to_string(), "42".to_string()]);
    assert_eq!(
        Daemon::run_args(&["--socket".to_string(), "/tmp/a.sock".to_string()]),
        vec!["run".to_string(), "--socket".to_string(), "/tmp/a.sock".to_string()]
    );
    match Daemon::send_signal(42, "TERM", Ok((false, " no such process\n".to_string()))) {
        Err(Error::Daemon(m)) => assert_eq!(m, "Failed to send TERM to process 42: no such process"),
        other => panic!("unexpected {:?}", other),
    }
    assert!(Daemon::send_signal(42, "TERM", Ok((true, String::new()))).is_ok());
}

#[test]
fn test_default_plist_path() {
    let plist_path = Launchd::default_plist_path(Some("/Users/me".to_string()));
    assert!(plist_path.contains("Library/LaunchAgents"));
    assert!(plist_path.ends_with("com.github.kawaz.authsock-filter.plist"));
}

#[test]
fn test_generate_plist() {
    let launchd = Launchd::with_plist_path("/tmp/com.github.kawaz.authsock-filter.plist".to_string());
    let plist = launchd.generate_plist(
        "/usr/local/bin/authsock-filter",
        Some("/Users/me".to_string()),
        &["--upstream".to_string(), "/tmp/agent.sock".to_string()],
    );
    assert!(plist.contains("<key>Label</key>"));
    assert!(plist.contains("com.github.kawaz.authsock-filter"));
    assert!(plist.contains("<key>RunAtLoad</key>"));
    assert!(plist.contains("<true/>"));
    assert!(plist.contains("--upstream"));
    assert!(plist.contains("/tmp/agent.sock"));
    assert!(plist.contains("<string>/Users/me/Library/Logs/authsock-filter/authsock-filter.log</string>"));
}

#[test]
fn test_escape_xml() {
    assert_eq!(escape_xml("hello"), "hello");
    assert_eq!(escape_xml("<test>"), "&lt;test&gt;");
    assert_eq!(escape_xml("a & b"), "a &amp; b");
    assert_eq!(escape_xml("\"quoted\""), "&quot;quoted&quot;");
}

#[test]
fn test_launchd_with_custom_path() {
    let custom_path = "/tmp/test.plist".to_string();
    let launchd = Launchd::with_plist_path(custom_path.clone());
    assert_eq!(launchd.plist_path(), &custom_path);
}

#[test]
fn launchd_list_output() {
    let l = Launchd::new(Some("/Users/me".to_string()));
    assert_eq!(l.label(), "com.github.kawaz.authsock-filter");
    assert!(l.is_running(Some("123\t0\tcom.github.kawaz.authsock-filter\n".to_string())));
    assert!(!l.is_running(Some("-\t0\tcom.github.kawaz.authsock-filter\n".to_string())));
    assert!(!l.is_running(Some("123\t0\tother\n".to_string())));
    assert!(!l.is_running(None));
    assert!(!l.status(false, true).running);
    assert_eq!(escape_xml("it's"), "it&apos;s");
}

#[test]
fn test_default_unit_path() {
    let unit_path = Systemd::default_unit_path(None, Some("/home/me".to_string()));
    assert!(unit_path.contains("systemd/user"));
    assert!(unit_path.ends_with("authsock-filter.service"));
}

#[test]
fn test_generate_unit() {
    let systemd = Systemd::with_unit_path("/tmp/authsock-filter.service".to_string());
    let unit = systemd.generate_unit("/usr/bin/authsock-filter", &["--upstream".to_string(), "/tmp/agent.sock".to_string()]);
    assert!(unit.contains("[Unit]"));
    assert!(unit.contains("[Service]"));
    assert!(unit.contains("[Install]"));
    assert!(unit.contains("Description=SSH Agent Filter Proxy"));
    assert!(unit.contains("Type=simple"));
    assert!(unit.contains("Restart=on-failure"));
    assert!(unit.contains("--upstream"));
    assert!(unit.contains("/tmp/agent.sock"));
    assert!(unit.contains("ExecStart=/usr/bin/authsock-filter run --upstream /tmp/agent.sock\n"));
}

#[test]
fn test_systemd_with_custom_path() {
    let custom_path = "/tmp/test.service".to_string();
    let systemd = Systemd::with_unit_path(custom_path.clone());
    assert_eq!(systemd.unit_path(), &custom_path);
}

#[test]
fn test_is_registered_false() {
    let systemd = Systemd::with_unit_path("/tmp/nonexistent.service".to_string());
    assert!(!systemd.is_registered(false));
}

#[test]
fn systemd_answers() {
    let s = Systemd::new(Some("/home/me/.config".to_string()), None);
    assert_eq!(s.unit_path(), "/home/me/.config/systemd/user/authsock-filter.service");
    assert_eq!(s.service_name(), "authsock-filter.service");
    assert!(s.is_enabled(Some("enabled\n".to_string())));
    assert!(!s.is_enabled(Some("disabled\n".to_string())));
    assert!(s.is_running(Some(" active \n".to_string())));
    assert!(!s.is_running(None));
    let st = s.status(true, true, false);
    assert!(st.registered && st.enabled && !st.running);
    match Systemd::step_failure("restart", "  boom\n") {
        Error::Daemon(m) => assert_eq!(m, "systemctl restart failed: boom"),
        other => panic!("unexpected {:?}", other),
    }
    assert_eq!(Systemd::default_unit_path(None, None), "~/.config/systemd/user/authsock-filter.service");
}

#[test]
fn test_status_with_stale_pid() {
    // The PID file names a process that does not run (`kill -0` fails).
    let daemon = Daemon::with_pid_file("/tmp/stale.pid".to_string());
    let running = Daemon::is_process_running(Some(false));
    let status = daemon.status(Some("999999999".to_string()), running).unwrap();
    assert!(!status.running);
    assert_eq!(status.pid, Some(999999999));
}

#[test]
fn test_cleanup_stale_pid_file() {
    let daemon = Daemon::with_pid_file("/tmp/stale.pid".to_string());
    let status = daemon.status(Some("999999999".to_string()), Daemon::is_process_running(Some(false))).unwrap();
    let cleaned = Daemon::stale_pid_file(true, &status);
    assert!(cleaned);
    let running = daemon.status(Some("1".to_string()), Daemon::is_process_running(Some(true))).unwrap();
    assert!(!Daemon::stale_pid_file(true, &running));
}
