use authsock_filter::cli::args::{
    completion_dir, completion_display, completion_path, expand_group_paths, keep_on_error, parse_upstream_groups_from_args, socket_completion, RunArgs, SocketSpec,
    UpstreamGroup,
};
use authsock_filter::cli::commands::config::{config_as_command, config_output, default_config_paths, example_config};
use authsock_filter::config::{Config, FilterEntry, SocketConfig};
use authsock_filter::error::Error;
use authsock_filter::cli::commands::register::{detect_service_manager, generate_systemd_unit, ServiceManager};
use authsock_filter::cli::commands::run::{
    build_cli_sockets, check_sockets_configured, cli_print_config, cli_run_config, load_configuration,
    socket_replaced, PathCompare,
};
use authsock_filter::cli::commands::service::{
    choose_executable, executable_from_version_output, generate_unit, is_shim_path, shell_quote,
    versioned_path_message, CandidateFacts, ExecutableChoice, ExplicitExecutable, LinkFacts, Relation,
};
use authsock_filter::cli::commands::status::{format_uptime, get_status, parse_pid, status_text};
use authsock_filter::cli::commands::upgrade::{
    compare_versions, extract_mise_tool_name, get_platform_asset_name, select_asset, upgrade_plan,
    version_managed_message,
};
use authsock_filter::cli::commands::{
    detect_version_manager, is_executable, is_mise_shim, is_same_binary, shim_candidates, shim_suggestions,
};
use authsock_filter::cli::exit_code::{classify_error, ExitCode};
use authsock_filter::config::file::Platform;
use std::cmp::Ordering;

fn sock(path: &str, filters: &[&str]) -> SocketSpec {
    SocketSpec { path: path.to_string(), filters: filters.iter().map(|f| f.to_string()).collect() }
}

fn strings(v: &[&str]) -> Vec<String> {
    v.iter().map(|s| s.to_string()).collect()
}

#[test]
fn test_compare_versions() {
    assert_eq!(compare_versions("0.1.0", "0.2.0"), Ordering::Less);
    assert_eq!(compare_versions("1.0.0", "0.9.9"), Ordering::Greater);
    assert_eq!(compare_versions("1.0.0", "1.0.0"), Ordering::Equal);
    assert_eq!(compare_versions("v1.0.0", "1.0.0"), Ordering::Equal);
}

#[test]
fn compare_versions_edge_cases() {
    assert_eq!(compare_versions("1.2.3-beta", "1.2.3"), Ordering::Equal);
    assert_eq!(compare_versions("1.2", "1.2.0"), Ordering::Less);
    assert_eq!(compare_versions("vv2.x.1", "2.1"), Ordering::Equal);
    assert_eq!(compare_versions("1.10.0", "1.9.0"), Ordering::Greater);
}

#[test]
fn version_manager_detection() {
    let info = detect_version_manager("/home/u/.local/share/mise/installs/github-kawaz-authsock-filter/0.1.5/bin/authsock-filter", Vec::new()).unwrap();
    assert_eq!(info.name, "mise");
    assert!(info.suggestions.is_empty());
    assert_eq!(detect_version_manager("/nix/store/abc/bin/x", Vec::new()).unwrap().name, "nix");
    assert_eq!(detect_version_manager("/opt/authsock-filter/0.1.32/bin/x", Vec::new()).unwrap().name, "unknown");
    assert_eq!(detect_version_manager("/home/u/project/target/debug/x", Vec::new()).unwrap().name, "temporary");
    assert_eq!(detect_version_manager("/home/u/.cache/x", Vec::new()).unwrap().name, "temporary");
    assert!(detect_version_manager("/usr/local/bin/authsock-filter", Vec::new()).is_none());
    assert!(is_executable(Some(0o755)));
    assert!(!is_executable(Some(0o644)));
    assert!(!is_executable(None));
}

#[test]
fn mise_tool_names() {
    assert_eq!(
        extract_mise_tool_name("/p/mise/installs/github-kawaz-authsock-filter/0.1.5/bin"),
        Some("github:kawaz/authsock-filter".to_string())
    );
    assert_eq!(extract_mise_tool_name("/p/.mise/installs/authsock/1/bin"), Some("authsock".to_string()));
    assert_eq!(extract_mise_tool_name("/p/mise/installs/noslash"), None);
    assert_eq!(extract_mise_tool_name("/usr/bin/x"), None);
}

#[test]
fn platform_asset_names() {
    assert_eq!(get_platform_asset_name("macos", "aarch64"), "authsock-filter-aarch64-apple-darwin");
    assert_eq!(get_platform_asset_name("linux", "x86_64"), "authsock-filter-x86_64-unknown-linux-gnu");
    assert_eq!(get_platform_asset_name("freebsd", "x86_64"), "authsock-filter-x86_64-freebsd");
    let names = strings(&["a.tar.gz", "authsock-filter-x86_64-unknown-linux-gnu.tar.gz"]);
    assert_eq!(select_asset(&names, "authsock-filter-x86_64-unknown-linux-gnu").unwrap(), 1);
    assert!(select_asset(&names, "authsock-filter-arm").is_err());
}

#[test]
fn upgrade_plans() {
    let p = upgrade_plan("0.1.0", "0.2.0", Ordering::Less, false);
    assert!(p.proceed && p.message.is_empty());
    let p = upgrade_plan("0.2.0", "0.2.0", Ordering::Equal, false);
    assert!(!p.proceed);
    assert_eq!(p.message, "Already at the latest version.\n");
    let p = upgrade_plan("0.3.0", "0.2.0", Ordering::Greater, true);
    assert!(p.proceed);
    assert_eq!(p.message, "Current version (0.3.0) is newer than target (0.2.0), but --force specified.\n");
    let info = detect_version_manager("/x/.asdf/installs/authsock-filter/1/bin/authsock-filter", Vec::new()).unwrap();
    let msg = version_managed_message(&info, None);
    assert!(msg.starts_with("Cannot upgrade - running from asdf version manager.\nCurrent path: /x/.asdf"));
    assert!(msg.ends_with("\nUse asdf to upgrade instead:\n  asdf install authsock-filter latest\n  asdf global authsock-filter latest\n"));
}

#[test]
fn cli_groups_and_config() {
    let args = strings(&[
        "authsock-filter", "run", "--socket", "/tmp/work.sock", "comment=*@work*", "type=ed25519",
        "--upstream", "/tmp/op.sock", "--socket=/tmp/op.sock2", "--verbose", "github=kawaz",
    ]);
    let groups = parse_upstream_groups_from_args(&args, Some("/tmp/agent.sock".to_string()));
    assert_eq!(groups.len(), 2);
    assert_eq!(groups[0].path, "/tmp/agent.sock");
    assert_eq!(groups[0].sockets[0].filters, strings(&["comment=*@work*", "type=ed25519"]));
    assert_eq!(groups[1].sockets[0].filters, strings(&["github=kawaz"]));
    let run = RunArgs { upstream: vec![], socket: vec![], print_config: false, foreground: true };
    assert_eq!(run.parse_upstream_groups(&args, Some("/tmp/agent.sock".to_string())).len(), 2);
    let c = cli_run_config(&groups).unwrap();
    assert_eq!(c.upstream, "/tmp/agent.sock");
    assert_eq!(c.github.cache_ttl, 3600);
    assert_eq!(c.sockets.len(), 2);
    assert_eq!(c.sockets[0].0, "work");
    assert!(c.sockets[0].1.upstream.is_none());
    assert_eq!(c.sockets[1].1.upstream, Some("/tmp/op.sock".to_string()));
    assert!(check_sockets_configured(&c).is_ok());
}

#[test]
fn socket_names_are_made_unique_and_paths_merged() {
    let groups = vec![
        UpstreamGroup {
            path: "/up".to_string(),
            sockets: vec![sock("/a/agent.sock", &["type=rsa"]), sock("/b/agent.sock", &[]), sock("/c/agent.sock", &[])],
        },
        UpstreamGroup { path: "/up".to_string(), sockets: vec![sock("/a/agent.sock", &["type=ed25519"])] },
    ];
    let s = build_cli_sockets(&groups, PathCompare::AsText);
    let names: Vec<&str> = s.iter().map(|e| e.0.as_str()).collect();
    assert_eq!(names, vec!["agent", "agent-2", "agent-3"]);
    assert_eq!(s[0].1.filters, vec![strings(&["type=rsa"]), strings(&["type=ed25519"])]);
    assert!(s[1].1.filters.is_empty());
    let printed = cli_print_config(&groups).unwrap();
    assert_eq!(printed.github.cache_ttl, "1h");
    assert!(cli_print_config(&[]).is_err());
    assert!(cli_run_config(&[]).is_none());
    assert!(load_configuration(&[], None).is_err());
}

#[test]
fn replaced_sockets() {
    assert!(socket_replaced(Some(1), Some(2)));
    assert!(socket_replaced(Some(1), None));
    assert!(!socket_replaced(Some(1), Some(1)));
    assert!(!socket_replaced(None, None));
}

#[test]
fn socket_argument_completion() {
    let c = socket_completion("type=e");
    assert_eq!(c.candidates, vec![("type=ed25519".to_string(), "ed25519 keys".to_string()), ("type=ecdsa".to_string(), "ecdsa keys".to_string())]);
    let c = socket_completion("-type=r");
    assert_eq!(c.candidates, vec![("-type=rsa".to_string(), "Exclude rsa keys".to_string())]);
    let c = socket_completion("keyfile=~/.s");
    assert_eq!(c.paths, Some(("keyfile=".to_string(), "~/.s".to_string())));
    let c = socket_completion("-co");
    assert_eq!(c.candidates.len(), 1);
    assert_eq!(c.candidates[0].0, "not-comment=");
    assert_eq!(socket_completion("").candidates.len(), 12);
    let empty: Vec<String> = socket_completion("").candidates.into_iter().map(|c| c.0).collect();
    assert_eq!(
        empty,
        vec![
            "fingerprint=", "comment=", "github=", "type=", "pubkey=", "keyfile=", "not-fingerprint=", "not-comment=",
            "not-github=", "not-type=", "not-pubkey=", "not-keyfile=",
        ]
    );
    let c = socket_completion("not-type=d");
    assert_eq!(c.candidates, vec![("not-type=dsa".to_string(), "Exclude dsa keys".to_string())]);
    let c = socket_completion("not-keyfile=/x");
    assert_eq!(c.paths, Some(("not-keyfile=".to_string(), "/x".to_string())));
    let c = socket_completion("not-gi");
    assert_eq!(c.candidates[0].0, "not-github=");
    let c = socket_completion("gi");
    assert_eq!(c.candidates[0].0, "github=");
    let c = socket_completion("zzz");
    assert!(c.candidates.is_empty());
    assert_eq!(c.paths, Some((String::new(), "zzz".to_string())));
    assert_eq!(completion_path("~/x", Some("/home/u".to_string())), "/home/u/x");
    assert_eq!(completion_path("~", Some("/home/u".to_string())), "/home/u/");
    assert_eq!(
        completion_display("~/x", Some("/home/u".to_string()), "x", "xy", "/home/u/xy", true),
        Some("~/xy/".to_string())
    );
    assert_eq!(completion_display("/t/", None, "a", "b", "/t/b", false), None);
}

#[test]
fn executable_choice() {
    let r = choose_executable(Some(ExplicitExecutable { path: "bin/x".to_string(), exists: true }), Some("/work".to_string()), None, None, false).unwrap();
    assert!(matches!(r, ExecutableChoice::Use(ref p) if p == "/work/bin/x"));
    assert!(choose_executable(Some(ExplicitExecutable { path: "/nope".to_string(), exists: false }), None, None, None, false).is_err());
    let r = choose_executable(None, None, Some(("/usr/local/bin/authsock-filter".to_string(), true)), Some("/x".to_string()), false).unwrap();
    assert!(matches!(r, ExecutableChoice::Use(ref p) if p == "/usr/local/bin/authsock-filter"));
    let r = choose_executable(None, None, None, Some("/h/.mise/installs/a/1/bin/a".to_string()), false).unwrap();
    assert!(matches!(r, ExecutableChoice::Refuse { ref manager, .. } if manager == "mise"));
    let r = choose_executable(None, None, None, Some("/h/.mise/installs/a/1/bin/a".to_string()), true).unwrap();
    assert!(matches!(r, ExecutableChoice::UseVersioned(_)));
}

#[test]
fn versioned_message_lists_candidates() {
    let current = "/h/.local/share/mise/installs/a/1/bin/authsock-filter";
    let cands = vec![
        CandidateFacts { path: current.to_string(), shim_target: None, link: LinkFacts::Regular(Relation::Different) },
        CandidateFacts {
            path: "/h/.local/share/mise/shims/authsock-filter".to_string(),
            shim_target: Some((current.to_string(), Relation::SameBinary)),
            link: LinkFacts::Regular(Relation::Different),
        },
    ];
    let msg = versioned_path_message("mise", current, &cands);
    assert!(msg.starts_with("Executable is under mise version manager: "));
    assert!(msg.contains("  1. /h/.local/share/mise/installs/a/1/bin/authsock-filter [\x1b[32mcurrent\x1b[0m, \x1b[31mversioned-path\x1b[0m]\n"));
    assert!(msg.contains("\x1b[32m  2. /h/.local/share/mise/shims/authsock-filter [\x1b[32mshim:\x1b[0m"));
    assert!(msg.ends_with("/h/.local/share/mise/shims/authsock-filter service register --executable /h/.local/share/mise/shims/authsock-filter\n"));
    assert!(is_shim_path("/h/.asdf/shims/x"));
    assert_eq!(executable_from_version_output("authsock-filter 0.1\n  Executable: /usr/bin/a \n"), Some("/usr/bin/a".to_string()));
}

#[test]
fn service_files() {
    assert_eq!(shell_quote("/usr/bin/a"), "/usr/bin/a");
    assert_eq!(shell_quote("/My Apps/a\"b"), "\"/My Apps/a\\\"b\"");
    let unit = generate_unit("n", "/usr/bin/a b", "/c.toml");
    assert!(unit.contains("ExecStart=\"/usr/bin/a b\" run --config /c.toml\n"));
    let specs = vec![sock("/tmp/w.sock", &["type=ed25519"])];
    let u = generate_systemd_unit("n", "/bin/a", Some("/tmp/up".to_string()), &specs);
    assert!(u.contains("ExecStart=/bin/a run --upstream /tmp/up --socket /tmp/w.sock --filter type=ed25519\n"));
    assert_eq!(detect_service_manager(Platform::MacOs, false).unwrap(), ServiceManager::Launchd);
    assert!(detect_service_manager(Platform::Linux, false).is_err());
}

#[test]
fn status_formatting() {
    assert_eq!(format_uptime(5), "5s");
    assert_eq!(format_uptime(65), "1m 5s");
    assert_eq!(format_uptime(3661), "1h 1m 1s");
    assert_eq!(format_uptime(90061), "1d 1h 1m 1s");
    assert_eq!(parse_pid(" 42\n"), Some(42));
    assert_eq!(parse_pid("x"), None);
    let s = get_status("/run/a.pid", Some("42".to_string()), true, Some(65));
    assert!(s.running);
    let text = status_text(&s);
    assert!(text.contains("Status:   RUNNING\nPID:      42\nUptime:   1m 5s\n"));
    let stale = get_status("/run/a.pid", Some("42".to_string()), false, Some(65));
    assert!(status_text(&stale).contains("Note:     Stale PID file exists\n"));
}

#[test]
fn config_command_output() {
    let paths = default_config_paths(Some("/c".to_string()), None);
    assert_eq!(paths, strings(&["/c/authsock-filter/config.toml", "/c/authsock-filter.toml", "/etc/authsock-filter/config.toml", "/etc/authsock-filter.toml"]));
    let o = config_output(false, false, true, None, &paths).unwrap();
    assert!(o.failed);
    assert!(o.stderr.starts_with("No configuration file found.\nSearched locations:\n  - /c/authsock-filter/config.toml\n"));
    let o = config_output(true, false, false, None, &paths).unwrap();
    assert_eq!(o.stdout, example_config());
    let o = config_output(false, false, true, Some(("/c.toml".to_string(), "a = [".to_string())), &paths).unwrap();
    assert!(o.failed);
    let o = config_output(false, true, false, Some(("/c.toml".to_string(), "a = 1\n".to_string())), &paths).unwrap();
    assert!(o.stdout.contains("\"a\": 1"));
}

#[test]
fn error_classification() {
    assert_eq!(classify_error("Failed to load CONFIG file"), ExitCode::ConfigError);
    assert_eq!(classify_error("Upstream socket does not exist"), ExitCode::UpstreamError);
    assert_eq!(classify_error("Failed to bind"), ExitCode::SocketError);
    assert_eq!(classify_error("boom"), ExitCode::GeneralError);
    assert_eq!(u8::from(ExitCode::UpstreamError), 4);
}

#[test]
fn completion_directories() {
    assert_eq!(completion_dir("/home/u/.ss", false), ("/home/u".to_string(), ".ss".to_string()));
    assert_eq!(completion_dir("/home/u/", true), ("/home/u/".to_string(), String::new()));
    assert_eq!(completion_dir("/", false), (".".to_string(), String::new()));
}

#[test]
fn paths_compared_as_paths_merge() {
    let groups = vec![UpstreamGroup {
        path: "/up".to_string(),
        sockets: vec![sock("/tmp/x.sock", &["type=rsa"]), sock("/tmp//x.sock", &["type=dsa"])],
    }];
    let run = cli_run_config(&groups).unwrap();
    assert_eq!(run.sockets.len(), 1);
    assert_eq!(run.sockets[0].1.filters.len(), 2);
    let printed = cli_print_config(&groups).unwrap();
    assert_eq!(printed.sockets.len(), 2);
    assert_eq!(printed.sockets[1].0, "x-2");
}

#[test]
fn shim_candidates_in_order() {
    let c = shim_candidates(Some("/home/u".to_string()), Some("/home/u/.local/share".to_string()));
    assert_eq!(
        c,
        vec![
            "/home/u/.local/share/mise/shims/authsock-filter",
            "/home/u/.local/share/mise/shims/authsock-filter",
            "/home/u/.asdf/shims/authsock-filter",
            "/home/u/.nix-profile/bin/authsock-filter",
            "/run/current-system/sw/bin/authsock-filter",
            "/home/u/.local/bin/authsock-filter",
            "/opt/homebrew/bin/authsock-filter",
            "/usr/local/bin/authsock-filter",
        ]
    );
    let without_home = shim_candidates(None, None);
    assert_eq!(
        without_home,
        vec![
            "/run/current-system/sw/bin/authsock-filter",
            "/opt/homebrew/bin/authsock-filter",
            "/usr/local/bin/authsock-filter",
        ]
    );
}

#[test]
fn same_binary_by_canonical_path_or_mise() {
    let cur = Some("/real/bin".to_string());
    assert!(is_same_binary("/usr/local/bin/x", Some("/real/bin".to_string()), cur.clone(), None));
    assert!(!is_same_binary("/usr/local/bin/x", Some("/other".to_string()), cur.clone(), Some("/real/bin".to_string())));
    assert!(is_mise_shim("/h/.local/share/mise/shims/x"));
    assert!(is_same_binary("/h/.local/share/mise/shims/x", Some("/usr/bin/mise".to_string()), cur.clone(), Some("/real/bin".to_string())));
    assert!(!is_same_binary("/h/.local/share/mise/shims/x", None, None, Some("/real/bin".to_string())));
}

#[test]
fn suggestions_keep_usable_candidates() {
    let s = shim_suggestions(vec![
        ("/a".to_string(), false, true),
        ("/b".to_string(), true, false),
        ("/c".to_string(), true, true),
    ]);
    assert_eq!(s, vec![("/b".to_string(), false), ("/c".to_string(), true)]);
    let info = detect_version_manager("/x/.asdf/installs/authsock-filter/1/bin/authsock-filter", s.clone()).unwrap();
    assert_eq!(info.suggestions, s);
}

#[test]
fn version_comparison_is_transitive_on_examples() {
    assert_eq!(compare_versions("1.2", "1.3"), Ordering::Less);
    assert_eq!(compare_versions("1.3", "v2.0"), Ordering::Less);
    assert_eq!(compare_versions("1.2", "v2.0"), Ordering::Less);
    assert_eq!(compare_versions("1.2.0", "1.2"), Ordering::Greater);
    assert_eq!(compare_versions("1.2", "1.2.0-rc1"), Ordering::Less);
}

#[test]
fn config_command_reads_back_as_the_same_sockets() {
    let mut config = Config::default();
    config.upstream = "/tmp/agent.sock".to_string();
    config.sockets.push((
        "work".to_string(),
        SocketConfig {
            path: "/tmp/work.sock".to_string(),
            upstream: None,
            filters: vec![
                FilterEntry::Rule("comment=*@work*".to_string()),
                FilterEntry::Rule("type=ed25519".to_string()),
            ],
        },
    ));
    config.sockets.push(("all".to_string(), SocketConfig { path: "/tmp/all.sock".to_string(), upstream: None, filters: vec![] }));
    let args = config_as_command(&config);
    assert_eq!(
        args,
        vec![
            "authsock-filter", "run", "--upstream", "/tmp/agent.sock", "--socket", "/tmp/work.sock", "comment=*@work*",
            "type=ed25519", "--socket", "/tmp/all.sock",
        ]
    );
    let groups = parse_upstream_groups_from_args(&args, Some("/other.sock".to_string()));
    assert_eq!(groups.len(), 1);
    assert_eq!(groups[0].path, "/tmp/agent.sock");
    assert_eq!(groups[0].sockets.len(), 2);
    assert_eq!(groups[0].sockets[0].path, "/tmp/work.sock");
    assert_eq!(groups[0].sockets[0].filters, vec!["comment=*@work*".to_string(), "type=ed25519".to_string()]);
    assert_eq!(groups[0].sockets[1].path, "/tmp/all.sock");
    assert!(groups[0].sockets[1].filters.is_empty());
}

#[test]
fn config_command_switches_upstream_and_repeats_sockets_for_groups() {
    let mut config = Config::default();
    config.upstream = "/tmp/agent.sock".to_string();
    config.sockets.push((
        "op".to_string(),
        SocketConfig {
            path: "/tmp/op.sock".to_string(),
            upstream: Some("/tmp/1p.sock".to_string()),
            filters: vec![FilterEntry::All(vec!["github=kawaz".to_string(), "type=ed25519".to_string()]), FilterEntry::Rule("comment=x".to_string())],
        },
    ));
    config.sockets.push((
        "plain".to_string(),
        SocketConfig { path: "/tmp/plain.sock".to_string(), upstream: None, filters: vec![] },
    ));
    let args = config_as_command(&config);
    assert_eq!(
        args,
        vec![
            "authsock-filter", "run", "--upstream", "/tmp/agent.sock", "--upstream", "/tmp/1p.sock", "--socket",
            "/tmp/op.sock", "github=kawaz", "type=ed25519", "--socket", "/tmp/op.sock", "comment=x", "--upstream",
            "/tmp/agent.sock", "--socket", "/tmp/plain.sock",
        ]
    );
    let groups = parse_upstream_groups_from_args(&args, None);
    assert_eq!(groups.len(), 2);
    assert_eq!(groups[0].path, "/tmp/1p.sock");
    assert_eq!(groups[0].sockets.len(), 2);
    assert_eq!(groups[0].sockets[1].filters, vec!["comment=x".to_string()]);
    assert_eq!(groups[1].path, "/tmp/agent.sock");
    assert_eq!(groups[1].sockets[0].path, "/tmp/plain.sock");
}

#[test]
fn a_failed_expansion_keeps_the_path() {
    assert_eq!(keep_on_error("~/a.sock", Ok("/home/u/a.sock".to_string())), "/home/u/a.sock");
    assert_eq!(keep_on_error("$NOPE/a.sock", Err(Error::Config("unset".to_string()))), "$NOPE/a.sock");
}

#[test]
fn group_paths_take_their_expansions() {
    let groups = vec![
        UpstreamGroup {
            path: "/run/agent.sock".to_string(),
            sockets: vec![SocketSpec { path: "~/a.sock".to_string(), filters: vec!["type=ed25519".to_string()] }],
        },
        UpstreamGroup {
            path: "~/other.sock".to_string(),
            sockets: vec![
                SocketSpec { path: "$X/b.sock".to_string(), filters: vec![] },
                SocketSpec { path: "/c.sock".to_string(), filters: vec![] },
            ],
        },
    ];
    let r = expand_group_paths(
        groups,
        vec![true, false],
        vec![Ok("ignored".to_string()), Ok("/home/u/other.sock".to_string())],
        vec![
            vec![Ok("/home/u/a.sock".to_string())],
            vec![Err(Error::Config("X unset".to_string())), Ok("/c.sock".to_string())],
        ],
    );
    assert_eq!(r.len(), 2);
    assert_eq!(r[0].path, "/run/agent.sock");
    assert_eq!(r[0].sockets[0].path, "/home/u/a.sock");
    assert_eq!(r[0].sockets[0].filters, vec!["type=ed25519".to_string()]);
    assert_eq!(r[1].path, "/home/u/other.sock");
    assert_eq!(r[1].sockets[0].path, "$X/b.sock");
    assert_eq!(r[1].sockets[1].path, "/c.sock");
}
