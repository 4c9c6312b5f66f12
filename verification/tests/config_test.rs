use authsock_filter::config::file::{config_search_paths, find_config_file, ConfigPath, Platform};
use authsock_filter::config::{expand_path, filter_groups, parse_duration, Config, FilterEntry, SocketConfig};
use authsock_filter::error::Error;
use authsock_filter::utils::path::expand_to_pathbuf;

#[test]
fn test_parse_duration_seconds() {
    assert_eq!(parse_duration("10s").unwrap(), 10);
    assert_eq!(parse_duration("30sec").unwrap(), 30);
    assert_eq!(parse_duration("5").unwrap(), 5);
}

#[test]
fn test_parse_duration_minutes() {
    assert_eq!(parse_duration("5m").unwrap(), 300);
    assert_eq!(parse_duration("2min").unwrap(), 120);
}

#[test]
fn test_parse_duration_hours() {
    assert_eq!(parse_duration("1h").unwrap(), 3600);
    assert_eq!(parse_duration("2hours").unwrap(), 7200);
}

#[test]
fn test_parse_duration_days() {
    assert_eq!(parse_duration("1d").unwrap(), 86400);
    assert_eq!(parse_duration("7days").unwrap(), 604800);
}

#[test]
fn test_parse_duration_invalid() {
    assert!(parse_duration("").is_err());
    assert!(parse_duration("abc").is_err());
    assert!(parse_duration("10x").is_err());
}

#[test]
fn test_expand_path_tilde() {
    let result = expand_path("~/test").unwrap();
    assert!(result.starts_with('/'));
    assert!(result.ends_with("/test"));
    assert!(!result.starts_with('~'));
}

#[test]
fn test_default_config() {
    let config = Config::default();
    assert_eq!(config.upstream, "$SSH_AUTH_SOCK");
    assert!(config.log_path.is_none());
    assert!(config.sockets.is_empty());
    assert_eq!(config.github.cache_ttl, "1h");
    assert_eq!(config.github.timeout, "10s");
}

#[test]
fn test_config_search_paths() {
    let paths = config_search_paths(None, Some("/home/user".to_string()), Platform::Linux);
    assert!(!paths.is_empty());
    for cp in &paths {
        assert!(cp.path.starts_with('/'), "Path should be absolute: {:?}", cp.path);
        assert!(!cp.description.is_empty(), "Description should not be empty");
    }
    let has_config_path = paths.iter().any(|p| p.path.contains("authsock-filter/config.toml"));
    assert!(has_config_path, "Should have config path");
}

#[test]
fn config_search_paths_linux_without_xdg() {
    let paths = config_search_paths(None, Some("/home/u".to_string()), Platform::Linux);
    let got: Vec<&str> = paths.iter().map(|p| p.path.as_str()).collect();
    assert_eq!(
        got,
        vec![
            "/home/u/.config/authsock-filter/config.toml",
            "/home/u/.authsock-filter/config.toml",
            "/home/u/.authsock-filter.toml",
            "/etc/authsock-filter/config.toml",
        ]
    );
    assert_eq!(paths[0].description, "~/.config/authsock-filter/config.toml");
}

#[test]
fn config_search_paths_with_xdg_and_macos() {
    let paths = config_search_paths(Some("/x/".to_string()), Some("/h".to_string()), Platform::MacOs);
    let got: Vec<&str> = paths.iter().map(|p| p.path.as_str()).collect();
    assert_eq!(
        got,
        vec![
            "/x/authsock-filter/config.toml",
            "/h/Library/Application Support/authsock-filter/config.toml",
            "/h/.config/authsock-filter/config.toml",
            "/h/.authsock-filter/config.toml",
            "/h/.authsock-filter.toml",
            "/etc/authsock-filter/config.toml",
        ]
    );
    assert_eq!(paths[0].description, "$XDG_CONFIG_HOME/authsock-filter/config.toml");
}

#[test]
fn config_search_paths_no_duplicate_dot_config() {
    let paths = config_search_paths(Some("/h/.config".to_string()), Some("/h".to_string()), Platform::Linux);
    let got: Vec<&str> = paths.iter().map(|p| p.path.as_str()).collect();
    assert_eq!(
        got,
        vec![
            "/h/.config/authsock-filter/config.toml",
            "/h/.authsock-filter/config.toml",
            "/h/.authsock-filter.toml",
            "/etc/authsock-filter/config.toml",
        ]
    );
}

#[test]
fn find_config_file_picks_first_existing() {
    let paths = vec![
        ConfigPath { path: "/a".to_string(), description: "a".to_string() },
        ConfigPath { path: "/b".to_string(), description: "b".to_string() },
        ConfigPath { path: "/c".to_string(), description: "c".to_string() },
    ];
    assert_eq!(find_config_file(&paths, &[false, true, true]), Some("/b".to_string()));
    assert_eq!(find_config_file(&paths, &[false, false, false]), None);
}

#[test]
fn parse_duration_error_is_config_error() {
    assert!(matches!(parse_duration("10x"), Err(Error::Config(_))));
    assert_eq!(parse_duration("+3m").unwrap(), 180);
    assert_eq!(parse_duration("2W").unwrap(), 1209600);
}

#[test]
fn expand_paths_parses_durations() {
    let mut config = Config::default();
    config.upstream = "/tmp/agent.sock".to_string();
    config.github.cache_ttl = "2h".to_string();
    config.github.timeout = "30s".to_string();
    let e = config.expand_paths().unwrap();
    assert_eq!(e.upstream, "/tmp/agent.sock");
    assert_eq!(e.github.cache_ttl, 7200);
    assert_eq!(e.github.timeout, 30);
}

#[test]
fn plain_paths_are_kept_by_expansion() {
    assert_eq!(expand_path("/run/agent.sock").unwrap(), "/run/agent.sock");
    assert_eq!(expand_path("relative/dir~x").unwrap(), "relative/dir~x");
    let mut config = Config::default();
    config.upstream = "/tmp/agent.sock".to_string();
    config.log_path = Some("/var/log/a.jsonl".to_string());
    config.sockets.push((
        "work".to_string(),
        SocketConfig {
            path: "/tmp/work.sock".to_string(),
            upstream: None,
            filters: vec![FilterEntry::Rule("comment=*@work*".to_string())],
        },
    ));
    let e = config.expand_paths().unwrap();
    assert_eq!(e.log_path, Some("/var/log/a.jsonl".to_string()));
    assert_eq!(e.sockets.len(), 1);
    assert_eq!(e.sockets[0].0, "work");
    assert_eq!(e.sockets[0].1.path, "/tmp/work.sock");
    assert_eq!(e.sockets[0].1.filters, vec![vec!["comment=*@work*".to_string()]]);
    assert_eq!(e.sockets[0].1.upstream, None);
}

#[test]
fn parse_duration_error_messages() {
    let msg = |s: &str| match parse_duration(s) {
        Err(Error::Config(m)) => m,
        other => panic!("unexpected {:?}", other),
    };
    assert_eq!(msg(""), "Empty duration string");
    assert_eq!(msg("   "), "Empty duration string");
    assert_eq!(msg("abc"), "Invalid duration number '': cannot parse integer from empty string");
    assert_eq!(msg("1.5h"), "Invalid duration number '1.5': invalid digit found in string");
    assert_eq!(msg("-5s"), "Invalid duration number '-5': invalid digit found in string");
    assert_eq!(msg("+m"), "Invalid duration number '+': invalid digit found in string");
    assert_eq!(
        msg("99999999999999999999s"),
        "Invalid duration number '99999999999999999999': number too large to fit in target type"
    );
    assert_eq!(msg(" 10x "), "Unknown duration unit 'x' in '10x'");
    assert_eq!(msg("5 parsecs"), "Unknown duration unit 'parsecs' in '5 parsecs'");
}

#[test]
fn expand_paths_reports_the_bad_duration() {
    let mut config = Config::default();
    config.upstream = "/tmp/agent.sock".to_string();
    config.github.cache_ttl = "1h".to_string();
    config.github.timeout = "10 parsecs".to_string();
    match config.expand_paths() {
        Err(Error::Config(m)) => assert_eq!(m, "Unknown duration unit 'parsecs' in '10 parsecs'"),
        other => panic!("unexpected {:?}", other.map(|e| e.upstream)),
    }
}

#[test]
fn filter_lists_and_alternatives() {
    let rule = |s: &str| FilterEntry::Rule(s.to_string());
    let all = |v: &[&str]| FilterEntry::All(v.iter().map(|s| s.to_string()).collect());
    let strings = |v: &[&str]| v.iter().map(|s| s.to_string()).collect::<Vec<String>>();
    assert!(filter_groups(&[]).is_empty());
    assert_eq!(filter_groups(&[rule("github=kawaz"), rule("type=ed25519")]), vec![strings(&["github=kawaz", "type=ed25519"])]);
    assert_eq!(filter_groups(&[all(&["github=kawaz", "type=ed25519"])]), vec![strings(&["github=kawaz", "type=ed25519"])]);
    assert_eq!(
        filter_groups(&[all(&["f1", "f2"]), rule("f3")]),
        vec![strings(&["f1", "f2"]), strings(&["f3"])]
    );
}

#[test]
fn socket_upstreams_are_expanded_too() {
    let mut config = Config::default();
    config.upstream = "/tmp/agent.sock".to_string();
    config.sockets.push((
        "op".to_string(),
        SocketConfig {
            path: "/tmp/op.sock".to_string(),
            upstream: Some("/tmp/1password.sock".to_string()),
            filters: vec![FilterEntry::All(vec!["github=kawaz".to_string()]), FilterEntry::Rule("type=rsa".to_string())],
        },
    ));
    let e = config.expand_paths().unwrap();
    assert_eq!(e.sockets[0].1.upstream, Some("/tmp/1password.sock".to_string()));
    assert_eq!(e.sockets[0].1.filters, vec![vec!["github=kawaz".to_string()], vec!["type=rsa".to_string()]]);
}

#[test]
fn config_search_paths_compare_as_paths() {
    let paths = config_search_paths(Some("/h//.config".to_string()), Some("/h".to_string()), Platform::Linux);
    let listed: Vec<String> = paths.iter().map(|p| p.path.clone()).collect();
    assert_eq!(
        listed,
        vec![
            "/h//.config/authsock-filter/config.toml",
            "/h/.authsock-filter/config.toml",
            "/h/.authsock-filter.toml",
            "/etc/authsock-filter/config.toml",
        ]
    );
}

#[test]
fn a_failed_expansion_is_a_config_error_naming_the_path() {
    let p = "$AUTHSOCK_FILTER_NO_SUCH_VARIABLE_FOR_TEST/x.sock";
    match expand_path(p) {
        Err(Error::Config(m)) => assert!(m.starts_with("Failed to expand path '$AUTHSOCK_FILTER_NO_SUCH_VARIABLE_FOR_TEST/x.sock': ")),
        other => panic!("unexpected {:?}", other),
    }
    match expand_to_pathbuf(p) {
        Err(Error::Config(m)) => assert!(m.starts_with("Failed to expand path '")),
        other => panic!("unexpected {:?}", other),
    }
    assert_eq!(expand_to_pathbuf("/plain/x.sock").unwrap(), "/plain/x.sock");
}
