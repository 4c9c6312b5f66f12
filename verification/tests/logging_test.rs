use authsock_filter::logging::jsonl::{AgentMsgContent, Decision, LogEvent, LogEventKind, MessageDirection};
use authsock_filter::logging::{LogConfig, LogLevel};

#[test]
fn test_log_event_new() {
    let event = LogEvent::new(LogEventKind::ServerStart, 0);
    assert_eq!(event.kind, LogEventKind::ServerStart);
    assert!(event.socket.is_none());
}

#[test]
fn test_log_event_builder() {
    let event = LogEvent::new(LogEventKind::SignRequest, 0)
        .with_socket("/tmp/test.sock")
        .with_fingerprint("SHA256:abc123")
        .with_comment("test@example.com")
        .with_key_type("ssh-ed25519");
    assert_eq!(event.kind, LogEventKind::SignRequest);
    assert_eq!(event.socket, Some("/tmp/test.sock".to_string()));
    assert_eq!(event.fingerprint, Some("SHA256:abc123".to_string()));
    assert_eq!(event.comment, Some("test@example.com".to_string()));
    assert_eq!(event.key_type, Some("ssh-ed25519".to_string()));
}

#[test]
fn test_log_event_sign_response() {
    let event = LogEvent::sign_response("/tmp/test.sock", "SHA256:abc", Decision::Allowed, 0);
    assert_eq!(event.kind, LogEventKind::SignResponse);
    assert_eq!(event.decision, Some(Decision::Allowed));
}

#[test]
fn test_log_event_kind_display() {
    assert_eq!(LogEventKind::ServerStart.to_string(), "server_start");
    assert_eq!(LogEventKind::SignRequest.to_string(), "sign_request");
    assert_eq!(LogEventKind::KeyFiltered.to_string(), "key_filtered");
}

#[test]
fn test_decision_display() {
    assert_eq!(Decision::Allowed.to_string(), "allowed");
    assert_eq!(Decision::Denied.to_string(), "denied");
}

#[test]
fn test_log_config_default() {
    let config = LogConfig::default();
    assert_eq!(config.verbosity, 0);
    assert!(config.jsonl_path.is_none());
}

#[test]
fn test_log_config_verbose() {
    let config = LogConfig::new().verbose();
    assert_eq!(config.verbosity, 1);
    assert_eq!(config.min_level(), LogLevel::Debug);
}

#[test]
fn test_log_config_quiet() {
    let config = LogConfig::new().quiet();
    assert_eq!(config.verbosity, -1);
    assert_eq!(config.min_level(), LogLevel::Warn);
}

#[test]
fn test_log_config_normal() {
    let config = LogConfig::new();
    assert_eq!(config.min_level(), LogLevel::Info);
}

#[test]
fn log_config_from_flags_prefers_quiet() {
    assert_eq!(LogConfig::from_flags(true, true).verbosity, -1);
    assert_eq!(LogConfig::from_flags(true, false).verbosity, 1);
    assert_eq!(LogConfig::from_flags(false, false).verbosity, 0);
    let c = LogConfig::new().with_jsonl_path("/tmp/x.jsonl").verbose();
    assert_eq!(c.jsonl_path, Some("/tmp/x.jsonl".to_string()));
}

#[test]
fn log_event_constructors_set_their_fields() {
    let e = LogEvent::key_filtered("/s", "SHA256:f", "c", "why", 42);
    assert_eq!(e.kind, LogEventKind::KeyFiltered);
    assert_eq!(e.timestamp_ms, 42);
    assert_eq!(e.reason, Some("why".to_string()));
    let c = LogEvent::client_connect("/s", "conn-1", 7);
    assert_eq!(c.client_id, Some("conn-1".to_string()));
    assert_eq!(c.kind.to_string(), "client_connect");
    let m = LogEvent::agent_msg(MessageDirection::Request, AgentMsgContent::new(11, "REQUEST_IDENTITIES"), 1);
    assert_eq!(m.kind.as_str(), "agent_msg");
    assert_eq!(m.message.unwrap().msg_name, "REQUEST_IDENTITIES");
    let err = LogEvent::error("boom", 3);
    assert_eq!(err.error, Some("boom".to_string()));
}

#[test]
fn agent_msg_content_builders() {
    let c = AgentMsgContent::new(13, "SIGN_REQUEST").with_sign_request("SHA256:x".to_string(), 32, 2);
    assert_eq!(c.msg_type, 13);
    assert_eq!(c.data_len, Some(32));
    assert_eq!(c.flags, Some(2));
    let r = AgentMsgContent::new(14, "SIGN_RESPONSE").with_sign_response(83);
    assert_eq!(r.signature_len, Some(83));
}
