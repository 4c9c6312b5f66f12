//! The values that JSON-lines log records carry.
//!
//! The records themselves are serialized by the application; this module
//! holds the kinds, decisions and message summaries they are built from.

use vstd::prelude::*;

verus! {

/// Log event kinds.
#[derive(Debug, Clone, Copy, PartialEq, Eq, Structural)]
pub enum LogEventKind {
    /// Server started.
    ServerStart,
    /// Server stopped.
    ServerStop,
    /// Client connected.
    ClientConnect,
    /// Client disconnected.
    ClientDisconnect,
    /// Identity list requested.
    IdentitiesRequest,
    /// Identity list response.
    IdentitiesResponse,
    /// Sign request.
    SignRequest,
    /// Sign response (allowed or denied).
    SignResponse,
    /// Key filtered from list.
    KeyFiltered,
    /// Key allowed in list.
    KeyAllowed,
    /// Configuration loaded.
    ConfigLoad,
    /// Configuration reload.
    ConfigReload,
    /// Error occurred.
    Error,
    /// SSH agent protocol message.
    AgentMsg,
}

/// The snake_case name of an event kind, as logs write it.
pub open spec fn spec_kind_name(k: LogEventKind) -> Seq<char> {
    match k {
        LogEventKind::ServerStart => "server_start"@,
        LogEventKind::ServerStop => "server_stop"@,
        LogEventKind::ClientConnect => "client_connect"@,
        LogEventKind::ClientDisconnect => "client_disconnect"@,
        LogEventKind::IdentitiesRequest => "identities_request"@,
        LogEventKind::IdentitiesResponse => "identities_response"@,
        LogEventKind::SignRequest => "sign_request"@,
        LogEventKind::SignResponse => "sign_response"@,
        LogEventKind::KeyFiltered => "key_filtered"@,
        LogEventKind::KeyAllowed => "key_allowed"@,
        LogEventKind::ConfigLoad => "config_load"@,
        LogEventKind::ConfigReload => "config_reload"@,
        LogEventKind::Error => "error"@,
        LogEventKind::AgentMsg => "agent_msg"@,
    }
}

impl LogEventKind {
    /// The snake_case name of this kind (what `Display` prints).
    pub fn as_str(&self) -> (s: &'static str)
        ensures
            s@ == spec_kind_name(*self),
    {
        match self {
            LogEventKind::ServerStart => "server_start",
            LogEventKind::ServerStop => "server_stop",
            LogEventKind::ClientConnect => "client_connect",
            LogEventKind::ClientDisconnect => "client_disconnect",
            LogEventKind::IdentitiesRequest => "identities_request",
            LogEventKind::IdentitiesResponse => "identities_response",
            LogEventKind::SignRequest => "sign_request",
            LogEventKind::SignResponse => "sign_response",
            LogEventKind::KeyFiltered => "key_filtered",
            LogEventKind::KeyAllowed => "key_allowed",
            LogEventKind::ConfigLoad => "config_load",
            LogEventKind::ConfigReload => "config_reload",
            LogEventKind::Error => "error",
            LogEventKind::AgentMsg => "agent_msg",
        }
    }

    /// The snake_case name of this kind, as an owned string.
    pub fn to_string(&self) -> (s: String)
        ensures
            s@ == spec_kind_name(*self),
    {
        self.as_str().to_string()
    }
}

/// Decision result for sign requests.
#[derive(Debug, Clone, Copy, PartialEq, Eq, Structural)]
pub enum Decision {
    /// Request was allowed.
    Allowed,
    /// Request was denied.
    Denied,
}

impl Decision {
    /// `allowed` or `denied` (what `Display` prints).
    pub fn as_str(&self) -> (s: &'static str)
        ensures
            s@ == (match *self {
                Decision::Allowed => "allowed"@,
                Decision::Denied => "denied"@,
            }),
    {
        match self {
            Decision::Allowed => "allowed",
            Decision::Denied => "denied",
        }
    }

    /// `allowed` or `denied`, as an owned string.
    pub fn to_string(&self) -> (s: String)
        ensures
            s@ == (match *self {
                Decision::Allowed => "allowed"@,
                Decision::Denied => "denied"@,
            }),
    {
        self.as_str().to_string()
    }
}

/// Message direction for agent protocol logging.
#[derive(Debug, Clone, Copy, PartialEq, Eq, Structural)]
pub enum MessageDirection {
    /// Request from client to agent.
    Request,
    /// Response from agent to client.
    Response,
}

/// Identity information for logging.
#[derive(Debug)]
pub struct IdentityInfo {
    /// SSH key fingerprint.
    pub fingerprint: String,
    /// Key comment.
    pub comment: String,
    /// Key type (e.g. `ssh-ed25519`).
    pub key_type: String,
}

/// Summary of an SSH agent message for logging.
#[derive(Debug)]
pub struct AgentMsgContent {
    /// Message type number.
    pub msg_type: u8,
    /// Message type name.
    pub msg_name: String,
    /// Identities (for an identities answer).
    pub identities: Option<Vec<IdentityInfo>>,
    /// Key fingerprint (for a sign request).
    pub fingerprint: Option<String>,
    /// Length of the data to sign (for a sign request).
    pub data_len: Option<u32>,
    /// Signature flags (for a sign request).
    pub flags: Option<u32>,
    /// Signature length (for a sign response).
    pub signature_len: Option<u32>,
}

impl AgentMsgContent {
    /// Content with just the type number and name.
    pub fn new(msg_type: u8, msg_name: &str) -> (c: AgentMsgContent)
        ensures
            c.msg_type == msg_type,
            c.msg_name@ == msg_name@,
            c.identities is None,
            c.fingerprint is None,
            c.data_len is None,
            c.flags is None,
            c.signature_len is None,
    {
        AgentMsgContent {
            msg_type,
            msg_name: msg_name.to_string(),
            identities: None,
            fingerprint: None,
            data_len: None,
            flags: None,
            signature_len: None,
        }
    }

    /// Sets the identities-answer fields.
    pub fn with_identities(self, identities: Vec<IdentityInfo>) -> (c: AgentMsgContent)
        ensures
            c == (AgentMsgContent { identities: Some(identities), ..self }),
    {
        AgentMsgContent { identities: Some(identities), ..self }
    }

    /// Sets the sign-request fields.
    pub fn with_sign_request(self, fingerprint: String, data_len: u32, flags: u32) -> (c:
        AgentMsgContent)
        ensures
            c == (AgentMsgContent {
                fingerprint: Some(fingerprint),
                data_len: Some(data_len),
                flags: Some(flags),
                ..self
            }),
    {
        AgentMsgContent {
            fingerprint: Some(fingerprint),
            data_len: Some(data_len),
            flags: Some(flags),
            ..self
        }
    }

    /// Sets the sign-response field.
    pub fn with_sign_response(self, signature_len: u32) -> (c: AgentMsgContent)
        ensures
            c == (AgentMsgContent { signature_len: Some(signature_len), ..self }),
    {
        AgentMsgContent { signature_len: Some(signature_len), ..self }
    }
}


/// A structured log event.
#[derive(Debug)]
pub struct LogEvent {
    /// When it happened, in milliseconds since the Unix epoch.
    pub timestamp_ms: i64,
    /// Kind of event.
    pub kind: LogEventKind,
    /// Socket name (the filtered socket path).
    pub socket: Option<String>,
    /// Client identifier.
    pub client_id: Option<String>,
    /// SSH key fingerprint.
    pub fingerprint: Option<String>,
    /// SSH key comment.
    pub comment: Option<String>,
    /// SSH key type (such as `ssh-ed25519`).
    pub key_type: Option<String>,
    /// Decision for sign requests.
    pub decision: Option<Decision>,
    /// Reason for the decision or action.
    pub reason: Option<String>,
    /// Filter rule that matched.
    pub matched_rule: Option<String>,
    /// Number of keys (for identities answers).
    pub key_count: Option<u32>,
    /// Number of keys filtered out.
    pub filtered_count: Option<u32>,
    /// Error message.
    pub error: Option<String>,
    /// Additional context, as JSON text.
    pub context: Option<String>,
    /// Message direction (for agent messages).
    pub direction: Option<MessageDirection>,
    /// Parsed message content (for agent messages).
    pub message: Option<AgentMsgContent>,
    /// Raw message data in base64 (for agent messages).
    pub message_raw: Option<String>,
    /// Upstream socket path.
    pub upstream: Option<String>,
}

impl LogEvent {
    /// An event of the given kind at the given time, with no other field
    /// set.
    pub fn new(kind: LogEventKind, timestamp_ms: i64) -> (e: LogEvent)
        ensures
            e.kind == kind,
            e.timestamp_ms == timestamp_ms,
            e.socket is None,
            e.client_id is None,
            e.fingerprint is None,
            e.comment is None,
            e.key_type is None,
            e.decision is None,
            e.reason is None,
            e.matched_rule is None,
            e.key_count is None,
            e.filtered_count is None,
            e.error is None,
            e.context is None,
            e.direction is None,
            e.message is None,
            e.message_raw is None,
            e.upstream is None,
    {
        LogEvent {
            timestamp_ms,
            kind,
            socket: None,
            client_id: None,
            fingerprint: None,
            comment: None,
            key_type: None,
            decision: None,
            reason: None,
            matched_rule: None,
            key_count: None,
            filtered_count: None,
            error: None,
            context: None,
            direction: None,
            message: None,
            message_raw: None,
            upstream: None,
        }
    }

    /// Sets the field: socket name (the filtered socket path).
    pub fn with_socket(self, socket: &str) -> (e: LogEvent)
        ensures
            e.socket matches Some(v) && v@ == socket@,
            e == (LogEvent { socket: e.socket, ..self }),
    {
        LogEvent { socket: Some(socket.to_string()), ..self }
    }

    /// Sets the field: client identifier.
    pub fn with_client_id(self, client_id: &str) -> (e: LogEvent)
        ensures
            e.client_id matches Some(v) && v@ == client_id@,
            e == (LogEvent { client_id: e.client_id, ..self }),
    {
        LogEvent { client_id: Some(client_id.to_string()), ..self }
    }

    /// Sets the field: sSH key fingerprint.
    pub fn with_fingerprint(self, fingerprint: &str) -> (e: LogEvent)
        ensures
            e.fingerprint matches Some(v) && v@ == fingerprint@,
            e == (LogEvent { fingerprint: e.fingerprint, ..self }),
    {
        LogEvent { fingerprint: Some(fingerprint.to_string()), ..self }
    }

    /// Sets the field: sSH key comment.
    pub fn with_comment(self, comment: &str) -> (e: LogEvent)
        ensures
            e.comment matches Some(v) && v@ == comment@,
            e == (LogEvent { comment: e.comment, ..self }),
    {
        LogEvent { comment: Some(comment.to_string()), ..self }
    }

    /// Sets the field: sSH key type (such as `ssh-ed25519`).
    pub fn with_key_type(self, key_type: &str) -> (e: LogEvent)
        ensures
            e.key_type matches Some(v) && v@ == key_type@,
            e == (LogEvent { key_type: e.key_type, ..self }),
    {
        LogEvent { key_type: Some(key_type.to_string()), ..self }
    }

    /// Sets the field: decision for sign requests.
    pub fn with_decision(self, decision: Decision) -> (e: LogEvent)
        ensures
            e.decision == Some(decision),
            e == (LogEvent { decision: e.decision, ..self }),
    {
        LogEvent { decision: Some(decision), ..self }
    }

    /// Sets the field: reason for the decision or action.
    pub fn with_reason(self, reason: &str) -> (e: LogEvent)
        ensures
            e.reason matches Some(v) && v@ == reason@,
            e == (LogEvent { reason: e.reason, ..self }),
    {
        LogEvent { reason: Some(reason.to_string()), ..self }
    }

    /// Sets the field: filter rule that matched.
    pub fn with_matched_rule(self, matched_rule: &str) -> (e: LogEvent)
        ensures
            e.matched_rule matches Some(v) && v@ == matched_rule@,
            e == (LogEvent { matched_rule: e.matched_rule, ..self }),
    {
        LogEvent { matched_rule: Some(matched_rule.to_string()), ..self }
    }

    /// Sets the field: number of keys (for identities answers).
    pub fn with_key_count(self, key_count: u32) -> (e: LogEvent)
        ensures
            e.key_count == Some(key_count),
            e == (LogEvent { key_count: e.key_count, ..self }),
    {
        LogEvent { key_count: Some(key_count), ..self }
    }

    /// Sets the field: number of keys filtered out.
    pub fn with_filtered_count(self, filtered_count: u32) -> (e: LogEvent)
        ensures
            e.filtered_count == Some(filtered_count),
            e == (LogEvent { filtered_count: e.filtered_count, ..self }),
    {
        LogEvent { filtered_count: Some(filtered_count), ..self }
    }

    /// Sets the field: error message.
    pub fn with_error(self, error: &str) -> (e: LogEvent)
        ensures
            e.error matches Some(v) && v@ == error@,
            e == (LogEvent { error: e.error, ..self }),
    {
        LogEvent { error: Some(error.to_string()), ..self }
    }

    /// Sets the field: additional context, as JSON text.
    pub fn with_context(self, context: &str) -> (e: LogEvent)
        ensures
            e.context matches Some(v) && v@ == context@,
            e == (LogEvent { context: e.context, ..self }),
    {
        LogEvent { context: Some(context.to_string()), ..self }
    }

    /// Sets the field: message direction (for agent messages).
    pub fn with_direction(self, direction: MessageDirection) -> (e: LogEvent)
        ensures
            e.direction == Some(direction),
            e == (LogEvent { direction: e.direction, ..self }),
    {
        LogEvent { direction: Some(direction), ..self }
    }

    /// Sets the field: parsed message content (for agent messages).
    pub fn with_message(self, message: AgentMsgContent) -> (e: LogEvent)
        ensures
            e.message == Some(message),
            e == (LogEvent { message: e.message, ..self }),
    {
        LogEvent { message: Some(message), ..self }
    }

    /// Sets the field: raw message data in base64 (for agent messages).
    pub fn with_message_raw(self, message_raw: &str) -> (e: LogEvent)
        ensures
            e.message_raw matches Some(v) && v@ == message_raw@,
            e == (LogEvent { message_raw: e.message_raw, ..self }),
    {
        LogEvent { message_raw: Some(message_raw.to_string()), ..self }
    }

    /// Sets the field: upstream socket path.
    pub fn with_upstream(self, upstream: &str) -> (e: LogEvent)
        ensures
            e.upstream matches Some(v) && v@ == upstream@,
            e == (LogEvent { upstream: e.upstream, ..self }),
    {
        LogEvent { upstream: Some(upstream.to_string()), ..self }
    }

    /// A server start event for a socket.
    pub fn server_start(socket_path: &str, timestamp_ms: i64) -> (e: LogEvent)
        ensures
            e.kind == LogEventKind::ServerStart,
            e.timestamp_ms == timestamp_ms,
            e.socket matches Some(s) && s@ == socket_path@,
            e.client_id is None && e.fingerprint is None && e.decision is None && e.error is None,
    {
        LogEvent::new(LogEventKind::ServerStart, timestamp_ms).with_socket(socket_path)
    }

    /// A server stop event for a socket.
    pub fn server_stop(socket_path: &str, timestamp_ms: i64) -> (e: LogEvent)
        ensures
            e.kind == LogEventKind::ServerStop,
            e.timestamp_ms == timestamp_ms,
            e.socket matches Some(s) && s@ == socket_path@,
            e.client_id is None && e.fingerprint is None && e.decision is None && e.error is None,
    {
        LogEvent::new(LogEventKind::ServerStop, timestamp_ms).with_socket(socket_path)
    }

    /// A client connect event.
    pub fn client_connect(socket_path: &str, client_id: &str, timestamp_ms: i64) -> (e: LogEvent)
        ensures
            e.kind == LogEventKind::ClientConnect,
            e.timestamp_ms == timestamp_ms,
            e.socket matches Some(s) && s@ == socket_path@,
            e.client_id matches Some(c) && c@ == client_id@,
            e.fingerprint is None && e.decision is None && e.error is None,
    {
        LogEvent::new(LogEventKind::ClientConnect, timestamp_ms).with_socket(socket_path).with_client_id(client_id)
    }

    /// A client disconnect event.
    pub fn client_disconnect(socket_path: &str, client_id: &str, timestamp_ms: i64) -> (e: LogEvent)
        ensures
            e.kind == LogEventKind::ClientDisconnect,
            e.timestamp_ms == timestamp_ms,
            e.socket matches Some(s) && s@ == socket_path@,
            e.client_id matches Some(c) && c@ == client_id@,
            e.fingerprint is None && e.decision is None && e.error is None,
    {
        LogEvent::new(LogEventKind::ClientDisconnect, timestamp_ms).with_socket(socket_path).with_client_id(
            client_id,
        )
    }

    /// A sign request event.
    pub fn sign_request(socket_path: &str, fingerprint: &str, comment: &str, timestamp_ms: i64) -> (e: LogEvent)
        ensures
            e.kind == LogEventKind::SignRequest,
            e.timestamp_ms == timestamp_ms,
            e.socket matches Some(s) && s@ == socket_path@,
            e.fingerprint matches Some(f) && f@ == fingerprint@,
            e.comment matches Some(c) && c@ == comment@,
            e.decision is None && e.error is None,
    {
        LogEvent::new(LogEventKind::SignRequest, timestamp_ms).with_socket(socket_path).with_fingerprint(
            fingerprint,
        ).with_comment(comment)
    }

    /// A sign response event with its decision.
    pub fn sign_response(socket_path: &str, fingerprint: &str, decision: Decision, timestamp_ms: i64) -> (e: LogEvent)
        ensures
            e.kind == LogEventKind::SignResponse,
            e.timestamp_ms == timestamp_ms,
            e.socket matches Some(s) && s@ == socket_path@,
            e.fingerprint matches Some(f) && f@ == fingerprint@,
            e.decision == Some(decision),
            e.comment is None && e.error is None,
    {
        LogEvent::new(LogEventKind::SignResponse, timestamp_ms).with_socket(socket_path).with_fingerprint(
            fingerprint,
        ).with_decision(decision)
    }

    /// A key filtered event with the reason.
    pub fn key_filtered(socket_path: &str, fingerprint: &str, comment: &str, reason: &str, timestamp_ms: i64) -> (e:
        LogEvent)
        ensures
            e.kind == LogEventKind::KeyFiltered,
            e.timestamp_ms == timestamp_ms,
            e.socket matches Some(s) && s@ == socket_path@,
            e.fingerprint matches Some(f) && f@ == fingerprint@,
            e.comment matches Some(c) && c@ == comment@,
            e.reason matches Some(r) && r@ == reason@,
            e.decision is None && e.error is None,
    {
        LogEvent::new(LogEventKind::KeyFiltered, timestamp_ms).with_socket(socket_path).with_fingerprint(
            fingerprint,
        ).with_comment(comment).with_reason(reason)
    }

    /// A key allowed event.
    pub fn key_allowed(socket_path: &str, fingerprint: &str, comment: &str, timestamp_ms: i64) -> (e: LogEvent)
        ensures
            e.kind == LogEventKind::KeyAllowed,
            e.timestamp_ms == timestamp_ms,
            e.socket matches Some(s) && s@ == socket_path@,
            e.fingerprint matches Some(f) && f@ == fingerprint@,
            e.comment matches Some(c) && c@ == comment@,
            e.reason is None && e.decision is None && e.error is None,
    {
        LogEvent::new(LogEventKind::KeyAllowed, timestamp_ms).with_socket(socket_path).with_fingerprint(
            fingerprint,
        ).with_comment(comment)
    }

    /// An error event.
    pub fn error(message: &str, timestamp_ms: i64) -> (e: LogEvent)
        ensures
            e.kind == LogEventKind::Error,
            e.timestamp_ms == timestamp_ms,
            e.error matches Some(m) && m@ == message@,
            e.socket is None && e.decision is None,
    {
        LogEvent::new(LogEventKind::Error, timestamp_ms).with_error(message)
    }

    /// An agent message event.
    pub fn agent_msg(direction: MessageDirection, message: AgentMsgContent, timestamp_ms: i64) -> (e: LogEvent)
        ensures
            e.kind == LogEventKind::AgentMsg,
            e.timestamp_ms == timestamp_ms,
            e.direction == Some(direction),
            e.message == Some(message),
            e.socket is None && e.decision is None && e.error is None,
    {
        LogEvent::new(LogEventKind::AgentMsg, timestamp_ms).with_direction(direction).with_message(message)
    }
}

} // verus!
