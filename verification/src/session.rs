//! Dashboard control sessions: handshake order, IPC binding gates and the
//! per-target streams a session forwards.
//!
//! A session must authenticate and publish the target list before it may
//! bind a target's IPC, and it forwards commands only for bound targets.

use vstd::prelude::*;
use std::collections::HashMap;

use crate::audit::{is_audit_of, AuditEvent, AuditRecorder, AuditResult};
use crate::auth::RemoteIdentity;
use crate::clock::Timestamp;
use crate::command::{command_refusal, prepare_client_command, prepared_from, wire_name_of, ClientCommand,
    ControlCommandResult, PreparedCommand};
use crate::error::{err_info, opt_view, rv, ErrorInfo, RelayError, RelayResult};
use crate::ipc_client::{DashboardState, TargetIpcPort};
use crate::registry::{
    connected_entry, connecting_entry, declares, has_id, index_of, is_active_at, is_marked, keeps_registrations, lemma_index_of_unique,
    connection_not_registered, not_registered,
    same_registrations, stored_registration, active_visible, lemma_active_visible_member, visible_of, visible_views, ConnectionState, RegistryEntry,
    RegistrationState, TargetProcessRegistry, VisibleTarget,
};
use crate::text::is_blank;

verus! {

/// The protocol security of a remote connection.
#[derive(Debug, Clone, Copy, PartialEq, Eq, Structural)]
pub enum TransportSecurity {
    /// TLS completed before the WebSocket upgrade.
    Wss,
    /// A plaintext connection, never allowed full control.
    Ws,
}

/// The lifecycle of a remote connection.
#[derive(Debug, Clone, Copy, PartialEq, Eq, Structural)]
pub enum ConnectionStateForSession {
    /// The identity is not established yet.
    Handshaking,
    /// The control session is established.
    Established,
    /// The connection is closing.
    Closing,
    /// The connection is closed.
    Closed,
}

/// Whether a session may control targets.
#[derive(Debug, Clone, Copy, PartialEq, Eq, Structural)]
pub enum ControlState {
    /// IPC must not be triggered.
    NotEstablished,
    /// Authentication and the control session are complete.
    Established,
    /// Authorization was revoked.
    Revoked,
}

/// The minimal event model the relay forwards.
#[derive(Debug, Clone, PartialEq, Eq)]
pub struct EventRecord {
    /// `target_id` is the target process the event belongs to.
    pub target_id: String,
    /// `sequence` is the target's monotonic event sequence.
    pub sequence: u64,
    /// `event_type` is the supervision event name.
    pub event_type: String,
    /// `severity` is the event severity.
    pub severity: String,
    /// `occurred_at` is the event time.
    pub occurred_at: Timestamp,
}

impl EventRecord {
    /// An equal copy of the event.
    pub fn duplicate(&self) -> (r: Self)
        ensures
            r == *self,
    {
        EventRecord {
            target_id: self.target_id.clone(),
            sequence: self.sequence,
            event_type: self.event_type.clone(),
            severity: self.severity.clone(),
            occurred_at: self.occurred_at,
        }
    }
}

/// The minimal log model the relay forwards.
#[derive(Debug, Clone, PartialEq, Eq)]
pub struct LogRecord {
    /// `target_id` is the target process the log belongs to.
    pub target_id: String,
    /// `sequence` is an optional sequence that may relate the log to an event.
    pub sequence: Option<u64>,
    /// `severity` is the log severity.
    pub severity: String,
    /// `message` is the log text.
    pub message: String,
    /// `occurred_at` is the log time.
    pub occurred_at: Timestamp,
}

impl LogRecord {
    /// An equal copy of the log.
    pub fn duplicate(&self) -> (r: Self)
        ensures
            r == *self,
    {
        LogRecord {
            target_id: self.target_id.clone(),
            sequence: self.sequence,
            severity: self.severity.clone(),
            message: self.message.clone(),
            occurred_at: self.occurred_at,
        }
    }
}

/// Whether the relay or the client filters logs and events.
#[derive(Debug, Clone, Copy, PartialEq, Eq, Structural)]
pub enum LogEventFilterMode {
    /// The relay reduces what it sends by the conditions.
    Remote,
    /// The relay sends everything and the client filters.
    Local,
}

/// The resume point of one target and stream.
#[derive(Debug, Clone, PartialEq, Eq)]
pub struct ResumeCursorEntry {
    /// `delivery_mode` is `remote` or `local`.
    pub delivery_mode: String,
    /// `filter_config_version` is the configuration version the relay sent.
    pub filter_config_version: u64,
    /// `stream_epoch` separates sequences across target restarts.
    pub stream_epoch: String,
    /// `sequence` is the next sequence to deliver, inclusive.
    pub sequence: u64,
}

/// The resume requests for the event and log streams, keyed by target.
#[derive(Debug, Clone, PartialEq, Eq)]
pub struct ResumeCursor {
    /// `events` holds the resume points of event streams.
    pub events: HashMap<String, ResumeCursorEntry>,
    /// `logs` holds the resume points of log streams.
    pub logs: HashMap<String, ResumeCursorEntry>,
}

impl Default for ResumeCursor {
    fn default() -> (r: Self)
        ensures
            r.events@ == Map::<String, ResumeCursorEntry>::empty(),
            r.logs@ == Map::<String, ResumeCursorEntry>::empty(),
    {
        ResumeCursor { events: HashMap::new(), logs: HashMap::new() }
    }
}

/// The first message a client sends once the session exists.
#[derive(Debug, Clone, PartialEq, Eq)]
pub struct ClientHello {
    /// `client_store_id` is the partition key of the client's local store.
    pub client_store_id: String,
    /// `resume_cursor` is the resume request from the client's store.
    pub resume_cursor: ResumeCursor,
}

/// The client's current log and event filter conditions.
#[derive(Debug, Clone, PartialEq, Eq)]
pub struct LogEventFilterConditionsMessage {
    pub target_ids: Vec<String>,
    pub child_paths: Vec<String>,
    pub lifecycle_states: Vec<String>,
    pub event_types: Vec<String>,
    pub severities: Vec<String>,
    /// `sequence_min` is the smallest sequence the client wants.
    pub sequence_min: Option<u64>,
    /// `correlation_id` filters by correlation text.
    pub correlation_id: Option<String>,
}

/// An inbound message of the current protocol.
#[derive(Debug, Clone, PartialEq, Eq)]
pub enum ClientMessage {
    /// Must be the client's first message.
    ClientHello(ClientHello),
    /// A control command after the handshake.
    Command(ClientCommand),
    /// An update of the filter conditions.
    LogEventFilterConditions(LogEventFilterConditionsMessage),
}

/// A JSON object given as its members, in order.
#[derive(Debug, Clone, PartialEq)]
pub struct JsonObject {
    /// `entries` are the object's members, each a name and a value.
    pub entries: Vec<(String, serde_json::Value)>,
}

impl JsonObject {
    /// The empty object `{}`.
    pub fn new() -> (r: Self)
        ensures
            r.entries@.len() == 0,
    {
        JsonObject { entries: Vec::new() }
    }
}

/// A message the relay sends to the dashboard.
#[derive(Debug, Clone, PartialEq)]
pub enum ServerMessage {
    /// The identity greeting sent before any business data.
    ServerHello {
        session_id: uuid::Uuid,
        /// `client_identity` is the identity key of the client.
        client_identity: String,
        log_event_filter_mode: LogEventFilterMode,
        log_event_filter_conditions: JsonObject,
        filter_config_version: u64,
    },
    /// The active targets, sent after a successful client hello.
    TargetList { targets: Vec<VisibleTarget> },
    /// A target's state, sent after binding or reconnecting.
    State { target_id: String, state: DashboardState },
    /// An event pushed by a target.
    Event { target_id: String, event: EventRecord },
    /// A log pushed by a target.
    Log { target_id: String, log: LogRecord },
    /// A change of a target's state.
    StateDelta { target_id: String, delta: serde_json::Value },
    /// A diagnostic for a sequence gap or dropped buffer entries.
    DroppedCount { target_id: String, dropped_event_count: u64 },
    /// The result of a control command.
    CommandResult { target_id: String, result: ControlCommandResult },
    /// A change of a target's IPC availability.
    ConnectionState { target_id: String, state: ConnectionState },
    /// A structured error.
    Error { error: RelayError },
}

/// What the relay reads of an inbound message before decoding it.
#[derive(Debug, Clone, PartialEq, Eq)]
pub struct ClientEnvelope {
    /// `message_type` is the message's `type` field when it is a string.
    pub message_type: Option<String>,
    /// `keys` are the message's field names when it is a JSON object.
    pub keys: Option<Vec<String>>,
}

/// The fields a client hello may carry.
pub open spec fn hello_field(k: Seq<char>) -> bool {
    k == "type"@ || k == "client_store_id"@ || k == "resume_cursor"@
}

/// The plain content of an envelope: the message type and the field names.
pub open spec fn envelope_view(e: ClientEnvelope) -> (Option<Seq<char>>, Option<Seq<Seq<char>>>) {
    (opt_view(e.message_type), match e.keys {
        Some(ks) => Some(ks@.map_values(|k: String| k@)),
        None => None,
    })
}

/// The refusal, if any, of an inbound message by its type and field names:
/// historical message types and historical client hello fields are refused.
pub open spec fn envelope_view_refusal(t: Option<Seq<char>>, keys: Option<Seq<Seq<char>>>) -> Option<ErrorInfo> {
    if t == Some("client_hello"@) {
        match keys {
            None => Some(err_info("invalid_message_schema"@, "session_decode"@, None,
                "client message must be a JSON object"@, false)),
            Some(ks) => if exists|i: int| 0 <= i < ks.len() && !hello_field(#[trigger] ks[i]) {
                Some(err_info("unsupported_field"@, "session_decode"@, None,
                    "message field is not supported by the current protocol"@, false))
            } else {
                None
            },
        }
    } else if t == Some("command"@) || t == Some("log_event_filter_conditions"@) {
        None
    } else {
        Some(err_info("unsupported_message_type"@, "session_decode"@, None,
            "message type is not supported by the current protocol"@, false))
    }
}

/// The refusal, if any, of an inbound message by its envelope.
pub open spec fn envelope_refusal(e: ClientEnvelope) -> Option<ErrorInfo> {
    envelope_view_refusal(envelope_view(e).0, envelope_view(e).1)
}

/// Checks an inbound message's type and, for a client hello, its fields.
#[verifier::loop_isolation(false)]
pub fn check_client_envelope(envelope: &ClientEnvelope) -> (r: RelayResult<()>)
    ensures
        match envelope_refusal(*envelope) {
            Some(e) => rv(r) == Err::<(), ErrorInfo>(e),
            None => r is Ok,
        },
{
    let (is_hello, is_other) = match &envelope.message_type {
        Some(t) => (crate::text::str_eq(t.as_str(), "client_hello"),
            crate::text::str_eq(t.as_str(), "command") || crate::text::str_eq(t.as_str(), "log_event_filter_conditions")),
        None => (false, false),
    };
    if is_hello {
        match &envelope.keys {
            None => {
                return Err(RelayError::new("invalid_message_schema", "session_decode", None,
                    "client message must be a JSON object", false));
            },
            Some(keys) => {
                let ghost names = envelope_view(*envelope).1.unwrap();
                let n = keys.len();
                let mut i: usize = 0;
                while i < n
                    invariant
                        n == keys@.len(),
                        names.len() == n,
                        i <= n,
                        forall|j: int| 0 <= j < i ==> hello_field(#[trigger] names[j]),
                    decreases n - i,
                {
                    let k = keys[i].as_str();
                    assert(names[i as int] == keys@[i as int]@);
                    if !(crate::text::str_eq(k, "type") || crate::text::str_eq(k, "client_store_id")
                        || crate::text::str_eq(k, "resume_cursor")) {
                        assert(!hello_field(names[i as int]));
                        return Err(RelayError::new("unsupported_field", "session_decode", None,
                            "message field is not supported by the current protocol", false));
                    }
                    i = i + 1;
                }
                Ok(())
            },
        }
    } else if is_other {
        Ok(())
    } else {
        Err(RelayError::new("unsupported_message_type", "session_decode", None,
            "message type is not supported by the current protocol", false))
    }
}

/// The error for an inbound text that is not JSON, with the parser's words.
pub open spec fn message_json_info(detail: Seq<char>) -> ErrorInfo {
    err_info("invalid_message_json"@, "session_decode"@, None,
        "client message could not be parsed: "@ + detail, false)
}

/// Builds the error for an inbound text that is not JSON, with the parser's words.
pub fn message_json_error(detail: &str) -> (r: RelayError)
    ensures
        r@ == message_json_info(detail@),
{
    let message = crate::text::concat_str("client message could not be parsed: ", detail);
    RelayError::new("invalid_message_json", "session_decode", None, message.as_str(), false)
}

/// The error for an inbound message that does not fit its schema, with the
/// decoder's words.
pub fn message_schema_error(detail: &str) -> (r: RelayError)
    ensures
        r@ == err_info("invalid_message_schema"@, "session_decode"@, None,
            "client message schema is invalid: "@ + detail@, false),
{
    let message = crate::text::concat_str("client message schema is invalid: ", detail);
    RelayError::new("invalid_message_schema", "session_decode", None, message.as_str(), false)
}

/// What `serde_json` reads of an inbound text: the parser's error words when
/// the text is not JSON, else the `type` field when it is a string and the
/// field names when the value is an object.
pub uninterp spec fn json_message_envelope(text: Seq<char>) -> Result<(Option<Seq<char>>, Option<Seq<Seq<char>>>), Seq<char>>;

/// Parses an inbound text with `serde_json::from_str` into a
/// `serde_json::Value` and reads its envelope with `Value::get`,
/// `Value::as_str` and `Value::as_object`. The contract ties the parser's
/// error words and the envelope to the text through `json_message_envelope`;
/// it says nothing of the parsed value itself.
#[verifier::external_body]
fn parse_json_message(text: &str) -> (r: Result<(serde_json::Value, ClientEnvelope), String>)
    ensures
        match r {
            Ok((_, e)) => json_message_envelope(text@) == Ok::<_, Seq<char>>(envelope_view(e)),
            Err(d) => json_message_envelope(text@) == Err::<(Option<Seq<char>>, Option<Seq<Seq<char>>>), Seq<char>>(d@),
        },
{
    match serde_json::from_str::<serde_json::Value>(text) {
        Ok(value) => {
            let message_type = value.get("type").and_then(serde_json::Value::as_str).map(str::to_owned);
            let keys = match value.as_object() {
                Some(object) => Some(object.keys().cloned().collect()),
                None => None,
            };
            Ok((value, ClientEnvelope { message_type, keys }))
        },
        Err(error) => Err(error.to_string()),
    }
}

/// Parses an inbound text and checks its envelope. A text that is not JSON
/// is refused with the parser's words; historical message types and client
/// hello fields are refused; otherwise the parsed value is handed back for
/// decoding into a message.
pub fn decode_message_envelope(raw: &str) -> (r: RelayResult<serde_json::Value>)
    ensures
        match json_message_envelope(raw@) {
            Err(d) => rv(r) == Err::<serde_json::Value, ErrorInfo>(message_json_info(d)),
            Ok(ev) => match envelope_view_refusal(ev.0, ev.1) {
                Some(e) => rv(r) == Err::<serde_json::Value, ErrorInfo>(e),
                None => r is Ok,
            },
        },
{
    match parse_json_message(raw) {
        Err(detail) => Err(message_json_error(detail.as_str())),
        Ok((value, envelope)) => match check_client_envelope(&envelope) {
            Err(e) => Err(e),
            Ok(()) => Ok(value),
        },
    }
}

/// The abstract state of a session.
pub struct SessionView {
    pub session_id: uuid::Uuid,
    /// `remote_identity` is the authenticated identity, once known.
    pub remote_identity: Option<RemoteIdentity>,
    /// `client_store_id` is set by the client hello.
    pub client_store_id: Option<Seq<char>>,
    pub connection_state: ConnectionStateForSession,
    pub control_state: ControlState,
    /// `bound` holds the targets whose IPC this session has bound.
    pub bound: Set<Seq<char>>,
    /// `last_sequences` holds the last forwarded event sequence per target.
    pub last_sequences: Map<Seq<char>, u64>,
    /// `outbox` holds the server messages produced, in order.
    pub outbox: Seq<ServerMessage>,
    pub created_at: Timestamp,
    pub last_seen_at: Timestamp,
}

/// Whether a session may bind targets and forward commands.
pub open spec fn control_ready(v: SessionView) -> bool {
    &&& v.connection_state == ConnectionStateForSession::Established
    &&& v.control_state == ControlState::Established
    &&& v.remote_identity is Some
}

/// The error for a session that is not ready for control.
pub open spec fn session_not_established() -> ErrorInfo {
    err_info("session_not_established"@, "session"@, None,
        "control session must be established before IPC binding or command forwarding"@, false)
}

/// Whether a message is the server hello of a session.
pub open spec fn is_server_hello(m: ServerMessage, session_id: uuid::Uuid, client_identity: String) -> bool {
    m matches ServerMessage::ServerHello {
        session_id: sid,
        client_identity: ci,
        log_event_filter_mode: mode,
        log_event_filter_conditions: conditions,
        filter_config_version: version,
    } && sid == session_id && ci == client_identity && mode == LogEventFilterMode::Remote
        && conditions.entries@.len() == 0 && version == 0
}

/// The number of targets in the first target list of an outbox, or 0.
pub open spec fn first_target_list_len(s: Seq<ServerMessage>) -> nat
    decreases s.len(),
{
    if s.len() == 0 {
        0
    } else {
        match s[0] {
            ServerMessage::TargetList { targets } => targets@.len(),
            _ => first_target_list_len(s.drop_first()),
        }
    }
}

/// The set of texts of a list.
spec fn target_set(s: Seq<String>) -> Set<Seq<char>> {
    Set::new(|k: Seq<char>| exists|i: int| 0 <= i < s.len() && (#[trigger] s[i])@ == k)
}

spec fn keys_unique(s: Seq<(String, u64)>) -> bool {
    forall|a: int, b: int| 0 <= a < s.len() && 0 <= b < s.len() && (#[trigger] s[a]).0@ == (#[trigger] s[b]).0@
        ==> a == b
}

spec fn has_key(s: Seq<(String, u64)>, k: Seq<char>) -> bool {
    exists|i: int| 0 <= i < s.len() && (#[trigger] s[i]).0@ == k
}

spec fn key_index(s: Seq<(String, u64)>, k: Seq<char>) -> int {
    choose|i: int| 0 <= i < s.len() && (#[trigger] s[i]).0@ == k
}

spec fn pairs_map(s: Seq<(String, u64)>) -> Map<Seq<char>, u64> {
    Map::new(|k: Seq<char>| has_key(s, k), |k: Seq<char>| s[key_index(s, k)].1)
}

proof fn lemma_target_set_push(s: Seq<String>, x: String)
    ensures
        target_set(s.push(x)) == target_set(s).insert(x@),
{
    let s2 = s.push(x);
    assert forall|k: Seq<char>| target_set(s2).contains(k) == target_set(s).insert(x@).contains(k) by {
        if target_set(s).contains(k) {
            let i = choose|i: int| 0 <= i < s.len() && (#[trigger] s[i])@ == k;
            assert(s2[i] == s[i]);
        }
        if k == x@ {
            assert(s2[s.len() as int] == x);
        }
        if target_set(s2).contains(k) {
            let i = choose|i: int| 0 <= i < s2.len() && (#[trigger] s2[i])@ == k;
            if i < s.len() {
                assert(s[i] == s2[i]);
            }
        }
    }
    assert(target_set(s2) =~= target_set(s).insert(x@));
}

proof fn lemma_key_index(s: Seq<(String, u64)>, i: int)
    requires
        keys_unique(s),
        0 <= i < s.len(),
    ensures
        has_key(s, s[i].0@),
        key_index(s, s[i].0@) == i,
{
    assert(0 <= i < s.len() && s[i].0@ == s[i].0@);
    let j = key_index(s, s[i].0@);
    assert(0 <= j < s.len() && s[j].0@ == s[i].0@);
}

proof fn lemma_pairs_push(s: Seq<(String, u64)>, k: String, v: u64)
    requires
        keys_unique(s),
        !has_key(s, k@),
    ensures
        keys_unique(s.push((k, v))),
        pairs_map(s.push((k, v))) == pairs_map(s).insert(k@, v),
{
    let s2 = s.push((k, v));
    assert forall|a: int, b: int| 0 <= a < s2.len() && 0 <= b < s2.len() && (#[trigger] s2[a]).0@ == (#[trigger] s2[b]).0@
        implies a == b by {
        if a < s.len() && b < s.len() {
            assert(s[a] == s2[a] && s[b] == s2[b]);
        } else if a < s.len() {
            assert(s[a] == s2[a]);
        } else if b < s.len() {
            assert(s[b] == s2[b]);
        }
    }
    assert forall|q: Seq<char>| has_key(s2, q) == (has_key(s, q) || q == k@) by {
        if has_key(s, q) {
            let i = choose|i: int| 0 <= i < s.len() && (#[trigger] s[i]).0@ == q;
            assert(s2[i] == s[i]);
        }
        if q == k@ {
            assert(s2[s.len() as int].0@ == q);
        }
        if has_key(s2, q) {
            let i = choose|i: int| 0 <= i < s2.len() && (#[trigger] s2[i]).0@ == q;
            if i < s.len() {
                assert(s[i] == s2[i]);
            }
        }
    }
    assert forall|q: Seq<char>| #[trigger] has_key(s2, q) implies s2[key_index(s2, q)].1 == (if q == k@ { v } else {
        s[key_index(s, q)].1
    }) by {
        let j = key_index(s2, q);
        lemma_key_index(s2, j);
        if q == k@ {
            lemma_key_index(s2, s.len() as int);
        } else {
            let i = key_index(s, q);
            lemma_key_index(s, i);
            assert(s2[i] == s[i]);
            lemma_key_index(s2, i);
        }
    }
    assert(pairs_map(s2) =~= pairs_map(s).insert(k@, v));
}

proof fn lemma_pairs_update(s: Seq<(String, u64)>, i: int, v: u64)
    requires
        keys_unique(s),
        0 <= i < s.len(),
    ensures
        keys_unique(s.update(i, (s[i].0, v))),
        pairs_map(s.update(i, (s[i].0, v))) == pairs_map(s).insert(s[i].0@, v),
{
    let s2 = s.update(i, (s[i].0, v));
    assert forall|a: int, b: int| 0 <= a < s2.len() && 0 <= b < s2.len() && (#[trigger] s2[a]).0@ == (#[trigger] s2[b]).0@
        implies a == b by {
        assert(s2[a].0 == s[a].0 && s2[b].0 == s[b].0);
    }
    assert forall|q: Seq<char>| has_key(s2, q) == has_key(s, q) by {
        if has_key(s, q) {
            let j = choose|j: int| 0 <= j < s.len() && (#[trigger] s[j]).0@ == q;
            assert(s2[j].0 == s[j].0);
        }
        if has_key(s2, q) {
            let j = choose|j: int| 0 <= j < s2.len() && (#[trigger] s2[j]).0@ == q;
            assert(s2[j].0 == s[j].0);
        }
    }
    lemma_key_index(s, i);
    assert forall|q: Seq<char>| #[trigger] has_key(s2, q) implies s2[key_index(s2, q)].1 == (if q == s[i].0@ { v } else {
        s[key_index(s, q)].1
    }) by {
        let j = key_index(s2, q);
        lemma_key_index(s2, j);
        let j0 = key_index(s, q);
        lemma_key_index(s, j0);
        assert(s2[j0].0 == s[j0].0);
        lemma_key_index(s2, j0);
    }
    assert(pairs_map(s2) =~= pairs_map(s).insert(s[i].0@, v));
}

/// The error for an event that does not advance its target's sequence.
pub open spec fn sequence_not_monotonic(target_id: Seq<char>) -> ErrorInfo {
    err_info("sequence_not_monotonic"@, "stream"@, Some(target_id),
        "event sequence must be monotonic for each target"@, false)
}

/// The messages forwarded for an event that advances its target's sequence
/// past `previous`: a dropped-count diagnostic for a gap, then the event.
pub open spec fn event_messages(previous: Option<u64>, event: EventRecord) -> Seq<ServerMessage> {
    let forwarded = ServerMessage::Event { target_id: event.target_id, event };
    match previous {
        Some(p) => if event.sequence > p + 1 {
            seq![
                ServerMessage::DroppedCount {
                    target_id: event.target_id,
                    dropped_event_count: (event.sequence - p - 1) as u64,
                },
                forwarded,
            ]
        } else {
            seq![forwarded]
        },
        None => seq![forwarded],
    }
}

/// What a session does with a target event. An event of a target the
/// session has not bound yields nothing. One that does not advance the
/// target's last forwarded sequence yields only an error. Otherwise the
/// sequence is recorded and the event, after a dropped-count diagnostic for a
/// gap, is sent.
pub open spec fn event_outcome(s0: SessionView, s1: SessionView, event: EventRecord, msgs: Seq<ServerMessage>) -> bool {
    let t = event.target_id@;
    if !s0.bound.contains(t) {
        msgs.len() == 0 && s1 == s0
    } else if s0.last_sequences.contains_key(t) && event.sequence <= s0.last_sequences[t] {
        &&& msgs.len() == 1
        &&& msgs[0] matches ServerMessage::Error { error } && error@ == sequence_not_monotonic(t)
        &&& s1 == s0
    } else {
        let previous = if s0.last_sequences.contains_key(t) {
            Some(s0.last_sequences[t])
        } else {
            None
        };
        &&& msgs == event_messages(previous, event)
        &&& s1 == (SessionView {
            last_sequences: s0.last_sequences.insert(t, event.sequence),
            outbox: s0.outbox + msgs,
            ..s0
        })
    }
}

/// A forwarded event advances its target's last forwarded sequence to its
/// own sequence, and a gap diagnostic sent before it counts exactly the
/// skipped sequences.
pub proof fn lemma_forwarded_event_advances(s0: SessionView, s1: SessionView, event: EventRecord, msgs: Seq<ServerMessage>)
    requires
        event_outcome(s0, s1, event, msgs),
        msgs.len() > 0,
        msgs.last() is Event,
    ensures
        s0.bound.contains(event.target_id@),
        s0.last_sequences.contains_key(event.target_id@) ==> s0.last_sequences[event.target_id@] < event.sequence,
        s1.last_sequences.contains_key(event.target_id@),
        s1.last_sequences[event.target_id@] == event.sequence,
        msgs.len() == 2 ==> s0.last_sequences.contains_key(event.target_id@) && msgs[0]
            == (ServerMessage::DroppedCount {
            target_id: event.target_id,
            dropped_event_count: (event.sequence - s0.last_sequences[event.target_id@] - 1) as u64,
        }),
{
}

/// Events of a bound target are forwarded in sequence order, with every
/// skipped sequence reported: after last forwarded sequence `p`, an event
/// with sequence `p + 1` is sent alone, one with a greater sequence `q` is
/// sent after a dropped count of `q - p - 1`, and one that does not advance
/// is refused with an error and leaves the session as it was. The first
/// event of a target is sent alone.
pub proof fn lemma_event_gap_reported(s0: SessionView, s1: SessionView, event: EventRecord, msgs: Seq<ServerMessage>)
    requires
        event_outcome(s0, s1, event, msgs),
        s0.bound.contains(event.target_id@),
    ensures
        ({
            let t = event.target_id@;
            let sent = ServerMessage::Event { target_id: event.target_id, event };
            &&& !s0.last_sequences.contains_key(t) ==> msgs == seq![sent]
            &&& s0.last_sequences.contains_key(t) && event.sequence == s0.last_sequences[t] + 1 ==> msgs
                == seq![sent]
            &&& s0.last_sequences.contains_key(t) && event.sequence > s0.last_sequences[t] + 1 ==> msgs == seq![
                ServerMessage::DroppedCount {
                    target_id: event.target_id,
                    dropped_event_count: (event.sequence - s0.last_sequences[t] - 1) as u64,
                },
                sent,
            ]
            &&& s0.last_sequences.contains_key(t) && event.sequence <= s0.last_sequences[t] ==> msgs.len() == 1
                && msgs[0] is Error && s1 == s0
            &&& msgs.len() > 0 && msgs.last() is Event ==> s1.outbox == s0.outbox + msgs
                && s1.last_sequences == s0.last_sequences.insert(t, event.sequence)
        }),
{
}

/// Whether a session sent one message to a bound target, or nothing to an
/// unbound one.
pub open spec fn forwarded_one(s0: SessionView, s1: SessionView, t: Seq<char>, msgs: Seq<ServerMessage>) -> bool {
    if s0.bound.contains(t) {
        msgs.len() == 1 && s1 == (SessionView { outbox: s0.outbox + msgs, ..s0 })
    } else {
        msgs.len() == 0 && s1 == s0
    }
}

/// What a session does with a target log.
pub open spec fn log_outcome(s0: SessionView, s1: SessionView, log: LogRecord, msgs: Seq<ServerMessage>) -> bool {
    &&& forwarded_one(s0, s1, log.target_id@, msgs)
    &&& msgs.len() == 1 ==> msgs[0] == ServerMessage::Log { target_id: log.target_id, log }
}

/// What a session does with a target state change.
pub open spec fn delta_outcome(s0: SessionView, s1: SessionView, t: Seq<char>, delta: serde_json::Value, msgs: Seq<ServerMessage>) -> bool {
    &&& forwarded_one(s0, s1, t, msgs)
    &&& msgs.len() == 1 ==> (msgs[0] matches ServerMessage::StateDelta { target_id: id, delta: d } && id@ == t && d == delta)
}

/// What a session does with a dropped-count diagnostic.
pub open spec fn dropped_outcome(s0: SessionView, s1: SessionView, t: Seq<char>, count: u64, msgs: Seq<ServerMessage>) -> bool {
    &&& forwarded_one(s0, s1, t, msgs)
    &&& msgs.len() == 1 ==> (msgs[0] matches ServerMessage::DroppedCount { target_id: id, dropped_event_count: n }
        && id@ == t && n == count)
}

/// What a session does with a change of a target's IPC availability.
pub open spec fn connection_outcome(s0: SessionView, s1: SessionView, t: Seq<char>, state: ConnectionState, msgs: Seq<ServerMessage>) -> bool {
    &&& forwarded_one(s0, s1, t, msgs)
    &&& msgs.len() == 1 ==> (msgs[0] matches ServerMessage::ConnectionState { target_id: id, state: c } && id@ == t
        && c == state)
}

/// The refusal, if any, of a target that is not registered or whose lease
/// is not active at `now`.
pub open spec fn target_refusal(entries: Seq<RegistryEntry>, t: Seq<char>, now: Timestamp) -> Option<ErrorInfo> {
    if !has_id(entries, t) {
        Some(not_registered(t, "registry"@))
    } else if !is_active_at(entries[index_of(entries, t)], now) {
        Some(err_info("target_unavailable"@, "registry"@, Some(t), "target registration is not active"@, true))
    } else {
        None
    }
}

/// The refusal, if any, of binding a target before any IPC is attempted.
pub open spec fn bind_refusal(s: SessionView, entries: Seq<RegistryEntry>, t: Seq<char>, now: Timestamp) -> Option<ErrorInfo> {
    if !control_ready(s) {
        Some(session_not_established())
    } else {
        target_refusal(entries, t, now)
    }
}

/// Binding is refused before any IPC unless the session is established and
/// the target is registered, active, with a lease that runs past `now`. An
/// established session asking for a target that is not registered is told
/// so; one asking for a registered target whose registration is not active,
/// or whose lease has lapsed, is told the target is unavailable, retryably.
pub proof fn lemma_bind_needs_active_lease(s: SessionView, entries: Seq<RegistryEntry>, t: Seq<char>, now: Timestamp)
    ensures
        bind_refusal(s, entries, t, now) is None ==> control_ready(s) && has_id(entries, t)
            && entries[index_of(entries, t)].registration.registration_state == RegistrationState::Active
            && entries[index_of(entries, t)].registration.expires_at.unix_nanos > now.unix_nanos,
        !control_ready(s) ==> bind_refusal(s, entries, t, now) == Some(err_info("session_not_established"@,
            "session"@, None, "control session must be established before IPC binding or command forwarding"@,
            false)),
        control_ready(s) && !has_id(entries, t) ==> bind_refusal(s, entries, t, now) == Some(err_info(
            "target_not_registered"@, "registry"@, Some(t), "target is not registered"@, true)),
        control_ready(s) && has_id(entries, t) && !(entries[index_of(entries, t)].registration.registration_state
            == RegistrationState::Active && entries[index_of(entries, t)].registration.expires_at.unix_nanos
            > now.unix_nanos) ==> bind_refusal(s, entries, t, now) == Some(err_info("target_unavailable"@,
            "registry"@, Some(t), "target registration is not active"@, true)),
{
}

/// Every outcome of a binding attempt of target `t` that passed the checks.
/// If IPC fails, the session is unchanged and the target's connection is
/// marked unavailable with the IPC error, from the connecting or the connected
/// state. If it succeeds, the connection records the state generation read,
/// the target becomes bound and the state is sent.
pub open spec fn binding_attempt(
    s0: SessionView,
    s1: SessionView,
    e0: Seq<RegistryEntry>,
    e1: Seq<RegistryEntry>,
    t: Seq<char>,
    now: Timestamp,
    r: Result<(), RelayError>,
) -> bool {
    let i = index_of(e0, t);
    match r {
        Err(err) => {
            &&& s1 == s0
            &&& e1 == e0.update(i, e1[i])
            &&& {
                ||| is_marked(connecting_entry(e0[i], now), e1[i], ConnectionState::Unavailable, err.message@, now)
                ||| e1[i].connection.last_state_generation matches Some(g) && is_marked(connected_entry(e0[i], g, now),
                    e1[i], ConnectionState::Unavailable, err.message@, now)
            }
        },
        Ok(_) => {
            &&& s1.outbox.len() == s0.outbox.len() + 1
            &&& s1.outbox.last() matches ServerMessage::State { target_id: tid, state: st } && tid@ == t
                && e1 == e0.update(i, connected_entry(e0[i], st.state_generation, now))
            &&& s1 == (SessionView {
                bound: s0.bound.insert(t),
                outbox: s0.outbox.push(s1.outbox.last()),
                last_seen_at: now,
                ..s0
            })
        },
    }
}

/// Whether the target's IPC was marked unavailable for `reason` at `now`, or
/// the entries were left as they were for an unknown target.
pub open spec fn marked_unavailable(e0: Seq<RegistryEntry>, e1: Seq<RegistryEntry>, t: Seq<char>, reason: Seq<char>, now: Timestamp) -> bool {
    if has_id(e0, t) {
        let i = index_of(e0, t);
        e1 == e0.update(i, e1[i]) && is_marked(e0[i], e1[i], ConnectionState::Unavailable, reason, now)
    } else {
        e1 == e0
    }
}

/// How a binding of target `t` follows what the target answered. Both IPC
/// calls receive the registration stored for `t`. A failed state read is
/// returned as it came and recorded as the unavailability reason; after a
/// state read, a failed subscription likewise; when both succeed the binding
/// succeeds, with the state read sent and its generation recorded.
pub open spec fn bind_ipc_outcome<P: TargetIpcPort>(
    ipc: &P,
    s1: SessionView,
    e0: Seq<RegistryEntry>,
    e1: Seq<RegistryEntry>,
    t: Seq<char>,
    now: Timestamp,
    r: Result<(), RelayError>,
) -> bool {
    let reg = stored_registration(e0, t);
    let i = index_of(e0, t);
    exists|connected: RelayResult<DashboardState>| #[trigger] call_ensures(P::connect_state, (ipc, &reg, now), connected)
        && match connected {
        Err(e) => r == Err::<(), RelayError>(e) && is_marked(connecting_entry(e0[i], now), e1[i],
            ConnectionState::Unavailable, e.message@, now),
        Ok(st) => exists|sub: RelayResult<()>| #[trigger] call_ensures(P::subscribe_event_log, (ipc, &reg, now), sub)
            && match sub {
            Err(e) => r == Err::<(), RelayError>(e) && is_marked(connected_entry(e0[i], st.state_generation, now),
                e1[i], ConnectionState::Unavailable, e.message@, now),
            Ok(_) => r is Ok && e1[i] == connected_entry(e0[i], st.state_generation, now)
                && (s1.outbox.last() matches ServerMessage::State { state, .. } && state == st),
        },
    }
}

/// Records the outcome of reading a target's state: an error is returned as
/// it came and recorded as the reason the target's IPC is unavailable; a
/// state read marks the target's connection connected with its generation.
pub fn record_connect_result(
    registry: &mut TargetProcessRegistry,
    target_id: &str,
    connected: RelayResult<DashboardState>,
    now: Timestamp,
) -> (r: RelayResult<DashboardState>)
    requires
        old(registry).wf(),
    ensures
        final(registry).wf(),
        final(registry).policy() == old(registry).policy(),
        same_registrations(old(registry).entries(), final(registry).entries()),
        match connected {
            Err(e) => r == Err::<DashboardState, RelayError>(e) && marked_unavailable(old(registry).entries(),
                final(registry).entries(), target_id@, e.message@, now),
            Ok(st) => if has_id(old(registry).entries(), target_id@) {
                let i = index_of(old(registry).entries(), target_id@);
                r == Ok::<DashboardState, RelayError>(st) && final(registry).entries() == old(registry).entries().update(
                    i, connected_entry(old(registry).entries()[i], st.state_generation, now))
            } else {
                rv(r) == Err::<DashboardState, ErrorInfo>(connection_not_registered(target_id@))
                    && final(registry).entries() == old(registry).entries()
            },
        },
{
    match connected {
        Err(error) => {
            let ghost e0 = registry.entries();
            registry.mark_unavailable(target_id, error.message.as_str(), now);
            proof {
                if has_id(e0, target_id@) {
                    let i = index_of(e0, target_id@);
                    assert(registry.entries() =~= e0.update(i, registry.entries()[i]));
                }
            }
            Err(error)
        },
        Ok(state) => {
            match registry.mark_connected(target_id, state.state_generation, now) {
                Ok(()) => Ok(state),
                Err(e) => Err(e),
            }
        },
    }
}

/// The error for a command on a target the session has not bound.
pub open spec fn target_not_bound(t: Seq<char>) -> ErrorInfo {
    err_info("target_not_bound"@, "session"@, Some(t), "target must be bound before command forwarding"@, false)
}

/// The error for a command the target does not declare.
pub open spec fn command_unsupported(t: Seq<char>) -> ErrorInfo {
    err_info("unsupported_command"@, "command_validate"@, Some(t),
        "target does not declare support for this command"@, false)
}

/// The refusal, if any, of a command before it reaches the target: the
/// session must be ready, the target bound, registered, active and declaring
/// the command, and the command itself valid.
pub open spec fn command_gate(s: SessionView, entries: Seq<RegistryEntry>, command: ClientCommand, now: Timestamp) -> Option<ErrorInfo> {
    let t = command.target_id@;
    if !control_ready(s) {
        Some(session_not_established())
    } else if !s.bound.contains(t) {
        Some(target_not_bound(t))
    } else if target_refusal(entries, t, now) is Some {
        target_refusal(entries, t, now)
    } else if !declares(stored_registration(entries, t).supported_commands@, wire_name_of(command.command)) {
        Some(command_unsupported(t))
    } else {
        command_refusal(command)
    }
}

/// Every outcome of handling a command. A refused command changes nothing
/// and reports the refusal. Otherwise the command, prepared with the
/// session's principal, is audited as accepted, then as rejected with the
/// target's error or as completed with the result's status, in which case
/// the result is sent.
pub open spec fn command_outcome(
    s0: SessionView,
    s1: SessionView,
    entries: Seq<RegistryEntry>,
    a0: Seq<AuditEvent>,
    a1: Seq<AuditEvent>,
    command: ClientCommand,
    now: Timestamp,
    r: Result<ControlCommandResult, RelayError>,
) -> bool {
    match command_gate(s0, entries, command, now) {
        Some(e) => rv(r) == Err::<ControlCommandResult, ErrorInfo>(e) && s1 == s0 && a1 == a0,
        None => {
            let identity = s0.remote_identity->0;
            let prepared = prepared_from(command, identity.principal, now);
            &&& a1.len() == a0.len() + 2
            &&& a1.subrange(0, a0.len() as int) == a0
            &&& is_audit_of(a1[a0.len() as int], identity, prepared, AuditResult::Accepted, "accepted"@, now)
            &&& match r {
                Err(err) => is_audit_of(a1.last(), identity, prepared, AuditResult::Rejected, err.message@, now)
                    && s1 == s0,
                Ok(res) => is_audit_of(a1.last(), identity, prepared, AuditResult::Completed, res.status@, now)
                    && s1 == (SessionView {
                    outbox: s0.outbox.push(ServerMessage::CommandResult { target_id: res.target_id, result: res }),
                    ..s0
                }),
            }
        },
    }
}

/// The error for a client hello after the first message.
pub open spec fn repeated_hello() -> ErrorInfo {
    err_info("protocol_error"@, "session"@, None, "client_hello is only valid as the first client message"@, false)
}

/// The error for a first message that is not a client hello.
pub open spec fn hello_not_first() -> ErrorInfo {
    err_info("protocol_error"@, "session"@, None, "client_hello must be the first client message"@, false)
}

/// Takes the client hello out of a session's first message; any other first
/// message is a protocol error.
pub fn first_message_hello(message: ClientMessage) -> (r: RelayResult<ClientHello>)
    ensures
        match message {
            ClientMessage::ClientHello(hello) => r == Ok::<ClientHello, RelayError>(hello),
            _ => rv(r) == Err::<ClientHello, ErrorInfo>(hello_not_first()),
        },
{
    match message {
        ClientMessage::ClientHello(hello) => Ok(hello),
        _ => Err(RelayError::new("protocol_error", "session", None, "client_hello must be the first client message",
            false)),
    }
}

/// The identities of the targets active at `now`.
pub open spec fn active_ids(entries: Seq<RegistryEntry>, now: Timestamp) -> Set<Seq<char>> {
    Set::new(|t: Seq<char>| exists|k: int| 0 <= k < active_visible(entries, now).len()
        && (#[trigger] active_visible(entries, now)[k]).target_id == t)
}

/// The target of a state message.
pub open spec fn state_target(m: ServerMessage) -> Option<Seq<char>> {
    match m {
        ServerMessage::State { target_id, .. } => Some(target_id@),
        _ => None,
    }
}

/// Whether the messages `s1` added after the outbox of `s0` are state
/// messages, one for each target bound since `s0` and for no other.
pub open spec fn appended_states(s0: SessionView, s1: SessionView) -> bool {
    let n0 = s0.outbox.len() as int;
    &&& forall|j: int| n0 <= j < s1.outbox.len() ==> ((#[trigger] state_target(s1.outbox[j])) matches Some(t)
        && s1.bound.contains(t) && !s0.bound.contains(t))
    &&& forall|j1: int, j2: int| n0 <= j1 < j2 < s1.outbox.len()
        ==> #[trigger] state_target(s1.outbox[j1]) != #[trigger] state_target(s1.outbox[j2])
    &&& forall|t: Seq<char>| #[trigger] s1.bound.contains(t) && !s0.bound.contains(t)
        ==> exists|j: int| n0 <= j < s1.outbox.len() && #[trigger] state_target(s1.outbox[j]) == Some(t)
}

proof fn lemma_state_appended(s0: SessionView, s1: SessionView, s2: SessionView, u: Seq<char>)
    requires
        appended_states(s0, s1),
        s0.bound.subset_of(s1.bound),
        s0.outbox.len() <= s1.outbox.len(),
        !s1.bound.contains(u),
        s2.bound == s1.bound.insert(u),
        s2.outbox == s1.outbox.push(s2.outbox.last()),
        state_target(s2.outbox.last()) == Some(u),
    ensures
        appended_states(s0, s2),
{
    let n0 = s0.outbox.len() as int;
    let last = s1.outbox.len() as int;
    assert forall|j: int| n0 <= j < s2.outbox.len() implies ((#[trigger] state_target(s2.outbox[j])) matches Some(t)
        && s2.bound.contains(t) && !s0.bound.contains(t)) by {
        if j < last {
            assert(s2.outbox[j] == s1.outbox[j]);
        }
    }
    assert forall|j1: int, j2: int| n0 <= j1 < j2 < s2.outbox.len()
        implies #[trigger] state_target(s2.outbox[j1]) != #[trigger] state_target(s2.outbox[j2]) by {
        assert(s2.outbox[j1] == s1.outbox[j1]);
        if j2 < last {
            assert(s2.outbox[j2] == s1.outbox[j2]);
        } else {
            assert(state_target(s1.outbox[j1]) matches Some(t) && s1.bound.contains(t));
        }
    }
    assert forall|t: Seq<char>| #[trigger] s2.bound.contains(t) && !s0.bound.contains(t)
        implies exists|j: int| n0 <= j < s2.outbox.len() && #[trigger] state_target(s2.outbox[j]) == Some(t) by {
        if t == u {
            assert(state_target(s2.outbox[last]) == Some(t));
        } else {
            assert(s1.bound.contains(t));
            let j = choose|j: int| n0 <= j < s1.outbox.len() && #[trigger] state_target(s1.outbox[j]) == Some(t);
            assert(s2.outbox[j] == s1.outbox[j]);
        }
    }
}

/// Whether target `t` ended bound by the session or with its IPC marked unavailable.
pub open spec fn bound_or_unavailable(s: SessionView, entries: Seq<RegistryEntry>, t: Seq<char>) -> bool {
    ||| s.bound.contains(t)
    ||| has_id(entries, t) && entries[index_of(entries, t)].connection.state == ConnectionState::Unavailable
}

/// Whether target `t` ended as its IPC answered, both IPC calls receiving
/// the registration stored for `t` in `e0`: bound after a successful
/// subscription, with the state its state read gave sent to the dashboard; or
/// with its IPC marked unavailable for the
/// error of its state read, or of the subscription that followed a state read.
pub open spec fn bound_or_failed<P: TargetIpcPort>(
    ipc: &P,
    s: SessionView,
    e0: Seq<RegistryEntry>,
    e1: Seq<RegistryEntry>,
    t: Seq<char>,
    now: Timestamp,
) -> bool {
    let reg = stored_registration(e0, t);
    ||| s.bound.contains(t) && (exists|sub: RelayResult<()>| #[trigger] call_ensures(P::subscribe_event_log,
        (ipc, &reg, now), sub) && sub is Ok) && exists|j: int| 0 <= j < s.outbox.len() && (#[trigger] s.outbox[j] matches
        ServerMessage::State { target_id, state } && target_id@ == t
        && call_ensures(P::connect_state, (ipc, &reg, now), Ok::<DashboardState, RelayError>(state)))
    ||| has_id(e1, t) && e1[index_of(e1, t)].connection.state == ConnectionState::Unavailable
        && exists|e: RelayError|
        #![trigger call_ensures(P::connect_state, (ipc, &reg, now), Err::<DashboardState, RelayError>(e))]
        #![trigger call_ensures(P::subscribe_event_log, (ipc, &reg, now), Err::<(), RelayError>(e))]
        opt_view(e1[index_of(e1, t)].connection.last_error) == Some(e.message@) && (
            call_ensures(P::connect_state, (ipc, &reg, now), Err::<DashboardState, RelayError>(e))
            || (exists|st: DashboardState| #[trigger] call_ensures(P::connect_state, (ipc, &reg, now),
                Ok::<DashboardState, RelayError>(st)))
                && call_ensures(P::subscribe_event_log, (ipc, &reg, now), Err::<(), RelayError>(e)))
}

proof fn lemma_bound_or_failed_kept<P: TargetIpcPort>(
    ipc: &P,
    s0: SessionView,
    s1: SessionView,
    e_start: Seq<RegistryEntry>,
    e0: Seq<RegistryEntry>,
    e1: Seq<RegistryEntry>,
    t: Seq<char>,
    now: Timestamp,
)
    requires
        bound_or_failed(ipc, s0, e_start, e0, t, now),
        s0.bound.subset_of(s1.bound),
        s0.outbox.len() <= s1.outbox.len(),
        s1.outbox.subrange(0, s0.outbox.len() as int) == s0.outbox,
        has_id(e0, t) ==> has_id(e1, t) && e1[index_of(e1, t)] == e0[index_of(e0, t)],
    ensures
        bound_or_failed(ipc, s1, e_start, e1, t, now),
{
    let reg = stored_registration(e_start, t);
    if s0.bound.contains(t) && exists|j: int| 0 <= j < s0.outbox.len() && (#[trigger] s0.outbox[j] matches
        ServerMessage::State { target_id, state } && target_id@ == t
        && call_ensures(P::connect_state, (ipc, &reg, now), Ok::<DashboardState, RelayError>(state))) {
        let j = choose|j: int| 0 <= j < s0.outbox.len() && (#[trigger] s0.outbox[j] matches
            ServerMessage::State { target_id, state } && target_id@ == t
            && call_ensures(P::connect_state, (ipc, &reg, now), Ok::<DashboardState, RelayError>(state)));
        assert(s1.outbox[j] == s1.outbox.subrange(0, s0.outbox.len() as int)[j]);
    }
}

proof fn lemma_bound_or_failed_step<P: TargetIpcPort>(
    ipc: &P,
    s0: SessionView,
    s1: SessionView,
    e_start: Seq<RegistryEntry>,
    e0: Seq<RegistryEntry>,
    e1: Seq<RegistryEntry>,
    u: Seq<char>,
    now: Timestamp,
    r: Result<(), RelayError>,
)
    requires
        stored_registration(e0, u) == stored_registration(e_start, u),
        has_id(e1, u),
        index_of(e1, u) == index_of(e0, u),
        binding_attempt(s0, s1, e0, e1, u, now, r),
        bind_ipc_outcome(ipc, s1, e0, e1, u, now, r),
    ensures
        bound_or_failed(ipc, s1, e_start, e1, u, now),
{
    let reg = stored_registration(e_start, u);
    let i = index_of(e0, u);
    let connected = choose|connected: RelayResult<DashboardState>| #[trigger] call_ensures(P::connect_state,
        (ipc, &reg, now), connected) && match connected {
        Err(e) => r == Err::<(), RelayError>(e) && is_marked(connecting_entry(e0[i], now), e1[i],
            ConnectionState::Unavailable, e.message@, now),
        Ok(st) => exists|sub: RelayResult<()>| #[trigger] call_ensures(P::subscribe_event_log, (ipc, &reg, now), sub)
            && match sub {
            Err(e) => r == Err::<(), RelayError>(e) && is_marked(connected_entry(e0[i], st.state_generation, now),
                e1[i], ConnectionState::Unavailable, e.message@, now),
            Ok(_) => r is Ok && e1[i] == connected_entry(e0[i], st.state_generation, now)
                && (s1.outbox.last() matches ServerMessage::State { state, .. } && state == st),
        },
    };
    match connected {
        Err(e) => {
            assert(call_ensures(P::connect_state, (ipc, &reg, now), Err::<DashboardState, RelayError>(e)));
        },
        Ok(st) => {
            let sub = choose|sub: RelayResult<()>| #[trigger] call_ensures(P::subscribe_event_log, (ipc, &reg, now), sub)
                && match sub {
                Err(e) => r == Err::<(), RelayError>(e) && is_marked(connected_entry(e0[i], st.state_generation, now),
                    e1[i], ConnectionState::Unavailable, e.message@, now),
                Ok(_) => r is Ok && e1[i] == connected_entry(e0[i], st.state_generation, now)
                    && (s1.outbox.last() matches ServerMessage::State { state, .. } && state == st),
            };
            match sub {
                Err(e) => {
                    assert(call_ensures(P::connect_state, (ipc, &reg, now), Ok::<DashboardState, RelayError>(st)));
                    assert(call_ensures(P::subscribe_event_log, (ipc, &reg, now), Err::<(), RelayError>(e)));
                },
                Ok(_) => {
                    let j = s1.outbox.len() - 1;
                    assert(s1.outbox[j] == s1.outbox.last());
                    assert(s1.bound.contains(u));
                },
            }
        },
    }
}

/// The state of one authenticated remote connection.
#[derive(Debug)]
pub struct DashboardSession {
    session_id: uuid::Uuid,
    remote_identity: Option<RemoteIdentity>,
    client_store_id: Option<String>,
    connection_state: ConnectionStateForSession,
    control_state: ControlState,
    /// The targets whose IPC binding this session triggered.
    bound_targets: Vec<String>,
    /// The last forwarded event sequence per target, one pair per target.
    last_sequences: Vec<(String, u64)>,
    /// The server messages produced, in order.
    outbox: Vec<ServerMessage>,
    created_at: Timestamp,
    last_seen_at: Timestamp,
}

impl View for DashboardSession {
    type V = SessionView;

    closed spec fn view(&self) -> SessionView {
        SessionView {
            session_id: self.session_id,
            remote_identity: self.remote_identity,
            client_store_id: match self.client_store_id {
                Some(s) => Some(s@),
                None => None,
            },
            connection_state: self.connection_state,
            control_state: self.control_state,
            bound: target_set(self.bound_targets@),
            last_sequences: pairs_map(self.last_sequences@),
            outbox: self.outbox@,
            created_at: self.created_at,
            last_seen_at: self.last_seen_at,
        }
    }
}

impl DashboardSession {
    /// The session invariant: one sequence record per target.
    pub closed spec fn wf(&self) -> bool {
        keys_unique(self.last_sequences@)
    }

    /// Creates a session that has not authenticated; it cannot trigger IPC.
    pub fn unauthenticated(now: Timestamp) -> (r: Self)
        ensures
            r.wf(),
            r@.remote_identity is None,
            r@.client_store_id is None,
            r@.connection_state == ConnectionStateForSession::Handshaking,
            r@.control_state == ControlState::NotEstablished,
            r@.bound == Set::<Seq<char>>::empty(),
            r@.last_sequences == Map::<Seq<char>, u64>::empty(),
            r@.outbox == Seq::<ServerMessage>::empty(),
            r@.created_at == now,
            r@.last_seen_at == now,
    {
        let r = DashboardSession {
            session_id: crate::opaque::new_uuid(),
            remote_identity: None,
            client_store_id: None,
            connection_state: ConnectionStateForSession::Handshaking,
            control_state: ControlState::NotEstablished,
            bound_targets: Vec::new(),
            last_sequences: Vec::new(),
            outbox: Vec::new(),
            created_at: now,
            last_seen_at: now,
        };
        assert(target_set(r.bound_targets@) =~= Set::<Seq<char>>::empty());
        assert(pairs_map(r.last_sequences@) =~= Map::<Seq<char>, u64>::empty());
        r
    }

    /// Creates an authenticated session whose only message is the server
    /// hello; it waits for the client hello.
    pub fn server_hello(identity: RemoteIdentity, now: Timestamp) -> (r: Self)
        ensures
            r.wf(),
            r@.remote_identity == Some(identity),
            r@.client_store_id is None,
            r@.connection_state == ConnectionStateForSession::Handshaking,
            r@.control_state == ControlState::NotEstablished,
            r@.bound == Set::<Seq<char>>::empty(),
            r@.last_sequences == Map::<Seq<char>, u64>::empty(),
            r@.outbox.len() == 1,
            is_server_hello(r@.outbox[0], r@.session_id, identity.client_identity),
            r@.created_at == now,
            r@.last_seen_at == now,
    {
        let session_id = crate::opaque::new_uuid();
        let mut outbox: Vec<ServerMessage> = Vec::new();
        outbox.push(ServerMessage::ServerHello {
            session_id,
            client_identity: identity.client_identity.clone(),
            log_event_filter_mode: LogEventFilterMode::Remote,
            log_event_filter_conditions: JsonObject::new(),
            filter_config_version: 0,
        });
        let r = DashboardSession {
            session_id,
            remote_identity: Some(identity),
            client_store_id: None,
            connection_state: ConnectionStateForSession::Handshaking,
            control_state: ControlState::NotEstablished,
            bound_targets: Vec::new(),
            last_sequences: Vec::new(),
            outbox,
            created_at: now,
            last_seen_at: now,
        };
        assert(target_set(r.bound_targets@) =~= Set::<Seq<char>>::empty());
        assert(pairs_map(r.last_sequences@) =~= Map::<Seq<char>, u64>::empty());
        r
    }

    /// Accepts the client hello and opens business data.
    pub fn accept_client_hello(&mut self, hello: ClientHello, now: Timestamp) -> (r: RelayResult<()>)
        requires
            old(self).wf(),
        ensures
            final(self).wf(),
            is_blank(hello.client_store_id@) ==> rv(r) == Err::<(), ErrorInfo>(err_info("invalid_message_schema"@,
                "session"@, None, "client_store_id must not be empty"@, false)) && final(self)@ == old(self)@,
            !is_blank(hello.client_store_id@) && old(self)@.connection_state != ConnectionStateForSession::Handshaking
                ==> rv(r) == Err::<(), ErrorInfo>(err_info("protocol_error"@, "session"@, None,
                "client_hello is only valid during handshaking"@, false)) && final(self)@ == old(self)@,
            !is_blank(hello.client_store_id@) && old(self)@.connection_state == ConnectionStateForSession::Handshaking
                ==> r is Ok && final(self)@ == (SessionView {
                client_store_id: Some(hello.client_store_id@),
                connection_state: ConnectionStateForSession::Established,
                control_state: ControlState::Established,
                last_seen_at: now,
                ..old(self)@
            }),
    {
        if crate::text::is_blank_str(hello.client_store_id.as_str()) {
            return Err(RelayError::new("invalid_message_schema", "session", None,
                "client_store_id must not be empty", false));
        }
        if self.connection_state != ConnectionStateForSession::Handshaking {
            return Err(RelayError::new("protocol_error", "session", None,
                "client_hello is only valid during handshaking", false));
        }
        self.client_store_id = Some(hello.client_store_id);
        self.connection_state = ConnectionStateForSession::Established;
        self.control_state = ControlState::Established;
        self.last_seen_at = now;
        Ok(())
    }

    /// Publishes the target list after the client hello.
    pub fn publish_target_list(&mut self, targets: Vec<VisibleTarget>)
        requires
            old(self).wf(),
        ensures
            final(self).wf(),
            final(self)@ == (SessionView { outbox: old(self)@.outbox.push(ServerMessage::TargetList { targets }), ..old(self)@ }),
    {
        self.outbox.push(ServerMessage::TargetList { targets });
    }

    /// Opens the session with the client's first message. It must be a
    /// client hello with a store id, received while handshaking; only then
    /// are the targets active at `now` published, after every earlier
    /// message. Any refusal leaves the session unchanged.
    pub fn open_with_first_message(
        &mut self,
        message: ClientMessage,
        registry: &TargetProcessRegistry,
        now: Timestamp,
    ) -> (r: RelayResult<()>)
        requires
            old(self).wf(),
        ensures
            final(self).wf(),
            match message {
                ClientMessage::ClientHello(hello) => if is_blank(hello.client_store_id@) {
                    rv(r) == Err::<(), ErrorInfo>(err_info("invalid_message_schema"@, "session"@, None,
                        "client_store_id must not be empty"@, false)) && final(self)@ == old(self)@
                } else if old(self)@.connection_state != ConnectionStateForSession::Handshaking {
                    rv(r) == Err::<(), ErrorInfo>(err_info("protocol_error"@, "session"@, None,
                        "client_hello is only valid during handshaking"@, false)) && final(self)@ == old(self)@
                } else {
                    &&& r is Ok
                    &&& final(self)@.outbox.len() == old(self)@.outbox.len() + 1
                    &&& final(self)@.outbox.last() matches ServerMessage::TargetList { targets }
                        && visible_views(targets@) == active_visible(registry.entries(), now)
                    &&& final(self)@ == (SessionView {
                        client_store_id: Some(hello.client_store_id@),
                        connection_state: ConnectionStateForSession::Established,
                        control_state: ControlState::Established,
                        last_seen_at: now,
                        outbox: old(self)@.outbox.push(final(self)@.outbox.last()),
                        ..old(self)@
                    })
                },
                _ => rv(r) == Err::<(), ErrorInfo>(hello_not_first()) && final(self)@ == old(self)@,
            },
    {
        let hello = match first_message_hello(message) {
            Ok(hello) => hello,
            Err(e) => {
                return Err(e);
            },
        };
        match self.accept_client_hello(hello, now) {
            Ok(()) => {},
            Err(e) => {
                return Err(e);
            },
        }
        let targets = registry.active_targets(now);
        self.publish_target_list(targets);
        Ok(())
    }

    /// Establishes an authenticated control session over `wss://`: the
    /// server hello, an implicit client hello, and the active target list.
    pub fn establish(
        identity: RemoteIdentity,
        registry: &TargetProcessRegistry,
        transport: TransportSecurity,
        now: Timestamp,
    ) -> (r: RelayResult<Self>)
        ensures
            transport != TransportSecurity::Wss ==> rv(r) == Err::<Self, ErrorInfo>(err_info("insecure_transport"@,
                "session"@, None, "full control session requires wss://"@, false)),
            transport == TransportSecurity::Wss ==> (r matches Ok(s) && {
                &&& s.wf()
                &&& control_ready(s@)
                &&& s@.remote_identity == Some(identity)
                &&& s@.client_store_id == Some("volatile-session"@)
                &&& s@.bound == Set::<Seq<char>>::empty()
                &&& s@.last_sequences == Map::<Seq<char>, u64>::empty()
                &&& s@.outbox.len() == 2
                &&& is_server_hello(s@.outbox[0], s@.session_id, identity.client_identity)
                &&& s@.outbox[1] matches ServerMessage::TargetList { targets }
                    && visible_views(targets@) == active_visible(registry.entries(), now)
                &&& s@.created_at == now
                &&& s@.last_seen_at == now
            }),
    {
        if transport != TransportSecurity::Wss {
            return Err(RelayError::new("insecure_transport", "session", None,
                "full control session requires wss://", false));
        }
        let client_identity = identity.client_identity.clone();
        let mut session = Self::server_hello(identity, now);
        let hello = ClientHello { client_store_id: "volatile-session".to_owned(), resume_cursor: ResumeCursor::default() };
        proof {
            reveal_strlit("volatile-session");
            assert(hello.client_store_id@[0] == 'v');
            assert(!crate::text::whitespace_char('v'));
        }
        match session.accept_client_hello(hello, now) {
            Ok(()) => {},
            Err(e) => {
                return Err(e);
            },
        }
        let targets = registry.active_targets(now);
        session.publish_target_list(targets);
        Ok(session)
    }

    /// The messages produced so far.
    pub fn outbox(&self) -> (r: &[ServerMessage])
        ensures
            r@ == self@.outbox,
    {
        self.outbox.as_slice()
    }

    /// Takes the produced messages, leaving the outbox empty.
    pub fn drain_outbox(&mut self) -> (r: Vec<ServerMessage>)
        requires
            old(self).wf(),
        ensures
            final(self).wf(),
            r@ == old(self)@.outbox,
            final(self)@ == (SessionView { outbox: Seq::<ServerMessage>::empty(), ..old(self)@ }),
    {
        let mut taken: Vec<ServerMessage> = Vec::new();
        std::mem::swap(&mut taken, &mut self.outbox);
        taken
    }

    /// The identifier the relay generated for the session.
    pub fn session_id(&self) -> (r: uuid::Uuid)
        ensures
            r == self@.session_id,
    {
        self.session_id
    }

    /// When the session was created.
    pub fn created_at(&self) -> (r: Timestamp)
        ensures
            r == self@.created_at,
    {
        self.created_at
    }

    /// Whether the session has bound the target.
    pub fn is_bound(&self, target_id: &str) -> (r: bool)
        ensures
            r == self@.bound.contains(target_id@),
    {
        let n = self.bound_targets.len();
        let mut i: usize = 0;
        while i < n
            invariant
                n == self.bound_targets@.len(),
                i <= n,
                forall|j: int| 0 <= j < i ==> (#[trigger] self.bound_targets@[j])@ != target_id@,
            decreases n - i,
        {
            if crate::text::str_eq(self.bound_targets[i].as_str(), target_id) {
                assert(self.bound_targets@[i as int]@ == target_id@);
                return true;
            }
            i = i + 1;
        }
        false
    }

    /// The number of targets in the first target list of the outbox, or 0.
    pub fn visible_target_count(&self) -> (r: usize)
        ensures
            r == first_target_list_len(self@.outbox),
    {
        let n = self.outbox.len();
        let mut i: usize = 0;
        assert(self.outbox@.subrange(0, n as int) =~= self.outbox@);
        while i < n
            invariant
                n == self.outbox@.len(),
                i <= n,
                first_target_list_len(self.outbox@) == first_target_list_len(self.outbox@.subrange(i as int, n as int)),
            decreases n - i,
        {
            let ghost rest = self.outbox@.subrange(i as int, n as int);
            assert(rest[0] == self.outbox@[i as int]);
            assert(rest.drop_first() =~= self.outbox@.subrange(i + 1, n as int));
            if let ServerMessage::TargetList { targets } = &self.outbox[i] {
                return targets.len();
            }
            i = i + 1;
        }
        0
    }

    fn sequence_index(&self, target_id: &str) -> (r: Option<usize>)
        ensures
            match r {
                Some(i) => i < self.last_sequences@.len() && self.last_sequences@[i as int].0@ == target_id@,
                None => !has_key(self.last_sequences@, target_id@),
            },
    {
        let n = self.last_sequences.len();
        let mut i: usize = 0;
        while i < n
            invariant
                n == self.last_sequences@.len(),
                i <= n,
                forall|j: int| 0 <= j < i ==> (#[trigger] self.last_sequences@[j]).0@ != target_id@,
            decreases n - i,
        {
            if crate::text::str_eq(self.last_sequences[i].0.as_str(), target_id) {
                return Some(i);
            }
            i = i + 1;
        }
        None
    }

    /// Forwards a target event in sequence order. An event of an unbound
    /// target yields nothing; one that does not advance the target's sequence
    /// yields only an error; a gap is reported before the event.
    pub fn accept_event(&mut self, event: EventRecord) -> (r: RelayResult<Vec<ServerMessage>>)
        requires
            old(self).wf(),
        ensures
            final(self).wf(),
            r matches Ok(msgs) && event_outcome(old(self)@, final(self)@, event, msgs@),
    {
        if !self.is_bound(event.target_id.as_str()) {
            return Ok(Vec::new());
        }
        let ghost s0 = self@;
        let ghost ev = event;
        let mut messages: Vec<ServerMessage> = Vec::new();
        let found = self.sequence_index(event.target_id.as_str());
        proof {
            if let Some(i) = found {
                lemma_key_index(self.last_sequences@, i as int);
            }
        }
        let previous = match found {
            Some(i) => Some(self.last_sequences[i].1),
            None => None,
        };
        if let Some(p) = previous {
            if event.sequence <= p {
                let error = RelayError::for_target("sequence_not_monotonic", "stream", event.target_id.as_str(),
                    "event sequence must be monotonic for each target", false);
                messages.push(ServerMessage::Error { error });
                return Ok(messages);
            }
            if event.sequence > p + 1 {
                let gap = event.sequence - p - 1;
                self.outbox.push(ServerMessage::DroppedCount { target_id: event.target_id.clone(), dropped_event_count: gap });
                messages.push(ServerMessage::DroppedCount { target_id: event.target_id.clone(), dropped_event_count: gap });
            }
        }
        let ghost pairs = self.last_sequences@;
        match found {
            Some(i) => {
                let key = self.last_sequences[i].0.clone();
                self.last_sequences.set(i, (key, event.sequence));
                proof {
                    lemma_pairs_update(pairs, i as int, event.sequence);
                }
            },
            None => {
                self.last_sequences.push((event.target_id.clone(), event.sequence));
                proof {
                    lemma_pairs_push(pairs, event.target_id, event.sequence);
                }
            },
        }
        self.outbox.push(ServerMessage::Event { target_id: event.target_id.clone(), event: event.duplicate() });
        messages.push(ServerMessage::Event { target_id: event.target_id.clone(), event });
        assert(self@.outbox =~= s0.outbox + messages@);
        assert(previous == (if s0.last_sequences.contains_key(ev.target_id@) {
            Some(s0.last_sequences[ev.target_id@])
        } else {
            None::<u64>
        }));
        assert(messages@ =~= event_messages(previous, ev));
        Ok(messages)
    }

    /// Forwards a target log to a session that bound the target.
    pub fn accept_log(&mut self, log: LogRecord) -> (r: RelayResult<Vec<ServerMessage>>)
        requires
            old(self).wf(),
        ensures
            final(self).wf(),
            r matches Ok(msgs) && log_outcome(old(self)@, final(self)@, log, msgs@),
    {
        if !self.is_bound(log.target_id.as_str()) {
            return Ok(Vec::new());
        }
        self.outbox.push(ServerMessage::Log { target_id: log.target_id.clone(), log: log.duplicate() });
        let mut messages: Vec<ServerMessage> = Vec::new();
        messages.push(ServerMessage::Log { target_id: log.target_id.clone(), log });
        assert(old(self)@.outbox.push(messages@[0]) =~= old(self)@.outbox + messages@);
        Ok(messages)
    }

    /// Forwards a target state change to a session that bound the target.
    pub fn accept_state_delta(&mut self, target_id: &str, delta: serde_json::Value) -> (r: RelayResult<Vec<ServerMessage>>)
        requires
            old(self).wf(),
        ensures
            final(self).wf(),
            r matches Ok(msgs) && delta_outcome(old(self)@, final(self)@, target_id@, delta, msgs@),
    {
        if !self.is_bound(target_id) {
            return Ok(Vec::new());
        }
        let t = target_id.to_owned();
        self.outbox.push(ServerMessage::StateDelta { target_id: t.clone(), delta: delta.clone() });
        let mut messages: Vec<ServerMessage> = Vec::new();
        messages.push(ServerMessage::StateDelta { target_id: t, delta });
        assert(old(self)@.outbox.push(messages@[0]) =~= old(self)@.outbox + messages@);
        Ok(messages)
    }

    /// Forwards a dropped-count diagnostic to a session that bound the target.
    pub fn accept_dropped_count(&mut self, target_id: &str, dropped_event_count: u64) -> (r: RelayResult<Vec<ServerMessage>>)
        requires
            old(self).wf(),
        ensures
            final(self).wf(),
            r matches Ok(msgs) && dropped_outcome(old(self)@, final(self)@, target_id@, dropped_event_count, msgs@),
    {
        if !self.is_bound(target_id) {
            return Ok(Vec::new());
        }
        let t = target_id.to_owned();
        self.outbox.push(ServerMessage::DroppedCount { target_id: t.clone(), dropped_event_count });
        let mut messages: Vec<ServerMessage> = Vec::new();
        messages.push(ServerMessage::DroppedCount { target_id: t, dropped_event_count });
        assert(old(self)@.outbox.push(messages@[0]) =~= old(self)@.outbox + messages@);
        Ok(messages)
    }

    /// Forwards a change of a target's IPC availability to a session that
    /// bound the target.
    pub fn accept_connection_state(&mut self, target_id: &str, state: ConnectionState) -> (r: RelayResult<Vec<ServerMessage>>)
        requires
            old(self).wf(),
        ensures
            final(self).wf(),
            r matches Ok(msgs) && connection_outcome(old(self)@, final(self)@, target_id@, state, msgs@),
    {
        if !self.is_bound(target_id) {
            return Ok(Vec::new());
        }
        let t = target_id.to_owned();
        self.outbox.push(ServerMessage::ConnectionState { target_id: t.clone(), state });
        let mut messages: Vec<ServerMessage> = Vec::new();
        messages.push(ServerMessage::ConnectionState { target_id: t, state });
        assert(old(self)@.outbox.push(messages@[0]) =~= old(self)@.outbox + messages@);
        Ok(messages)
    }

    /// Binds a target: reads its state over IPC and opens its event and log
    /// subscription. Only a ready session may bind, only an active target
    /// can be bound, and a bound target is not bound again. Both IPC calls
    /// receive the target's stored registration; the outcome follows what
    /// they return, through `record_connect_result` and `finish_binding`.
    pub fn bind_target<P: TargetIpcPort>(
        &mut self,
        target_id: &str,
        registry: &mut TargetProcessRegistry,
        ipc: &P,
        now: Timestamp,
    ) -> (r: RelayResult<()>)
        requires
            old(self).wf(),
            old(registry).wf(),
        ensures
            final(self).wf(),
            final(registry).wf(),
            final(registry).policy() == old(registry).policy(),
            same_registrations(old(registry).entries(), final(registry).entries()),
            keeps_registrations(old(registry).entries(), final(registry).entries()),
            r is Ok ==> control_ready(old(self)@) && has_id(old(registry).entries(), target_id@)
                && stored_registration(old(registry).entries(), target_id@).registration_state
                == RegistrationState::Active && stored_registration(old(registry).entries(),
                target_id@).expires_at.unix_nanos > now.unix_nanos,
            match bind_refusal(old(self)@, old(registry).entries(), target_id@, now) {
                Some(e) => rv(r) == Err::<(), ErrorInfo>(e) && final(self)@ == old(self)@
                    && final(registry).entries() == old(registry).entries(),
                None => if old(self)@.bound.contains(target_id@) {
                    r is Ok && final(self)@ == old(self)@ && final(registry).entries() == old(registry).entries()
                } else {
                    &&& binding_attempt(old(self)@, final(self)@, old(registry).entries(), final(registry).entries(),
                        target_id@, now, r)
                    &&& bind_ipc_outcome(ipc, final(self)@, old(registry).entries(), final(registry).entries(),
                        target_id@, now, r)
                },
            },
    {
        match self.ensure_control_established() {
            Ok(()) => {},
            Err(e) => {
                return Err(e);
            },
        }
        match registry.ensure_target_active(target_id, now) {
            Ok(()) => {},
            Err(e) => {
                return Err(e);
            },
        }
        if self.is_bound(target_id) {
            return Ok(());
        }
        let ghost e0 = registry.entries();
        let ghost i = index_of(e0, target_id@);
        let ghost reg0 = stored_registration(e0, target_id@);
        match registry.begin_binding(target_id, now) {
            Ok(()) => {},
            Err(e) => {
                return Err(e);
            },
        }
        proof {
            lemma_index_of_unique(e0, i);
            lemma_index_of_unique(registry.entries(), i);
        }
        let ghost e_connecting = registry.entries();
        let connected = match registry.registration(target_id) {
            Ok(registration) => ipc.connect_state(registration, now),
            Err(e) => {
                return Err(e);
            },
        };
        let ghost c = connected;
        assert(call_ensures(P::connect_state, (ipc, &reg0, now), c));
        let state = match record_connect_result(registry, target_id, connected, now) {
            Ok(state) => state,
            Err(error) => {
                assert(registry.entries() =~= e0.update(i, registry.entries()[i]));
                assert(bind_ipc_outcome(ipc, self@, e0, registry.entries(), target_id@, now, Err(error)));
                return Err(error);
            },
        };
        proof {
            lemma_index_of_unique(registry.entries(), i);
            assert(connected_entry(e_connecting[i], state.state_generation, now)
                == connected_entry(e0[i], state.state_generation, now));
        }
        let ghost st = state;
        let ghost e_connected = registry.entries();
        let subscribed = match registry.registration(target_id) {
            Ok(registration) => ipc.subscribe_event_log(registration, now),
            Err(e) => {
                return Err(e);
            },
        };
        let ghost sub = subscribed;
        assert(call_ensures(P::subscribe_event_log, (ipc, &reg0, now), sub));
        let ghost s0 = self@;
        let r = self.finish_binding(registry, target_id, state, subscribed, now);
        proof {
            lemma_index_of_unique(registry.entries(), i);
            if r is Ok {
                assert(registry.entries() =~= e0.update(i, connected_entry(e0[i], st.state_generation, now)));
            } else {
                assert(registry.entries() =~= e0.update(i, registry.entries()[i]));
            }
            assert(bind_ipc_outcome(ipc, self@, e0, registry.entries(), target_id@, now, r));
        }
        r
    }

    /// Completes a binding once the target's state is read: if the
    /// subscription failed, the target's IPC is marked unavailable with the
    /// subscription's error, which is returned; otherwise the target becomes
    /// bound and its state is sent.
    pub fn finish_binding(
        &mut self,
        registry: &mut TargetProcessRegistry,
        target_id: &str,
        state: DashboardState,
        subscribed: RelayResult<()>,
        now: Timestamp,
    ) -> (r: RelayResult<()>)
        requires
            old(self).wf(),
            old(registry).wf(),
        ensures
            final(self).wf(),
            final(registry).wf(),
            final(registry).policy() == old(registry).policy(),
            same_registrations(old(registry).entries(), final(registry).entries()),
            match subscribed {
                Err(e) => r == Err::<(), RelayError>(e),
                Ok(_) => r is Ok,
            },
            match subscribed {
                Err(e) => final(self)@ == old(self)@ && marked_unavailable(old(registry).entries(),
                    final(registry).entries(), target_id@, e.message@, now),
                Ok(_) => {
                    &&& final(registry).entries() == old(registry).entries()
                    &&& final(self)@.outbox.len() == old(self)@.outbox.len() + 1
                    &&& final(self)@.outbox.last() matches ServerMessage::State { target_id: tid, state: st }
                        && tid@ == target_id@ && st == state
                    &&& final(self)@ == (SessionView {
                        bound: old(self)@.bound.insert(target_id@),
                        outbox: old(self)@.outbox.push(final(self)@.outbox.last()),
                        last_seen_at: now,
                        ..old(self)@
                    })
                },
            },
    {
        match subscribed {
            Err(error) => {
                let ghost e0 = registry.entries();
                registry.mark_unavailable(target_id, error.message.as_str(), now);
                proof {
                    if has_id(e0, target_id@) {
                        let i = index_of(e0, target_id@);
                        assert(registry.entries() =~= e0.update(i, registry.entries()[i]));
                    }
                }
                Err(error)
            },
            Ok(()) => {
                let ghost s0 = self@;
                let t = target_id.to_owned();
                proof {
                    lemma_target_set_push(self.bound_targets@, t);
                }
                self.bound_targets.push(t.clone());
                self.outbox.push(ServerMessage::State { target_id: t, state });
                self.last_seen_at = now;
                assert(self@.outbox =~= s0.outbox.push(self@.outbox.last()));
                Ok(())
            },
        }
    }

    /// Forwards a client command to a bound target. The command reaches the
    /// target only after every check of `command_gate` passes; the target
    /// then receives the stored registration and the command prepared with
    /// the session's principal, and its answer is returned as it came, after
    /// `finish_command` audits it and sends the result.
    pub fn handle_command<P: TargetIpcPort>(
        &mut self,
        command: ClientCommand,
        registry: &mut TargetProcessRegistry,
        ipc: &P,
        audit: &mut AuditRecorder,
        now: Timestamp,
    ) -> (r: RelayResult<ControlCommandResult>)
        requires
            old(self).wf(),
            old(registry).wf(),
        ensures
            final(self).wf(),
            final(registry).entries() == old(registry).entries(),
            final(registry).policy() == old(registry).policy(),
            command_outcome(old(self)@, final(self)@, old(registry).entries(), old(audit).events_view(),
                final(audit).events_view(), command, now, r),
            command_gate(old(self)@, old(registry).entries(), command, now) is None ==> call_ensures(
                P::forward_command,
                (
                    ipc,
                    &stored_registration(old(registry).entries(), command.target_id@),
                    &prepared_from(command, (old(self)@.remote_identity->0).principal, now),
                    now,
                ),
                r,
            ),
    {
        match self.ensure_control_established() {
            Ok(()) => {},
            Err(e) => {
                return Err(e);
            },
        }
        let identity = match &self.remote_identity {
            Some(id) => id.duplicate(),
            None => {
                return Err(RelayError::new("session_not_established", "session", None,
                    "control session is not established", false));
            },
        };
        if !self.is_bound(command.target_id.as_str()) {
            return Err(RelayError::for_target("target_not_bound", "session", command.target_id.as_str(),
                "target must be bound before command forwarding", false));
        }
        match registry.ensure_target_active(command.target_id.as_str(), now) {
            Ok(()) => {},
            Err(e) => {
                return Err(e);
            },
        }
        match registry.ensure_command_supported(command.target_id.as_str(), command.command) {
            Ok(()) => {},
            Err(e) => {
                return Err(e);
            },
        }
        let registration = match registry.registration(command.target_id.as_str()) {
            Ok(reg) => reg,
            Err(e) => {
                return Err(e);
            },
        };
        let prepared = match prepare_client_command(command, &identity, now) {
            Ok(p) => p,
            Err(e) => {
                return Err(e);
            },
        };
        let ghost a0 = audit.events_view();
        audit.record_accepted(&identity, &prepared, now);
        let ghost a_mid = audit.events_view();
        let forwarded = ipc.forward_command(registration, &prepared, now);
        let r = self.finish_command(audit, &identity, &prepared, forwarded, now);
        assert(audit.events_view().subrange(0, a0.len() as int) =~= a0);
        assert(audit.events_view()[a0.len() as int] == a_mid[a0.len() as int]);
        r
    }

    /// Completes a forwarded command with the target's answer: an error is
    /// audited as rejected with its message, a result as completed with its
    /// status and sent to the dashboard; the answer is returned as it came.
    pub fn finish_command(
        &mut self,
        audit: &mut AuditRecorder,
        identity: &RemoteIdentity,
        prepared: &PreparedCommand,
        result: RelayResult<ControlCommandResult>,
        now: Timestamp,
    ) -> (r: RelayResult<ControlCommandResult>)
        requires
            old(self).wf(),
        ensures
            final(self).wf(),
            r == result,
            final(audit).events_view().len() == old(audit).events_view().len() + 1,
            final(audit).events_view().drop_last() == old(audit).events_view(),
            match result {
                Err(e) => is_audit_of(final(audit).events_view().last(), *identity, *prepared, AuditResult::Rejected,
                    e.message@, now) && final(self)@ == old(self)@,
                Ok(res) => is_audit_of(final(audit).events_view().last(), *identity, *prepared,
                    AuditResult::Completed, res.status@, now) && final(self)@ == (SessionView {
                    outbox: old(self)@.outbox.push(ServerMessage::CommandResult { target_id: res.target_id, result: res }),
                    ..old(self)@
                }),
            },
    {
        match result {
            Err(error) => {
                audit.record_rejected(identity, prepared, error.message.as_str(), now);
                Err(error)
            },
            Ok(res) => {
                audit.record_completed(identity, prepared, res.status.as_str(), now);
                self.outbox.push(ServerMessage::CommandResult { target_id: res.target_id.clone(), result: res.duplicate() });
                Ok(res)
            },
        }
    }

    /// Handles one inbound message after the handshake and returns the
    /// replies to send at once: the error of a refused or failed command, or
    /// the protocol error for a repeated client hello. Filter updates are
    /// accepted without a reply.
    pub fn handle_client_message<P: TargetIpcPort>(
        &mut self,
        message: ClientMessage,
        registry: &mut TargetProcessRegistry,
        ipc: &P,
        audit: &mut AuditRecorder,
        now: Timestamp,
    ) -> (r: Vec<ServerMessage>)
        requires
            old(self).wf(),
            old(registry).wf(),
        ensures
            final(self).wf(),
            final(registry).entries() == old(registry).entries(),
            final(registry).policy() == old(registry).policy(),
            match message {
                ClientMessage::Command(c) => {
                    &&& {
                        ||| r@.len() == 0 && final(self)@.outbox.len() > 0 && (final(self)@.outbox.last()
                            matches ServerMessage::CommandResult { result: res, .. } && command_outcome(old(self)@,
                            final(self)@, old(registry).entries(), old(audit).events_view(), final(audit).events_view(),
                            c, now, Ok(res)))
                        ||| r@.len() == 1 && (r@[0] matches ServerMessage::Error { error } && command_outcome(
                            old(self)@, final(self)@, old(registry).entries(), old(audit).events_view(),
                            final(audit).events_view(), c, now, Err(error)))
                    }
                    &&& command_gate(old(self)@, old(registry).entries(), c, now) is None ==> exists|
                        out: RelayResult<ControlCommandResult>,
                    | #[trigger] call_ensures(
                        P::forward_command,
                        (
                            ipc,
                            &stored_registration(old(registry).entries(), c.target_id@),
                            &prepared_from(c, (old(self)@.remote_identity->0).principal, now),
                            now,
                        ),
                        out,
                    ) && command_outcome(old(self)@, final(self)@, old(registry).entries(), old(audit).events_view(),
                        final(audit).events_view(), c, now, out) && match out {
                        Err(e) => r@ == seq![ServerMessage::Error { error: e }],
                        Ok(_) => r@.len() == 0,
                    }
                },
                ClientMessage::LogEventFilterConditions(_) => r@.len() == 0 && final(self)@ == old(self)@
                    && final(audit).events_view() == old(audit).events_view(),
                ClientMessage::ClientHello(_) => r@.len() == 1 && (r@[0] matches ServerMessage::Error { error }
                    && error@ == repeated_hello()) && final(self)@ == old(self)@
                    && final(audit).events_view() == old(audit).events_view(),
            },
    {
        let mut replies: Vec<ServerMessage> = Vec::new();
        match message {
            ClientMessage::Command(command) => {
                let outcome = self.handle_command(command, registry, ipc, audit, now);
                let ghost out = outcome;
                match outcome {
                    Ok(_) => {},
                    Err(error) => {
                        replies.push(ServerMessage::Error { error });
                    },
                }
                assert(out is Err ==> replies@ == seq![ServerMessage::Error { error: out->Err_0 }]);
            },
            ClientMessage::LogEventFilterConditions(_) => {},
            ClientMessage::ClientHello(_) => {
                replies.push(ServerMessage::Error {
                    error: RelayError::new("protocol_error", "session", None,
                        "client_hello is only valid as the first client message", false),
                });
            },
        }
        replies
    }

    /// Binds every target active at `now`, one after another; a target whose
    /// binding fails is left to its connection state. On a ready session,
    /// every active target ends bound or with its IPC marked unavailable.
    pub fn bind_active_targets<P: TargetIpcPort>(&mut self, registry: &mut TargetProcessRegistry, ipc: &P, now: Timestamp)
        requires
            old(self).wf(),
            old(registry).wf(),
        ensures
            final(self).wf(),
            final(registry).wf(),
            final(registry).policy() == old(registry).policy(),
            same_registrations(old(registry).entries(), final(registry).entries()),
            keeps_registrations(old(registry).entries(), final(registry).entries()),
            final(self)@.session_id == old(self)@.session_id,
            final(self)@.remote_identity == old(self)@.remote_identity,
            final(self)@.client_store_id == old(self)@.client_store_id,
            final(self)@.connection_state == old(self)@.connection_state,
            final(self)@.control_state == old(self)@.control_state,
            final(self)@.last_sequences == old(self)@.last_sequences,
            final(self)@.created_at == old(self)@.created_at,
            old(self)@.bound.subset_of(final(self)@.bound),
            old(self)@.outbox.len() <= final(self)@.outbox.len(),
            final(self)@.outbox.subrange(0, old(self)@.outbox.len() as int) == old(self)@.outbox,
            appended_states(old(self)@, final(self)@),
            final(self)@.bound.subset_of(old(self)@.bound.union(active_ids(old(registry).entries(), now))),
            !control_ready(old(self)@) ==> final(self)@ == old(self)@ && final(registry).entries()
                == old(registry).entries(),
            control_ready(old(self)@) ==> forall|k: int| 0 <= k < active_visible(old(registry).entries(), now).len()
                ==> bound_or_unavailable(final(self)@, final(registry).entries(),
                #[trigger] active_visible(old(registry).entries(), now)[k].target_id),
            control_ready(old(self)@) ==> forall|k: int| 0 <= k < active_visible(old(registry).entries(), now).len()
                && !old(self)@.bound.contains(active_visible(old(registry).entries(), now)[k].target_id)
                ==> bound_or_failed(ipc, final(self)@, old(registry).entries(), final(registry).entries(),
                #[trigger] active_visible(old(registry).entries(), now)[k].target_id, now),
    {
        let targets = registry.active_targets(now);
        let ghost e_start = registry.entries();
        let ghost s_start = self@;
        let ghost av = active_visible(e_start, now);
        let n = targets.len();
        let mut k: usize = 0;
        while k < n
            invariant
                n == targets@.len(),
                visible_views(targets@) == av,
                av == active_visible(e_start, now),
                e_start == old(registry).entries(),
                s_start == old(self)@,
                k <= n,
                self.wf(),
                registry.wf(),
                registry.policy() == old(registry).policy(),
                same_registrations(e_start, registry.entries()),
                self@.session_id == s_start.session_id,
                self@.remote_identity == s_start.remote_identity,
                self@.client_store_id == s_start.client_store_id,
                self@.connection_state == s_start.connection_state,
                self@.control_state == s_start.control_state,
                self@.last_sequences == s_start.last_sequences,
                self@.created_at == s_start.created_at,
                s_start.bound.subset_of(self@.bound),
                s_start.outbox.len() <= self@.outbox.len(),
                self@.outbox.subrange(0, s_start.outbox.len() as int) == s_start.outbox,
                appended_states(s_start, self@),
                self@.bound.subset_of(s_start.bound.union(active_ids(e_start, now))),
                !control_ready(s_start) ==> self@ == s_start && registry.entries() == e_start,
                control_ready(s_start) ==> forall|j: int| 0 <= j < k
                    ==> bound_or_unavailable(self@, registry.entries(), #[trigger] av[j].target_id),
                control_ready(s_start) ==> forall|j: int| 0 <= j < k && !s_start.bound.contains(av[j].target_id)
                    ==> bound_or_failed(ipc, self@, e_start, registry.entries(), #[trigger] av[j].target_id, now),
                control_ready(s_start) ==> forall|t: Seq<char>| #[trigger] self@.bound.contains(t)
                    && !s_start.bound.contains(t) ==> bound_or_failed(ipc, self@, e_start, registry.entries(), t, now),
                old(registry).wf(),
            decreases n - k,
        {
            proof {
                lemma_active_visible_member(e_start, now, k as int);
            }
            let ghost j0 = choose|j: int| 0 <= j < e_start.len() && is_active_at(e_start[j], now)
                && av[k as int] == visible_of(#[trigger] e_start[j]);
            let ghost e_before = registry.entries();
            let ghost s_before = self@;
            let ghost u = av[k as int].target_id;
            proof {
                assert(targets@[k as int]@ == visible_views(targets@)[k as int]);
                assert(e_before[j0].registration == e_start[j0].registration);
                lemma_index_of_unique(e_before, j0);
            }
            let bound = self.bind_target(targets[k].target_id.as_str(), registry, ipc, now);
            proof {
                let e_after = registry.entries();
                if bind_refusal(s_before, e_before, u, now) is None && !s_before.bound.contains(u) && bound is Ok {
                    lemma_state_appended(s_start, s_before, self@, u);
                } else {
                    assert(self@ == s_before);
                }
                assert(active_ids(e_start, now).contains(u)) by {
                    assert(0 <= k < av.len() && av[k as int].target_id == u);
                }
                assert(e_after[j0].registration == e_start[j0].registration);
                lemma_index_of_unique(e_after, j0);
                assert(self@.outbox.subrange(0, s_start.outbox.len() as int) =~= s_start.outbox) by {
                    assert(s_before.outbox.subrange(0, s_start.outbox.len() as int) == s_start.outbox);
                }
                if control_ready(s_start) {
                    assert forall|j: int| 0 <= j < k + 1 implies bound_or_unavailable(self@, e_after,
                        #[trigger] av[j].target_id) by {
                        let t = av[j].target_id;
                        if j < k && !s_before.bound.contains(t) {
                            assert(bound_or_unavailable(s_before, e_before, t));
                            let jt = index_of(e_before, t);
                            lemma_index_of_unique(e_before, jt);
                            assert(e_after[jt].registration == e_before[jt].registration);
                            lemma_index_of_unique(e_after, jt);
                            if jt != j0 {
                                assert(e_after[jt] == e_before[jt]);
                            }
                        }
                    }
                    assert(self@.outbox.subrange(0, s_before.outbox.len() as int) =~= s_before.outbox);
                    assert(stored_registration(e_before, u) == stored_registration(e_start, u)) by {
                        lemma_index_of_unique(e_start, j0);
                    }
                    assert forall|t: Seq<char>| #[trigger] self@.bound.contains(t) && !s_start.bound.contains(t)
                        implies bound_or_failed(ipc, self@, e_start, e_after, t, now) by {
                        if t == u && !s_before.bound.contains(u) {
                            lemma_bound_or_failed_step(ipc, s_before, self@, e_start, e_before, e_after, u, now, bound);
                        } else {
                            assert(s_before.bound.contains(t));
                            if has_id(e_before, t) && t != u {
                                let jt = index_of(e_before, t);
                                lemma_index_of_unique(e_before, jt);
                                assert(e_after[jt].registration == e_before[jt].registration);
                                lemma_index_of_unique(e_after, jt);
                                assert(e_after[jt] == e_before[jt]);
                            }
                            lemma_bound_or_failed_kept(ipc, s_before, self@, e_start, e_before, e_after, t, now);
                        }
                    }
                    assert forall|j: int| 0 <= j < k + 1 && !s_start.bound.contains(av[j].target_id)
                        implies bound_or_failed(ipc, self@, e_start, e_after, #[trigger] av[j].target_id, now) by {
                        let t = av[j].target_id;
                        if t == u && !s_before.bound.contains(u) {
                            lemma_bound_or_failed_step(ipc, s_before, self@, e_start, e_before, e_after, u, now, bound);
                        } else if t == u {
                            assert(self@.bound.contains(u));
                        } else {
                            if has_id(e_before, t) {
                                let jt = index_of(e_before, t);
                                lemma_index_of_unique(e_before, jt);
                                assert(e_after[jt].registration == e_before[jt].registration);
                                lemma_index_of_unique(e_after, jt);
                                assert(e_after[jt] == e_before[jt]);
                            }
                            lemma_bound_or_failed_kept(ipc, s_before, self@, e_start, e_before, e_after, t, now);
                        }
                    }
                }
            }
            k = k + 1;
        }
    }

    /// Whether the session may bind targets and forward commands.
    fn ensure_control_established(&self) -> (r: RelayResult<()>)
        ensures
            control_ready(self@) ==> r is Ok,
            !control_ready(self@) ==> rv(r) == Err::<(), ErrorInfo>(session_not_established()),
    {
        if self.connection_state == ConnectionStateForSession::Established
            && self.control_state == ControlState::Established
            && self.remote_identity.is_some() {
            return Ok(());
        }
        Err(RelayError::new("session_not_established", "session", None,
            "control session must be established before IPC binding or command forwarding", false))
    }
}

} // verus!
