//! The boundary between the relay and the local IPC endpoint of a target.
//!
//! Targets answer newline-delimited JSON over a Unix domain socket. The
//! socket exchange lives with the caller; this module decides what a reply
//! means: the success payload, the structured error, and the state or command
//! result built from it.

use vstd::prelude::*;

use crate::clock::Timestamp;
use crate::command::{ControlCommandName, ControlCommandResult, PreparedCommand};
use crate::error::{err_info, opt_view, rv, ErrorInfo, RelayError, RelayResult};
use crate::text::trimmed;
use crate::registration::duplicate_opt_string;
use crate::registry::TargetProcessRegistration;

verus! {

/// The minimal state model the relay reads from a target and forwards.
#[derive(Debug, Clone, PartialEq, Eq)]
pub struct DashboardState {
    /// `target_id` is the target process identity.
    pub target_id: String,
    /// `state_generation` is the target's monotonically growing state version.
    pub state_generation: u64,
    /// `generated_at` is when the relay read the state.
    pub generated_at: Timestamp,
    /// `payload` holds the target's full supervisor tree and runtime state.
    pub payload: serde_json::Value,
}

impl DashboardState {
    /// An equal copy of the state.
    pub fn duplicate(&self) -> (r: Self)
        ensures
            r == *self,
    {
        DashboardState {
            target_id: self.target_id.clone(),
            state_generation: self.state_generation,
            generated_at: self.generated_at,
            payload: self.payload.clone(),
        }
    }
}

/// The IPC capabilities the relay needs from a target.
pub trait TargetIpcPort {
    /// Connects to the target's IPC and reads its state.
    fn connect_state(&self, registration: &TargetProcessRegistration, now: Timestamp) -> RelayResult<DashboardState>;

    /// Opens the event and log subscription on the target's IPC.
    fn subscribe_event_log(&self, registration: &TargetProcessRegistration, now: Timestamp) -> RelayResult<()>;

    /// Forwards a checked, identity-bound control command to the target.
    fn forward_command(
        &self,
        registration: &TargetProcessRegistration,
        command: &PreparedCommand,
        now: Timestamp,
    ) -> RelayResult<ControlCommandResult>;
}

/// The fields of the `error` object of a reply; each is `None` when the
/// field is missing or not of the expected JSON type.
#[derive(Debug, Clone, PartialEq, Eq)]
pub struct IpcErrorFields {
    pub code: Option<String>,
    pub stage: Option<String>,
    pub target_id: Option<String>,
    pub message: Option<String>,
    pub retryable: Option<bool>,
}

/// What the relay reads from one IPC reply.
#[derive(Debug, Clone, PartialEq, Eq)]
pub struct IpcReply {
    /// `ok` is the reply's `ok` field when it is a boolean.
    pub ok: Option<bool>,
    /// `result` is the reply's `result` field, when present.
    pub result: Option<serde_json::Value>,
    /// `error` holds the fields of the reply's `error` field, when present.
    pub error: Option<IpcErrorFields>,
}

/// What the relay reads from the result of a `state` request.
#[derive(Debug, Clone, PartialEq, Eq)]
pub struct StateReply {
    /// `target_id` is the result's `target_id` field when it is a string.
    pub target_id: Option<String>,
    /// `state` is the result's `state` field, when present.
    pub state: Option<serde_json::Value>,
    /// `state_generation` is the state's `state_generation` field when it is
    /// an unsigned integer.
    pub state_generation: Option<u64>,
}

/// The fields of the `result` object of a command reply; each is `None` when
/// the field is missing or not of the expected JSON type.
#[derive(Debug, Clone, PartialEq, Eq)]
pub struct CommandReplyFields {
    pub command_id: Option<String>,
    pub correlation_id: Option<String>,
    pub target_id: Option<String>,
    pub accepted: Option<bool>,
    pub status: Option<String>,
}

/// A text, or a default when it is missing.
pub open spec fn text_or(o: Option<String>, default: Seq<char>) -> Seq<char> {
    match o {
        Some(s) => s@,
        None => default,
    }
}

/// A text, or a default when it is missing.
pub open spec fn seq_or(o: Option<Seq<char>>, default: Seq<char>) -> Seq<char> {
    match o {
        Some(s) => s,
        None => default,
    }
}

/// The plain fields of the `error` object of a reply.
pub open spec fn error_fields_view(f: IpcErrorFields) -> (Option<Seq<char>>, Option<Seq<char>>, Option<Seq<char>>, Option<Seq<char>>, Option<bool>) {
    (opt_view(f.code), opt_view(f.stage), opt_view(f.target_id), opt_view(f.message), f.retryable)
}

/// The plain fields of a reply: `ok`, whether `result` is present, and the
/// fields of `error` when it is present.
pub open spec fn reply_fields(reply: IpcReply) -> (Option<bool>, bool, Option<(Option<Seq<char>>, Option<Seq<char>>, Option<Seq<char>>, Option<Seq<char>>, Option<bool>)>) {
    (reply.ok, reply.result is Some, match reply.error {
        Some(f) => Some(error_fields_view(f)),
        None => None,
    })
}

/// Whether a reply with these fields succeeds, else the structured error
/// taken from its `error` object.
pub open spec fn reply_fields_outcome(
    fields: (Option<bool>, bool, Option<(Option<Seq<char>>, Option<Seq<char>>, Option<Seq<char>>, Option<Seq<char>>, Option<bool>)>),
) -> Result<(), ErrorInfo> {
    if fields.0 == Some(true) {
        if fields.1 {
            Ok(())
        } else {
            Err(err_info("ipc_result_missing"@, "ipc_response"@, None,
                "IPC response did not include result"@, false))
        }
    } else {
        match fields.2 {
            Some(f) => Err(err_info(
                seq_or(f.0, "ipc_error"@),
                seq_or(f.1, "ipc_response"@),
                f.2,
                seq_or(f.3, "IPC response returned an error"@),
                f.4 == Some(true),
            )),
            None => Err(err_info("ipc_response_failed"@, "ipc_response"@, None,
                "IPC response was not successful"@, false)),
        }
    }
}

/// The meaning of an IPC reply: its `result` on success, else a structured
/// error taken from its `error` object.
pub open spec fn reply_outcome(reply: IpcReply) -> Result<serde_json::Value, ErrorInfo> {
    match reply_fields_outcome(reply_fields(reply)) {
        Ok(()) => match reply.result {
            Some(v) => Ok(v),
            None => Err(err_info("ipc_result_missing"@, "ipc_response"@, None,
                "IPC response did not include result"@, false)),
        },
        Err(e) => Err(e),
    }
}

fn text_or_default(o: Option<String>, default: &str) -> (r: String)
    ensures
        r@ == text_or(o, default@),
{
    match o {
        Some(s) => s,
        None => default.to_owned(),
    }
}

/// Reads the success payload of an IPC reply, or its structured error.
pub fn response_result(reply: IpcReply) -> (r: RelayResult<serde_json::Value>)
    ensures
        rv(r) == reply_outcome(reply),
{
    if reply.ok == Some(true) {
        return match reply.result {
            Some(v) => Ok(v),
            None => Err(RelayError::new("ipc_result_missing", "ipc_response", None,
                "IPC response did not include result", false)),
        };
    }
    match reply.error {
        Some(fields) => {
            let retryable = fields.retryable == Some(true);
            let target_id = fields.target_id;
            Err(RelayError {
                code: text_or_default(fields.code, "ipc_error"),
                stage: text_or_default(fields.stage, "ipc_response"),
                target_id,
                message: text_or_default(fields.message, "IPC response returned an error"),
                retryable,
            })
        },
        None => Err(RelayError::new("ipc_response_failed", "ipc_response", None,
            "IPC response was not successful", false)),
    }
}

/// The error for a reply line that is not JSON, with the parser's words.
pub open spec fn ipc_decode_info(detail: Seq<char>) -> ErrorInfo {
    err_info("ipc_decode_failed"@, "ipc_response"@, None, "IPC response could not be decoded: "@ + detail, false)
}

/// Builds the error for a reply line that is not JSON, with the parser's words.
pub fn ipc_decode_error(detail: &str) -> (r: RelayError)
    ensures
        r@ == ipc_decode_info(detail@),
{
    let message = crate::text::concat_str("IPC response could not be decoded: ", detail);
    RelayError::new("ipc_decode_failed", "ipc_response", None, message.as_str(), false)
}

/// What `serde_json` reads of a reply line: the parser's error words when
/// the line is not JSON, else the reply's `ok` field when it is a boolean,
/// whether it has a `result` field, and, when it has an `error` field, that
/// object's `code`, `stage`, `target_id` and `message` when they are strings
/// and its `retryable` when it is a boolean.
pub uninterp spec fn json_reply(line: Seq<char>) -> Result<(Option<bool>, bool, Option<(Option<Seq<char>>, Option<Seq<char>>, Option<Seq<char>>, Option<Seq<char>>, Option<bool>)>), Seq<char>>;

/// Parses a reply line with `serde_json::from_str` into a
/// `serde_json::Value` and reads its fields with `Value::get`,
/// `Value::pointer`, `Value::as_str` and `Value::as_bool`. The contract ties
/// the parser's error words and the fields to the line through `json_reply`;
/// it says nothing of the `result` value itself.
#[verifier::external_body]
fn parse_reply_line(line: &str) -> (r: Result<IpcReply, String>)
    ensures
        match r {
            Ok(reply) => json_reply(line@) == Ok::<_, Seq<char>>(reply_fields(reply)),
            Err(d) => json_reply(line@) == Err::<(Option<bool>, bool, Option<(Option<Seq<char>>, Option<Seq<char>>, Option<Seq<char>>, Option<Seq<char>>, Option<bool>)>), Seq<char>>(d@),
        },
{
    let v: serde_json::Value = match serde_json::from_str(line) { Ok(v) => v, Err(e) => return Err(e.to_string()) };
    let text = |p: &str| v.pointer(p).and_then(serde_json::Value::as_str).map(str::to_owned);
    let error = match v.get("error") {
        Some(_) => Some(IpcErrorFields { code: text("/error/code"), stage: text("/error/stage"),
            target_id: text("/error/target_id"), message: text("/error/message"),
            retryable: v.pointer("/error/retryable").and_then(serde_json::Value::as_bool) }),
        None => None,
    };
    Ok(IpcReply { ok: v.get("ok").and_then(serde_json::Value::as_bool), result: v.get("result").cloned(), error })
}

/// Reads one reply line: the line is trimmed and parsed as JSON; a line that
/// is not JSON is refused with the parser's words, and otherwise the reply's
/// `result` is handed back on success, else its structured error.
pub fn reply_from_line(line: &str) -> (r: RelayResult<serde_json::Value>)
    ensures
        match json_reply(trimmed(line@)) {
            Err(d) => rv(r) == Err::<serde_json::Value, ErrorInfo>(ipc_decode_info(d)),
            Ok(f) => match reply_fields_outcome(f) {
                Err(e) => rv(r) == Err::<serde_json::Value, ErrorInfo>(e),
                Ok(()) => r is Ok,
            },
        },
{
    let text = crate::text::trim_str(line);
    match parse_reply_line(text.as_str()) {
        Err(detail) => Err(ipc_decode_error(detail.as_str())),
        Ok(reply) => response_result(reply),
    }
}

/// The error for a state reply without a state payload.
pub open spec fn state_missing(target_id: Seq<char>) -> ErrorInfo {
    err_info("ipc_state_missing"@, "ipc_response"@, Some(target_id),
        "state response did not include state payload"@, false)
}

/// Builds the dashboard state from the result of a `state` request: the
/// reply's target id, else the registration's; the generation read from the
/// state, else 0; read at `now`.
pub fn dashboard_state_from_reply(
    reply: StateReply,
    registration: &TargetProcessRegistration,
    now: Timestamp,
) -> (r: RelayResult<DashboardState>)
    ensures
        match reply.state {
            None => rv(r) == Err::<DashboardState, ErrorInfo>(state_missing(registration.target_id@)),
            Some(payload) => r matches Ok(s) && s.target_id@ == text_or(reply.target_id,
                registration.target_id@) && s.state_generation == (match reply.state_generation {
                Some(g) => g,
                None => 0u64,
            }) && s.generated_at == now && s.payload == payload,
        },
{
    match reply.state {
        None => Err(RelayError::for_target("ipc_state_missing", "ipc_response",
            registration.target_id.as_str(), "state response did not include state payload", false)),
        Some(payload) => {
            let target_id = match reply.target_id {
                Some(t) => t,
                None => registration.target_id.clone(),
            };
            let state_generation = match reply.state_generation {
                Some(g) => g,
                None => 0,
            };
            Ok(DashboardState { target_id, state_generation, generated_at: now, payload })
        },
    }
}

/// The plain fields of a state result: its `target_id`, whether it has a
/// `state`, and that state's `state_generation`.
pub open spec fn state_reply_view(reply: StateReply) -> (Option<Seq<char>>, bool, Option<u64>) {
    (opt_view(reply.target_id), reply.state is Some, reply.state_generation)
}

/// What `serde_json` reads of the `result` of a state reply line: its
/// `target_id` when it is a string, whether it has a `state` field, and that
/// state's `state_generation` when it is an unsigned integer; all absent when
/// the line is not JSON.
pub uninterp spec fn json_state_result(line: Seq<char>) -> (Option<Seq<char>>, bool, Option<u64>);

/// Parses a reply line with `serde_json::from_str` and reads its
/// `result` with `Value::pointer`, `Value::as_str` and `Value::as_u64`. The
/// contract ties the fields read to the line through `json_state_result`; it
/// says nothing of the state value itself.
#[verifier::external_body]
fn parse_state_result(line: &str) -> (r: StateReply)
    ensures
        json_state_result(line@) == state_reply_view(r),
{
    let v: serde_json::Value = serde_json::from_str(line).unwrap_or(serde_json::Value::Null);
    StateReply {
        target_id: v.pointer("/result/target_id").and_then(serde_json::Value::as_str).map(str::to_owned),
        state: v.pointer("/result/state").cloned(),
        state_generation: v.pointer("/result/state/state_generation").and_then(serde_json::Value::as_u64),
    }
}

/// The outcome of a state reply, given what is read of its line: the reply's
/// own error when it failed, else the state read at `now` under the result's
/// target id (the registration's when missing) with the generation read (0
/// when missing), or the error for a result without state.
pub open spec fn state_line_outcome(
    line: Seq<char>,
    registration: TargetProcessRegistration,
    now: Timestamp,
    r: Result<DashboardState, ErrorInfo>,
) -> bool {
    match json_reply(line) {
        Err(d) => r == Err::<DashboardState, ErrorInfo>(ipc_decode_info(d)),
        Ok(f) => match reply_fields_outcome(f) {
            Err(e) => r == Err::<DashboardState, ErrorInfo>(e),
            Ok(()) => {
                let (target_id, has_state, generation) = json_state_result(line);
                if has_state {
                    r matches Ok(s) && s.target_id@ == seq_or(target_id, registration.target_id@)
                        && s.state_generation == (match generation {
                        Some(g) => g,
                        None => 0u64,
                    }) && s.generated_at == now
                } else {
                    r == Err::<DashboardState, ErrorInfo>(state_missing(registration.target_id@))
                }
            },
        },
    }
}

/// Reads the reply line of a `state` request into the target's state.
pub fn state_from_line(line: &str, registration: &TargetProcessRegistration, now: Timestamp) -> (r: RelayResult<
    DashboardState,
>)
    ensures
        state_line_outcome(trimmed(line@), *registration, now, rv(r)),
{
    let text = crate::text::trim_str(line);
    match parse_reply_line(text.as_str()) {
        Err(detail) => Err(ipc_decode_error(detail.as_str())),
        Ok(reply) => match response_result(reply) {
            Err(e) => Err(e),
            Ok(_) => dashboard_state_from_reply(parse_state_result(text.as_str()), registration, now),
        },
    }
}

/// The error for a command reply without a result payload.
pub open spec fn command_result_missing(target_id: Seq<char>) -> ErrorInfo {
    err_info("ipc_command_result_missing"@, "ipc_response"@, Some(target_id),
        "command response did not include result payload"@, false)
}

/// Builds the command result from a command reply. Fields the target left
/// out default to the command's own, the target is taken not to have
/// accepted, the status to be `failed`; `requested_by` is always the
/// relay-derived identity and the result completes at `now`.
pub fn command_result_from_reply(
    reply: Option<CommandReplyFields>,
    command: &PreparedCommand,
    now: Timestamp,
) -> (r: RelayResult<ControlCommandResult>)
    ensures
        match reply {
            None => rv(r) == Err::<ControlCommandResult, ErrorInfo>(command_result_missing(command.target_id@)),
            Some(f) => r matches Ok(res)
                && res.command_id@ == text_or(f.command_id, command.command_id@)
                && opt_view(res.correlation_id) == (match f.correlation_id {
                    Some(c) => Some(c@),
                    None => opt_view(command.correlation_id),
                })
                && res.target_id@ == text_or(f.target_id, command.target_id@)
                && res.accepted == (f.accepted == Some(true))
                && res.status@ == text_or(f.status, "failed"@)
                && res.requested_by == command.requested_by
                && res.completed_at == now,
        },
{
    match reply {
        None => Err(RelayError::for_target("ipc_command_result_missing", "ipc_response",
            command.target_id.as_str(), "command response did not include result payload", false)),
        Some(fields) => {
            let command_id = match fields.command_id {
                Some(c) => c,
                None => command.command_id.clone(),
            };
            let correlation_id = match fields.correlation_id {
                Some(c) => Some(c),
                None => duplicate_opt_string(&command.correlation_id),
            };
            let target_id = match fields.target_id {
                Some(t) => t,
                None => command.target_id.clone(),
            };
            let accepted = fields.accepted == Some(true);
            let status = text_or_default(fields.status, "failed");
            Ok(ControlCommandResult {
                command_id,
                correlation_id,
                target_id,
                accepted,
                status,
                requested_by: command.requested_by.clone(),
                completed_at: now,
            })
        },
    }
}

/// The plain fields of a command reply's `result` object.
pub open spec fn command_fields_view(f: CommandReplyFields) -> (Option<Seq<char>>, Option<Seq<char>>, Option<Seq<char>>, Option<bool>, Option<Seq<char>>) {
    (opt_view(f.command_id), opt_view(f.correlation_id), opt_view(f.target_id), f.accepted, opt_view(f.status))
}

/// What `serde_json` reads of a command reply line: when its `result` has a
/// `result` object, that object's `command_id`, `correlation_id`,
/// `target_id` and `status` when they are strings and its `accepted` when it
/// is a boolean; nothing when the line is not JSON.
pub uninterp spec fn json_command_result(line: Seq<char>) -> Option<(Option<Seq<char>>, Option<Seq<char>>, Option<Seq<char>>, Option<bool>, Option<Seq<char>>)>;

/// Parses a reply line with `serde_json::from_str` and reads the
/// `result` of its `result` with `Value::pointer`, `Value::as_str` and
/// `Value::as_bool`. The contract ties the fields read to the line through
/// `json_command_result`.
#[verifier::external_body]
fn parse_command_result(line: &str) -> (r: Option<CommandReplyFields>)
    ensures
        json_command_result(line@) == (match r {
            Some(f) => Some(command_fields_view(f)),
            None => None,
        }),
{
    let v: serde_json::Value = serde_json::from_str(line).unwrap_or(serde_json::Value::Null);
    let text = |p: &str| v.pointer(p).and_then(serde_json::Value::as_str).map(str::to_owned);
    match v.pointer("/result/result") {
        Some(_) => Some(CommandReplyFields { command_id: text("/result/result/command_id"),
            correlation_id: text("/result/result/correlation_id"), target_id: text("/result/result/target_id"),
            accepted: v.pointer("/result/result/accepted").and_then(serde_json::Value::as_bool),
            status: text("/result/result/status") }),
        None => None,
    }
}

/// The outcome of a command reply, given what is read of its line: the
/// reply's own error when it failed, else the command result built from the
/// fields read, with the command's own where the target left them out.
pub open spec fn command_line_outcome(
    line: Seq<char>,
    command: PreparedCommand,
    now: Timestamp,
    r: Result<ControlCommandResult, ErrorInfo>,
) -> bool {
    match json_reply(line) {
        Err(d) => r == Err::<ControlCommandResult, ErrorInfo>(ipc_decode_info(d)),
        Ok(f) => match reply_fields_outcome(f) {
            Err(e) => r == Err::<ControlCommandResult, ErrorInfo>(e),
            Ok(()) => match json_command_result(line) {
                None => r == Err::<ControlCommandResult, ErrorInfo>(command_result_missing(command.target_id@)),
                Some(c) => r matches Ok(res)
                    && res.command_id@ == seq_or(c.0, command.command_id@)
                    && opt_view(res.correlation_id) == (match c.1 {
                        Some(x) => Some(x),
                        None => opt_view(command.correlation_id),
                    })
                    && res.target_id@ == seq_or(c.2, command.target_id@)
                    && res.accepted == (c.3 == Some(true))
                    && res.status@ == seq_or(c.4, "failed"@)
                    && res.requested_by == command.requested_by
                    && res.completed_at == now,
            },
        },
    }
}

/// Reads the reply line of a forwarded command into the command's result.
pub fn command_result_from_line(line: &str, command: &PreparedCommand, now: Timestamp) -> (r: RelayResult<
    ControlCommandResult,
>)
    ensures
        command_line_outcome(trimmed(line@), *command, now, rv(r)),
{
    let text = crate::text::trim_str(line);
    match parse_reply_line(text.as_str()) {
        Err(detail) => Err(ipc_decode_error(detail.as_str())),
        Ok(reply) => match response_result(reply) {
            Err(e) => Err(e),
            Ok(_) => command_result_from_reply(parse_command_result(text.as_str()), command, now),
        },
    }
}

/// The IPC method that carries a control command.
pub open spec fn method_of(c: ControlCommandName) -> Seq<char> {
    match c {
        ControlCommandName::RestartChild => "command.restart_child"@,
        ControlCommandName::PauseChild => "command.pause_child"@,
        ControlCommandName::ResumeChild => "command.resume_child"@,
        ControlCommandName::QuarantineChild => "command.quarantine_child"@,
        ControlCommandName::RemoveChild => "command.remove_child"@,
        ControlCommandName::AddChild => "command.add_child"@,
        ControlCommandName::ShutdownTree => "command.shutdown_tree"@,
    }
}

/// Returns the IPC method name of a control command.
pub fn command_method(command: ControlCommandName) -> (r: &'static str)
    ensures
        r@ == method_of(command),
{
    match command {
        ControlCommandName::RestartChild => "command.restart_child",
        ControlCommandName::PauseChild => "command.pause_child",
        ControlCommandName::ResumeChild => "command.resume_child",
        ControlCommandName::QuarantineChild => "command.quarantine_child",
        ControlCommandName::RemoveChild => "command.remove_child",
        ControlCommandName::AddChild => "command.add_child",
        ControlCommandName::ShutdownTree => "command.shutdown_tree",
    }
}

} // verus!
