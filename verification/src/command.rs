//! Validation of control commands sent by the dashboard.
//!
//! The relay derives `requested_by` itself, rejects historical command
//! aliases, and refuses dangerous commands that lack confirmation.

use vstd::prelude::*;

use crate::auth::RemoteIdentity;
use crate::clock::Timestamp;
use crate::error::{err_info, rv, ErrorInfo, RelayError, RelayResult};
use crate::text::is_blank;

verus! {

/// The control commands the relay accepts.
#[derive(Debug, Clone, Copy, PartialEq, Eq, Structural)]
pub enum ControlCommandName {
    /// Restarts one child task.
    RestartChild,
    /// Pauses one child task.
    PauseChild,
    /// Resumes one child task.
    ResumeChild,
    /// Quarantines one child task.
    QuarantineChild,
    /// Removes one child task.
    RemoveChild,
    /// Adds one child task.
    AddChild,
    /// Shuts down the whole supervisor tree.
    ShutdownTree,
}

/// The wire name of a command.
pub open spec fn wire_name_of(c: ControlCommandName) -> Seq<char> {
    match c {
        ControlCommandName::RestartChild => "restart_child"@,
        ControlCommandName::PauseChild => "pause_child"@,
        ControlCommandName::ResumeChild => "resume_child"@,
        ControlCommandName::QuarantineChild => "quarantine_child"@,
        ControlCommandName::RemoveChild => "remove_child"@,
        ControlCommandName::AddChild => "add_child"@,
        ControlCommandName::ShutdownTree => "shutdown_tree"@,
    }
}

/// The command whose wire name is the text, if any.
pub open spec fn command_from_wire(v: Seq<char>) -> Option<ControlCommandName> {
    if v == "restart_child"@ {
        Some(ControlCommandName::RestartChild)
    } else if v == "pause_child"@ {
        Some(ControlCommandName::PauseChild)
    } else if v == "resume_child"@ {
        Some(ControlCommandName::ResumeChild)
    } else if v == "quarantine_child"@ {
        Some(ControlCommandName::QuarantineChild)
    } else if v == "remove_child"@ {
        Some(ControlCommandName::RemoveChild)
    } else if v == "add_child"@ {
        Some(ControlCommandName::AddChild)
    } else if v == "shutdown_tree"@ {
        Some(ControlCommandName::ShutdownTree)
    } else {
        None
    }
}

/// The outcome of reading a command name from the wire.
pub open spec fn wire_parse(v: Seq<char>) -> Result<ControlCommandName, ErrorInfo> {
    match command_from_wire(v) {
        Some(c) => Ok(c),
        None => Err(err_info("unsupported_method"@, "command_parse"@, None,
            "unknown command or historical command alias is not supported"@, false)),
    }
}

/// Dangerous commands need a second confirmation.
pub open spec fn needs_confirmation(c: ControlCommandName) -> bool {
    c == ControlCommandName::ShutdownTree || c == ControlCommandName::RemoveChild
        || c == ControlCommandName::AddChild
}

/// The name `{:?}` prints for a command.
pub open spec fn debug_name_of(c: ControlCommandName) -> Seq<char> {
    match c {
        ControlCommandName::RestartChild => "RestartChild"@,
        ControlCommandName::PauseChild => "PauseChild"@,
        ControlCommandName::ResumeChild => "ResumeChild"@,
        ControlCommandName::QuarantineChild => "QuarantineChild"@,
        ControlCommandName::RemoveChild => "RemoveChild"@,
        ControlCommandName::AddChild => "AddChild"@,
        ControlCommandName::ShutdownTree => "ShutdownTree"@,
    }
}

impl ControlCommandName {
    /// Reads a command name from the wire; historical aliases and unknown
    /// names are refused.
    pub fn from_wire(value: &str) -> (r: RelayResult<Self>)
        ensures
            rv(r) == wire_parse(value@),
    {
        if crate::text::str_eq(value, "restart_child") {
            Ok(ControlCommandName::RestartChild)
        } else if crate::text::str_eq(value, "pause_child") {
            Ok(ControlCommandName::PauseChild)
        } else if crate::text::str_eq(value, "resume_child") {
            Ok(ControlCommandName::ResumeChild)
        } else if crate::text::str_eq(value, "quarantine_child") {
            Ok(ControlCommandName::QuarantineChild)
        } else if crate::text::str_eq(value, "remove_child") {
            Ok(ControlCommandName::RemoveChild)
        } else if crate::text::str_eq(value, "add_child") {
            Ok(ControlCommandName::AddChild)
        } else if crate::text::str_eq(value, "shutdown_tree") {
            Ok(ControlCommandName::ShutdownTree)
        } else {
            Err(RelayError::new("unsupported_method", "command_parse", None,
                "unknown command or historical command alias is not supported", false))
        }
    }

    /// The stable wire name of the command.
    pub fn wire_name(self) -> (r: &'static str)
        ensures
            r@ == wire_name_of(self),
    {
        match self {
            ControlCommandName::RestartChild => "restart_child",
            ControlCommandName::PauseChild => "pause_child",
            ControlCommandName::ResumeChild => "resume_child",
            ControlCommandName::QuarantineChild => "quarantine_child",
            ControlCommandName::RemoveChild => "remove_child",
            ControlCommandName::AddChild => "add_child",
            ControlCommandName::ShutdownTree => "shutdown_tree",
        }
    }

    /// Whether the command is dangerous and needs `confirmed=true`.
    pub fn requires_confirmation(self) -> (r: bool)
        ensures
            r == needs_confirmation(self),
    {
        match self {
            ControlCommandName::ShutdownTree | ControlCommandName::RemoveChild
            | ControlCommandName::AddChild => true,
            _ => false,
        }
    }

    /// The variant name, as `{:?}` prints it.
    pub fn debug_name(self) -> (r: &'static str)
        ensures
            r@ == debug_name_of(self),
    {
        match self {
            ControlCommandName::RestartChild => "RestartChild",
            ControlCommandName::PauseChild => "PauseChild",
            ControlCommandName::ResumeChild => "ResumeChild",
            ControlCommandName::QuarantineChild => "QuarantineChild",
            ControlCommandName::RemoveChild => "RemoveChild",
            ControlCommandName::AddChild => "AddChild",
            ControlCommandName::ShutdownTree => "ShutdownTree",
        }
    }
}

/// Every command's wire name reads back as that command, and a name that
/// reads as a command is that command's wire name.
pub proof fn lemma_wire_name_round_trip(c: ControlCommandName, v: Seq<char>)
    ensures
        command_from_wire(wire_name_of(c)) == Some(c),
        command_from_wire(v) == Some(c) ==> wire_name_of(c) == v,
{
    reveal_strlit("restart_child");
    reveal_strlit("pause_child");
    reveal_strlit("resume_child");
    reveal_strlit("quarantine_child");
    reveal_strlit("remove_child");
    reveal_strlit("add_child");
    reveal_strlit("shutdown_tree");
    assert("restart_child"@.len() == 13);
    assert("pause_child"@.len() == 11);
    assert("resume_child"@.len() == 12);
    assert("quarantine_child"@.len() == 16);
    assert("remove_child"@.len() == 12);
    assert("add_child"@.len() == 9);
    assert("shutdown_tree"@.len() == 13);
    assert("restart_child"@[0] != "shutdown_tree"@[0]);
    assert("resume_child"@[2] != "remove_child"@[2]);
    match c {
        ControlCommandName::RestartChild => {
            assert(c == ControlCommandName::RestartChild);
            assert(wire_name_of(c) == "restart_child"@);
            assert(command_from_wire(wire_name_of(c)) == Some(ControlCommandName::RestartChild));
        },
        ControlCommandName::PauseChild => { assert(command_from_wire(wire_name_of(c)) == Some(c)); },
        ControlCommandName::ResumeChild => { assert(command_from_wire(wire_name_of(c)) == Some(c)); },
        ControlCommandName::QuarantineChild => { assert(command_from_wire(wire_name_of(c)) == Some(c)); },
        ControlCommandName::RemoveChild => { assert(command_from_wire(wire_name_of(c)) == Some(c)); },
        ControlCommandName::AddChild => { assert(command_from_wire(wire_name_of(c)) == Some(c)); },
        ControlCommandName::ShutdownTree => { assert(command_from_wire(wire_name_of(c)) == Some(c)); },
    }
}

/// The child path that a control command acts on.
#[derive(Debug, Clone, PartialEq, Eq)]
pub struct CommandTarget {
    /// `child_path` is the path of the child task; empty when shutting down the tree.
    pub child_path: Option<String>,
}

/// A raw control message from the dashboard.
#[derive(Debug, Clone, PartialEq, Eq)]
pub struct ClientCommand {
    /// `command_id` is the client-generated idempotency key.
    pub command_id: String,
    /// `correlation_id` is only used for tracing or display.
    pub correlation_id: Option<String>,
    /// `target_id` is the target process identity.
    pub target_id: String,
    /// `command` is the requested control command.
    pub command: ControlCommandName,
    /// `target` is the child task or tree the command acts on.
    pub target: CommandTarget,
    /// `reason` is the operator's non-blank reason.
    pub reason: String,
    /// `confirmed` says whether a dangerous command was confirmed.
    pub confirmed: bool,
    /// `requested_by` must not be supplied by clients.
    pub requested_by: Option<String>,
}

/// A command checked by the relay and bound to the caller's identity.
#[derive(Debug, Clone, PartialEq, Eq)]
pub struct PreparedCommand {
    pub command_id: String,
    pub correlation_id: Option<String>,
    pub target_id: String,
    pub command: ControlCommandName,
    pub target: CommandTarget,
    pub reason: String,
    /// `requested_by` is derived by the relay from the remote identity.
    pub requested_by: String,
    pub confirmed: bool,
    /// `requested_at` is when the relay accepted the command.
    pub requested_at: Timestamp,
}

/// The execution result returned by target IPC.
#[derive(Debug, Clone, PartialEq, Eq)]
pub struct ControlCommandResult {
    pub command_id: String,
    pub correlation_id: Option<String>,
    pub target_id: String,
    /// `accepted` says whether the target accepted the command.
    pub accepted: bool,
    /// `status` is accepted, rejected, completed or failed.
    pub status: String,
    /// `requested_by` is the identity derived by the relay.
    pub requested_by: String,
    pub completed_at: Timestamp,
}

impl ControlCommandResult {
    /// An equal copy of the result.
    pub fn duplicate(&self) -> (r: Self)
        ensures
            r == *self,
    {
        ControlCommandResult {
            command_id: self.command_id.clone(),
            correlation_id: match &self.correlation_id {
                Some(c) => Some(c.clone()),
                None => None,
            },
            target_id: self.target_id.clone(),
            accepted: self.accepted,
            status: self.status.clone(),
            requested_by: self.requested_by.clone(),
            completed_at: self.completed_at,
        }
    }
}

/// The refusal, if any, of a client command.
pub open spec fn command_refusal(c: ClientCommand) -> Option<ErrorInfo> {
    if is_blank(c.command_id@) {
        Some(err_info("invalid_message_schema"@, "command_validate"@, Some(c.target_id@),
            "command_id must not be empty"@, false))
    } else if c.requested_by is Some {
        Some(err_info("requested_by_override"@, "command_validate"@, Some(c.target_id@),
            "client must not provide requested_by"@, false))
    } else if is_blank(c.reason@) {
        Some(err_info("empty_reason"@, "command_validate"@, Some(c.target_id@),
            "command reason must not be empty"@, false))
    } else if needs_confirmation(c.command) && !c.confirmed {
        Some(err_info("confirmation_required"@, "command_validate"@, Some(c.target_id@),
            "dangerous command requires confirmed=true"@, false))
    } else {
        None
    }
}

/// The prepared form of an accepted command.
pub open spec fn prepared_from(c: ClientCommand, principal: String, now: Timestamp) -> PreparedCommand {
    PreparedCommand {
        command_id: c.command_id,
        correlation_id: c.correlation_id,
        target_id: c.target_id,
        command: c.command,
        target: c.target,
        reason: c.reason,
        requested_by: principal,
        confirmed: c.confirmed,
        requested_at: now,
    }
}

/// Checks a client command and derives `requested_by` from the identity.
pub fn prepare_client_command(command: ClientCommand, identity: &RemoteIdentity, now: Timestamp) -> (r: RelayResult<PreparedCommand>)
    ensures
        match command_refusal(command) {
            Some(e) => rv(r) == Err::<PreparedCommand, ErrorInfo>(e),
            None => r == Ok::<PreparedCommand, RelayError>(prepared_from(command, identity.principal, now)),
        },
{
    if crate::text::is_blank_str(command.command_id.as_str()) {
        return Err(RelayError::for_target("invalid_message_schema", "command_validate",
            command.target_id.as_str(), "command_id must not be empty", false));
    }
    if command.requested_by.is_some() {
        return Err(RelayError::for_target("requested_by_override", "command_validate",
            command.target_id.as_str(), "client must not provide requested_by", false));
    }
    if crate::text::is_blank_str(command.reason.as_str()) {
        return Err(RelayError::for_target("empty_reason", "command_validate",
            command.target_id.as_str(), "command reason must not be empty", false));
    }
    if command.command.requires_confirmation() && !command.confirmed {
        return Err(RelayError::for_target("confirmation_required", "command_validate",
            command.target_id.as_str(), "dangerous command requires confirmed=true", false));
    }
    Ok(PreparedCommand {
        command_id: command.command_id,
        correlation_id: command.correlation_id,
        target_id: command.target_id,
        command: command.command,
        target: command.target,
        reason: command.reason,
        requested_by: identity.principal.clone(),
        confirmed: command.confirmed,
        requested_at: now,
    })
}

} // verus!
