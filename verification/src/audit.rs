//! The audit trail of control commands: accepted, rejected and completed.
//!
//! Events stay in memory and can be forwarded through the event stream.

use vstd::prelude::*;

use crate::auth::RemoteIdentity;
use crate::clock::Timestamp;
use crate::command::{debug_name_of, PreparedCommand};

verus! {

/// The stage of a command that an audit event records.
#[derive(Debug, Clone, Copy, PartialEq, Eq, Structural)]
pub enum AuditResult {
    /// The relay accepted the command and is forwarding it.
    Accepted,
    /// The relay or the target refused the command.
    Rejected,
    /// The target returned a result.
    Completed,
}

/// The identity, target, reason and result of a control command.
#[derive(Debug, Clone, PartialEq, Eq)]
pub struct AuditEvent {
    /// `audit_id` is a unique identifier generated by the relay.
    pub audit_id: uuid::Uuid,
    pub identity_principal: String,
    pub target_id: String,
    pub command_id: String,
    /// `command` is the command's variant name.
    pub command: String,
    /// `target` is the child path the command acts on.
    pub target: Option<String>,
    pub reason: String,
    pub result: AuditResult,
    /// `detail` holds the refusal reason or the completion summary.
    pub detail: String,
    pub occurred_at: Timestamp,
}

/// Whether an event audits a command at a stage.
pub open spec fn is_audit_of(
    ev: AuditEvent,
    identity: RemoteIdentity,
    command: PreparedCommand,
    result: AuditResult,
    detail: Seq<char>,
    now: Timestamp,
) -> bool {
    &&& ev.identity_principal == identity.principal
    &&& ev.target_id == command.target_id
    &&& ev.command_id == command.command_id
    &&& ev.command@ == debug_name_of(command.command)
    &&& ev.target == command.target.child_path
    &&& ev.reason == command.reason
    &&& ev.result == result
    &&& ev.detail@ == detail
    &&& ev.occurred_at == now
}

/// Keeps audit events in memory, in the order they were written.
#[derive(Debug)]
pub struct AuditRecorder {
    events: Vec<AuditEvent>,
}

impl Default for AuditRecorder {
    fn default() -> (r: Self)
        ensures
            r.events_view().len() == 0,
    {
        AuditRecorder { events: Vec::new() }
    }
}

impl AuditRecorder {
    /// The recorded events, oldest first.
    pub closed spec fn events_view(&self) -> Seq<AuditEvent> {
        self.events@
    }

    /// An empty recorder.
    pub fn new() -> (r: Self)
        ensures
            r.events_view().len() == 0,
    {
        AuditRecorder { events: Vec::new() }
    }

    /// Records that a command was accepted.
    pub fn record_accepted(&mut self, identity: &RemoteIdentity, command: &PreparedCommand, now: Timestamp)
        ensures
            final(self).events_view().len() == old(self).events_view().len() + 1,
            final(self).events_view().drop_last() == old(self).events_view(),
            is_audit_of(final(self).events_view().last(), *identity, *command, AuditResult::Accepted, "accepted"@, now),
    {
        self.record(identity, command, AuditResult::Accepted, "accepted", now);
    }

    /// Records that a command was rejected, with the reason.
    pub fn record_rejected(&mut self, identity: &RemoteIdentity, command: &PreparedCommand, detail: &str, now: Timestamp)
        ensures
            final(self).events_view().len() == old(self).events_view().len() + 1,
            final(self).events_view().drop_last() == old(self).events_view(),
            is_audit_of(final(self).events_view().last(), *identity, *command, AuditResult::Rejected, detail@, now),
    {
        self.record(identity, command, AuditResult::Rejected, detail, now);
    }

    /// Records that a command completed, with the summary.
    pub fn record_completed(&mut self, identity: &RemoteIdentity, command: &PreparedCommand, detail: &str, now: Timestamp)
        ensures
            final(self).events_view().len() == old(self).events_view().len() + 1,
            final(self).events_view().drop_last() == old(self).events_view(),
            is_audit_of(final(self).events_view().last(), *identity, *command, AuditResult::Completed, detail@, now),
    {
        self.record(identity, command, AuditResult::Completed, detail, now);
    }

    /// The recorded events, oldest first.
    pub fn events(&self) -> (r: &[AuditEvent])
        ensures
            r@ == self.events_view(),
    {
        self.events.as_slice()
    }

    fn record(&mut self, identity: &RemoteIdentity, command: &PreparedCommand, result: AuditResult, detail: &str, now: Timestamp)
        ensures
            final(self).events_view() == old(self).events_view().push(final(self).events_view().last()),
            is_audit_of(final(self).events_view().last(), *identity, *command, result, detail@, now),
    {
        let target = match &command.target.child_path {
            Some(path) => Some(path.clone()),
            None => None,
        };
        self.events.push(AuditEvent {
            audit_id: crate::opaque::new_uuid(),
            identity_principal: identity.principal.clone(),
            target_id: command.target_id.clone(),
            command_id: command.command_id.clone(),
            command: command.command.debug_name().to_owned(),
            target,
            reason: command.reason.clone(),
            result,
            detail: detail.to_owned(),
            occurred_at: now,
        });
    }
}

} // verus!
