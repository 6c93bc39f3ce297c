//! Fan-out of target events, logs, state changes and diagnostics to a
//! session, by the targets it has bound.
//!
//! This module never talks to target IPC; it only dispatches messages.

use vstd::prelude::*;

use crate::clock::Timestamp;
use crate::error::RelayResult;
use crate::registry::{has_id, index_of, is_marked, keeps_registrations, ConnectionState, TargetProcessRegistry};
use crate::session::{
    connection_outcome, delta_outcome, dropped_outcome, event_outcome, log_outcome, DashboardSession, EventRecord,
    LogRecord, ServerMessage,
};

verus! {

/// Whether an event record carries the given fields.
pub open spec fn is_event_record(
    e: EventRecord,
    target_id: Seq<char>,
    sequence: u64,
    event_type: Seq<char>,
    severity: Seq<char>,
    occurred_at: Timestamp,
) -> bool {
    &&& e.target_id@ == target_id
    &&& e.sequence == sequence
    &&& e.event_type@ == event_type
    &&& e.severity@ == severity
    &&& e.occurred_at == occurred_at
}

/// Whether a log record carries the given fields.
pub open spec fn is_log_record(
    l: LogRecord,
    target_id: Seq<char>,
    sequence: Option<u64>,
    severity: Seq<char>,
    message: Seq<char>,
    occurred_at: Timestamp,
) -> bool {
    &&& l.target_id@ == target_id
    &&& l.sequence == sequence
    &&& l.severity@ == severity
    &&& l.message@ == message
    &&& l.occurred_at == occurred_at
}

/// The message the relay records when a target's reconnection times out.
pub open spec fn reconnect_timeout_reason() -> Seq<char> {
    "reconnect timeout after 10 seconds"@
}

/// The fan-out boundary.
pub struct RelayHub;

impl RelayHub {
    /// Fans out a target event.
    pub fn fan_out_event(
        session: &mut DashboardSession,
        target_id: &str,
        sequence: u64,
        event_type: &str,
        severity: &str,
        occurred_at: Timestamp,
    ) -> (r: RelayResult<Vec<ServerMessage>>)
        requires
            old(session).wf(),
        ensures
            final(session).wf(),
            r matches Ok(msgs) && exists|e: EventRecord| #[trigger] is_event_record(e, target_id@, sequence, event_type@,
                severity@, occurred_at) && event_outcome(old(session)@, final(session)@, e, msgs@),
    {
        let event = EventRecord {
            target_id: target_id.to_owned(),
            sequence,
            event_type: event_type.to_owned(),
            severity: severity.to_owned(),
            occurred_at,
        };
        let ghost e = event;
        let r = session.accept_event(event);
        assert(is_event_record(e, target_id@, sequence, event_type@, severity@, occurred_at));
        r
    }

    /// Fans out a target log.
    pub fn fan_out_log(
        session: &mut DashboardSession,
        target_id: &str,
        sequence: Option<u64>,
        severity: &str,
        message: &str,
        occurred_at: Timestamp,
    ) -> (r: RelayResult<Vec<ServerMessage>>)
        requires
            old(session).wf(),
        ensures
            final(session).wf(),
            r matches Ok(msgs) && exists|l: LogRecord| #[trigger] is_log_record(l, target_id@, sequence, severity@,
                message@, occurred_at) && log_outcome(old(session)@, final(session)@, l, msgs@),
    {
        let log = LogRecord {
            target_id: target_id.to_owned(),
            sequence,
            severity: severity.to_owned(),
            message: message.to_owned(),
            occurred_at,
        };
        let ghost l = log;
        let r = session.accept_log(log);
        assert(is_log_record(l, target_id@, sequence, severity@, message@, occurred_at));
        r
    }

    /// Fans out a target state change.
    pub fn fan_out_state_delta(
        session: &mut DashboardSession,
        target_id: &str,
        delta: serde_json::Value,
    ) -> (r: RelayResult<Vec<ServerMessage>>)
        requires
            old(session).wf(),
        ensures
            final(session).wf(),
            r matches Ok(msgs) && delta_outcome(old(session)@, final(session)@, target_id@, delta, msgs@),
    {
        session.accept_state_delta(target_id, delta)
    }

    /// Fans out a dropped-count diagnostic.
    pub fn fan_out_dropped_count(
        session: &mut DashboardSession,
        target_id: &str,
        dropped_event_count: u64,
    ) -> (r: RelayResult<Vec<ServerMessage>>)
        requires
            old(session).wf(),
        ensures
            final(session).wf(),
            r matches Ok(msgs) && dropped_outcome(old(session)@, final(session)@, target_id@, dropped_event_count,
                msgs@),
    {
        session.accept_dropped_count(target_id, dropped_event_count)
    }

    /// Handles a reconnect timeout: the target's IPC is marked unavailable
    /// and a session that bound the target is told so.
    pub fn reconnect_timeout(
        session: &mut DashboardSession,
        registry: &mut TargetProcessRegistry,
        target_id: &str,
        now: Timestamp,
    ) -> (r: RelayResult<Vec<ServerMessage>>)
        requires
            old(session).wf(),
            old(registry).wf(),
        ensures
            final(session).wf(),
            final(registry).wf(),
            final(registry).policy() == old(registry).policy(),
            keeps_registrations(old(registry).entries(), final(registry).entries()),
            !has_id(old(registry).entries(), target_id@) ==> final(registry).entries() == old(registry).entries(),
            has_id(old(registry).entries(), target_id@) ==> ({
                let i = index_of(old(registry).entries(), target_id@);
                &&& final(registry).entries() == old(registry).entries().update(i, final(registry).entries()[i])
                &&& is_marked(old(registry).entries()[i], final(registry).entries()[i], ConnectionState::Unavailable,
                    reconnect_timeout_reason(), now)
            }),
            r matches Ok(msgs) && connection_outcome(old(session)@, final(session)@, target_id@,
                ConnectionState::Unavailable, msgs@),
    {
        let ghost e0 = registry.entries();
        registry.mark_unavailable(target_id, "reconnect timeout after 10 seconds", now);
        proof {
            if has_id(e0, target_id@) {
                let i = index_of(e0, target_id@);
                assert(registry.entries() =~= e0.update(i, registry.entries()[i]));
            }
        }
        session.accept_connection_state(target_id, ConnectionState::Unavailable)
    }
}

} // verus!
