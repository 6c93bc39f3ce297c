use std::cell::RefCell;

use rust_supervisor_relay::audit::{AuditRecorder, AuditResult};
use rust_supervisor_relay::auth::{AuthContext, RemoteIdentity};
use rust_supervisor_relay::clock::Timestamp;
use rust_supervisor_relay::command::{
    ClientCommand, CommandTarget, ControlCommandName, ControlCommandResult, PreparedCommand,
};
use rust_supervisor_relay::config::{IpAddress, RegistrationPolicy, TrustedProxyConfig};
use rust_supervisor_relay::error::{RelayError, RelayResult};
use rust_supervisor_relay::ipc_client::{
    command_result_from_reply, dashboard_state_from_reply, CommandReplyFields, DashboardState, StateReply,
    TargetIpcPort,
};
use rust_supervisor_relay::registration::{RegistrationRequest, SupportedCommand};
use rust_supervisor_relay::registry::{IpcPathProbe, TargetProcessRegistration, TargetProcessRegistry};
use rust_supervisor_relay::session::{DashboardSession, TransportSecurity};

/// A target that answers every request and records the commands it receives.
#[derive(Default)]
struct RecordingIpcClient {
    commands: RefCell<Vec<String>>,
}

impl RecordingIpcClient {
    fn total_command_count(&self) -> usize {
        self.commands.borrow().len()
    }

    fn command_count(&self, target_id: &str) -> usize {
        self.commands.borrow().iter().filter(|t| t.as_str() == target_id).count()
    }
}

impl TargetIpcPort for RecordingIpcClient {
    fn connect_state(&self, registration: &TargetProcessRegistration, now: Timestamp) -> RelayResult<DashboardState> {
        let reply = StateReply {
            target_id: Some(registration.target_id.clone()),
            state: Some(serde_json::from_str(r#"{"state_generation":42}"#).expect("state should parse")),
            state_generation: Some(42),
        };
        dashboard_state_from_reply(reply, registration, now)
    }

    fn subscribe_event_log(&self, _registration: &TargetProcessRegistration, _now: Timestamp) -> RelayResult<()> {
        Ok(())
    }

    fn forward_command(
        &self,
        _registration: &TargetProcessRegistration,
        command: &PreparedCommand,
        now: Timestamp,
    ) -> RelayResult<ControlCommandResult> {
        self.commands.borrow_mut().push(command.target_id.clone());
        let fields = CommandReplyFields {
            command_id: Some(command.command_id.clone()),
            correlation_id: None,
            target_id: Some(command.target_id.clone()),
            accepted: Some(true),
            status: Some("completed".to_owned()),
        };
        command_result_from_reply(Some(fields), command, now)
    }
}

/// A target whose command endpoint always fails.
struct FailingIpcClient;

impl TargetIpcPort for FailingIpcClient {
    fn connect_state(&self, registration: &TargetProcessRegistration, now: Timestamp) -> RelayResult<DashboardState> {
        RecordingIpcClient::default().connect_state(registration, now)
    }

    fn subscribe_event_log(&self, _registration: &TargetProcessRegistration, _now: Timestamp) -> RelayResult<()> {
        Ok(())
    }

    fn forward_command(
        &self,
        _registration: &TargetProcessRegistration,
        _command: &PreparedCommand,
        _now: Timestamp,
    ) -> RelayResult<ControlCommandResult> {
        Err(RelayError::new("ipc_write_failed", "ipc_request", None, "IPC request could not be written", true))
    }
}

fn registry() -> TargetProcessRegistry {
    let policy = RegistrationPolicy {
        listen_path: "/run/rust-supervisor/dashboard-relay-registration.sock".to_owned(),
        permissions: "0600".to_owned(),
        allowed_ipc_path_prefixes: vec!["/run/rust-supervisor/".to_owned()],
        default_lease_seconds: 30,
        max_lease_seconds: 120,
    };
    let mut registry = TargetProcessRegistry::new(policy);
    let probe = IpcPathProbe { is_symlink: false, canonical_parent: Ok("/run/rust-supervisor".to_owned()) };
    registry
        .register(
            RegistrationRequest::new(
                "payments-worker-a",
                "payments worker a",
                "/run/rust-supervisor/payments-worker-a.sock",
                30,
                vec![SupportedCommand::new("restart_child", false, 30)],
            ),
            "uid:501".to_owned(),
            &probe,
            Timestamp::unix_epoch(),
        )
        .expect("registration should pass");
    registry
}

fn identity() -> RemoteIdentity {
    RemoteIdentity::from_verified_mtls_subject(
        "CN=operator@example.test",
        "CN=operators-ca",
        "01",
        Timestamp::unix_epoch(),
        Timestamp::from_unix_seconds(3600),
        Timestamp::unix_epoch(),
    )
    .expect("identity should validate")
}

fn restart_command() -> ClientCommand {
    ClientCommand {
        command_id: "cmd-1".to_owned(),
        correlation_id: None,
        target_id: "payments-worker-a".to_owned(),
        command: ControlCommandName::RestartChild,
        target: CommandTarget { child_path: Some("/root/payment_loop".to_owned()) },
        reason: "operator requested restart after upstream recovery".to_owned(),
        confirmed: false,
        requested_by: None,
    }
}

#[test]
fn ws_transport_cannot_establish_full_control_session() {
    let registry = registry();
    let error = DashboardSession::establish(identity(), &registry, TransportSecurity::Ws, Timestamp::unix_epoch())
        .expect_err("ws:// must be rejected for full control");

    assert_eq!(error.code, "insecure_transport");
}

#[test]
fn unauthenticated_or_unbound_commands_do_not_forward_to_ipc() {
    let mut registry = registry();
    let ipc = RecordingIpcClient::default();
    let mut audit = AuditRecorder::default();
    let mut unauthenticated = DashboardSession::unauthenticated(Timestamp::unix_epoch());

    let unauth_error = unauthenticated
        .handle_command(restart_command(), &mut registry, &ipc, &mut audit, Timestamp::unix_epoch())
        .expect_err("unauthenticated command must fail");

    assert_eq!(unauth_error.code, "session_not_established");
    assert_eq!(ipc.total_command_count(), 0);

    let mut established =
        DashboardSession::establish(identity(), &registry, TransportSecurity::Wss, Timestamp::unix_epoch())
            .expect("session should establish");
    let unbound_error = established
        .handle_command(restart_command(), &mut registry, &ipc, &mut audit, Timestamp::unix_epoch())
        .expect_err("unbound target must fail");

    assert_eq!(unbound_error.code, "target_not_bound");
    assert_eq!(ipc.total_command_count(), 0);
}

#[test]
fn trusted_proxy_identity_header_is_rejected_from_untrusted_remote_address() {
    let proxy = TrustedProxyConfig {
        enabled: true,
        allowed_remote_addrs: vec!["10.0.0.10".to_owned()],
        identity_header: "x-verified-client-subject".to_owned(),
    };
    let headers = vec![("x-verified-client-subject".to_owned(), "operator@example.test".to_owned())];
    let remote: core::net::Ipv4Addr = "203.0.113.42".parse().expect("ip should parse");

    let error = AuthContext::identity_from_trusted_proxy(
        &proxy,
        IpAddress::V4(u32::from(remote)),
        &headers,
        Timestamp::unix_epoch(),
    )
    .expect_err("untrusted remote address must not provide identity");

    assert_eq!(error.code, "untrusted_proxy");
}

#[test]
fn bound_command_derives_requested_by_and_never_uses_client_override() {
    let mut registry = registry();
    let ipc = RecordingIpcClient::default();
    let mut audit = AuditRecorder::default();
    let mut session = DashboardSession::establish(identity(), &registry, TransportSecurity::Wss, Timestamp::unix_epoch())
        .expect("session should establish");

    session
        .bind_target("payments-worker-a", &mut registry, &ipc, Timestamp::unix_epoch())
        .expect("target should bind");

    let result = session
        .handle_command(restart_command(), &mut registry, &ipc, &mut audit, Timestamp::unix_epoch())
        .expect("authorized command should forward");

    assert_eq!(result.requested_by, "CN=operator@example.test");
    assert_eq!(ipc.command_count("payments-worker-a"), 1);

    let mut spoofed = restart_command();
    spoofed.command_id = "cmd-2".to_owned();
    spoofed.requested_by = Some("attacker@example.test".to_owned());
    let spoof_error = session
        .handle_command(spoofed, &mut registry, &ipc, &mut audit, Timestamp::unix_epoch())
        .expect_err("client requested_by override must be rejected");
    assert_eq!(spoof_error.code, "requested_by_override");
}

#[test]
fn trusted_proxy_reads_the_header_case_insensitively_and_trims_it() {
    let proxy = TrustedProxyConfig {
        enabled: true,
        allowed_remote_addrs: vec!["10.0.0.10".to_owned()],
        identity_header: "x-verified-client-subject".to_owned(),
    };
    let headers = vec![
        ("accept".to_owned(), "*/*".to_owned()),
        ("X-Verified-Client-Subject".to_owned(), "  operator@example.test ".to_owned()),
    ];
    let identity = AuthContext::identity_from_trusted_proxy(
        &proxy,
        IpAddress::V4(0x0a00_000a),
        &headers,
        Timestamp::from_unix_seconds(100),
    )
    .expect("trusted proxy identity should be read");
    assert_eq!(identity.principal, "operator@example.test");
    assert_eq!(identity.client_identity, "trusted_proxy:operator@example.test");
    assert_eq!(identity.issuer, "trusted-proxy");
    assert_eq!(identity.not_after, Timestamp::from_unix_seconds(100 + 86_400));

    let missing = AuthContext::identity_from_trusted_proxy(
        &proxy,
        IpAddress::V4(0x0a00_000a),
        &vec![],
        Timestamp::from_unix_seconds(100),
    )
    .expect_err("a missing header must be refused");
    assert_eq!(missing.code, "missing_proxy_identity");

    let blank = AuthContext::identity_from_trusted_proxy(
        &proxy,
        IpAddress::V4(0x0a00_000a),
        &vec![("x-verified-client-subject".to_owned(), "   ".to_owned())],
        Timestamp::from_unix_seconds(100),
    )
    .expect_err("a blank header must be refused");
    assert_eq!(blank.code, "empty_proxy_subject");
}

#[test]
fn commands_are_refused_for_undeclared_commands_and_inactive_targets() {
    let mut registry = registry();
    let ipc = RecordingIpcClient::default();
    let mut audit = AuditRecorder::default();
    let mut session = DashboardSession::establish(identity(), &registry, TransportSecurity::Wss, Timestamp::unix_epoch())
        .expect("session should establish");
    session
        .bind_target("payments-worker-a", &mut registry, &ipc, Timestamp::unix_epoch())
        .expect("target should bind");

    let mut pause = restart_command();
    pause.command = ControlCommandName::PauseChild;
    let error = session
        .handle_command(pause, &mut registry, &ipc, &mut audit, Timestamp::unix_epoch())
        .expect_err("undeclared command must be refused");
    assert_eq!(error.code, "unsupported_command");

    let error = session
        .handle_command(restart_command(), &mut registry, &ipc, &mut audit, Timestamp::from_unix_seconds(30))
        .expect_err("expired lease must be refused");
    assert_eq!(error.code, "target_unavailable");
    assert!(error.retryable);
    assert_eq!(ipc.total_command_count(), 0);
    assert!(audit.events().is_empty());
}

#[test]
fn forwarded_commands_are_audited_and_their_result_is_sent() {
    let mut registry = registry();
    let ipc = RecordingIpcClient::default();
    let mut audit = AuditRecorder::default();
    let mut session = DashboardSession::establish(identity(), &registry, TransportSecurity::Wss, Timestamp::unix_epoch())
        .expect("session should establish");
    session
        .bind_target("payments-worker-a", &mut registry, &ipc, Timestamp::unix_epoch())
        .expect("target should bind");
    let before = session.outbox().len();

    let result = session
        .handle_command(restart_command(), &mut registry, &ipc, &mut audit, Timestamp::from_unix_seconds(2))
        .expect("command should forward");
    assert!(result.accepted);
    assert_eq!(result.status, "completed");
    assert_eq!(result.completed_at, Timestamp::from_unix_seconds(2));
    let results: Vec<_> = audit.events().iter().map(|event| event.result).collect();
    assert_eq!(results, vec![AuditResult::Accepted, AuditResult::Completed]);
    assert_eq!(audit.events()[1].detail, "completed");
    assert_eq!(session.outbox().len(), before + 1);

    let failing = FailingIpcClient;
    let error = session
        .handle_command(restart_command(), &mut registry, &failing, &mut audit, Timestamp::from_unix_seconds(3))
        .expect_err("a failing target must report its error");
    assert_eq!(error.code, "ipc_write_failed");
    let results: Vec<_> = audit.events().iter().map(|event| event.result).collect();
    assert_eq!(
        results,
        vec![AuditResult::Accepted, AuditResult::Completed, AuditResult::Accepted, AuditResult::Rejected]
    );
    assert_eq!(audit.events()[3].detail, "IPC request could not be written");
    assert_eq!(session.outbox().len(), before + 1);
}
