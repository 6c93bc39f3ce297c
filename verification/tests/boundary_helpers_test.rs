use rust_supervisor_relay::auth::{lowercase_hex, AuthContext, RemoteIdentity};
use rust_supervisor_relay::cli::parse_cli_args;
use rust_supervisor_relay::clock::Timestamp;
use rust_supervisor_relay::command::{CommandTarget, ControlCommandName, PreparedCommand};
use rust_supervisor_relay::config::{IpAddress, TrustedProxyConfig};
use rust_supervisor_relay::diagnostics::DiagnosticEvent;
use rust_supervisor_relay::error::RelayError;
use rust_supervisor_relay::ipc_client::{
    command_method, command_result_from_line, command_result_from_reply, dashboard_state_from_reply, reply_from_line,
    response_result, state_from_line, CommandReplyFields,
    IpcErrorFields, IpcReply, StateReply,
};
use rust_supervisor_relay::registration::SupportedCommand;
use rust_supervisor_relay::registry::{RegistrationState, TargetProcessRegistration};

fn args(list: &[&str]) -> Vec<String> {
    list.iter().map(|s| s.to_string()).collect()
}

fn json(text: &str) -> serde_json::Value {
    serde_json::from_str(text).expect("test JSON should parse")
}

fn registration() -> TargetProcessRegistration {
    TargetProcessRegistration {
        target_id: "payments-worker-a".to_owned(),
        display_name: "payments worker a".to_owned(),
        ipc_path: "/run/rust-supervisor/payments-worker-a.sock".to_owned(),
        ipc_path_key: "/run/rust-supervisor/payments-worker-a.sock".to_owned(),
        owner_identity: "uid:501".to_owned(),
        lease_seconds: 30,
        supported_commands: vec![SupportedCommand::new("restart_child", false, 30)],
        registered_at: Timestamp::unix_epoch(),
        renewed_at: Timestamp::unix_epoch(),
        expires_at: Timestamp::from_unix_seconds(30),
        registration_state: RegistrationState::Active,
        last_rejection: None,
    }
}

fn prepared() -> PreparedCommand {
    PreparedCommand {
        command_id: "cmd-1".to_owned(),
        correlation_id: Some("corr-1".to_owned()),
        target_id: "payments-worker-a".to_owned(),
        command: ControlCommandName::RestartChild,
        target: CommandTarget { child_path: Some("/root/payment_loop".to_owned()) },
        reason: "restart".to_owned(),
        requested_by: "CN=operator@example.test".to_owned(),
        confirmed: false,
        requested_at: Timestamp::unix_epoch(),
    }
}

#[test]
fn cli_reads_config_and_check_flags() {
    let parsed = parse_cli_args(&args(&["--config", "/etc/relay.yaml", "--check"])).expect("arguments should parse");
    assert_eq!(parsed.config_path, "/etc/relay.yaml");
    assert!(parsed.check_only);

    let parsed = parse_cli_args(&args(&["--config", "a.yaml", "--config", "b.yaml"])).expect("last config wins");
    assert_eq!(parsed.config_path, "b.yaml");
    assert!(!parsed.check_only);
}

#[test]
fn cli_reports_each_argument_error() {
    let error = parse_cli_args(&args(&["--check"])).expect_err("config is required");
    assert_eq!(error.code, "missing_config_arg");
    assert_eq!(error.message, "--config is required");

    let error = parse_cli_args(&args(&["--config"])).expect_err("config needs a path");
    assert_eq!(error.message, "--config requires a path");

    let error = parse_cli_args(&args(&["--config", "a.yaml", "--verbose"])).expect_err("unknown argument");
    assert_eq!(error.code, "unknown_arg");
    assert_eq!(error.message, "unknown argument: --verbose");
}

#[test]
fn successful_reply_yields_its_result() {
    let reply = IpcReply { ok: Some(true), result: Some(json(r#"{"type":"state"}"#)), error: None };
    assert_eq!(response_result(reply).expect("result"), json(r#"{"type":"state"}"#));

    let reply = IpcReply { ok: Some(true), result: None, error: None };
    let error = response_result(reply).expect_err("missing result");
    assert_eq!(error.code, "ipc_result_missing");
}

#[test]
fn failed_reply_yields_its_error_with_defaults() {
    let reply = IpcReply {
        ok: Some(false),
        result: None,
        error: Some(IpcErrorFields {
            code: Some("unsupported_method".to_owned()),
            stage: Some("protocol".to_owned()),
            target_id: Some("payments-worker-a".to_owned()),
            message: None,
            retryable: Some(true),
        }),
    };
    let error = response_result(reply).expect_err("error reply");
    assert_eq!(error.code, "unsupported_method");
    assert_eq!(error.stage, "protocol");
    assert_eq!(error.target_id.as_deref(), Some("payments-worker-a"));
    assert_eq!(error.message, "IPC response returned an error");
    assert!(error.retryable);

    let reply = IpcReply {
        ok: None,
        result: Some(json("1")),
        error: Some(IpcErrorFields { code: None, stage: None, target_id: None, message: None, retryable: None }),
    };
    let error = response_result(reply).expect_err("error reply");
    assert_eq!(error.code, "ipc_error");
    assert_eq!(error.stage, "ipc_response");
    assert!(!error.retryable);

    let error = response_result(IpcReply { ok: Some(false), result: None, error: None }).expect_err("no error field");
    assert_eq!(error.code, "ipc_response_failed");
}

#[test]
fn state_reply_defaults_to_the_registration() {
    let reply = StateReply { target_id: None, state: Some(json(r#"{"x":1}"#)), state_generation: None };
    let state = dashboard_state_from_reply(reply, &registration(), Timestamp::from_unix_seconds(3)).expect("state");
    assert_eq!(state.target_id, "payments-worker-a");
    assert_eq!(state.state_generation, 0);
    assert_eq!(state.generated_at, Timestamp::from_unix_seconds(3));
    assert_eq!(state.payload, json(r#"{"x":1}"#));

    let reply = StateReply { target_id: Some("other".to_owned()), state: None, state_generation: Some(7) };
    let error = dashboard_state_from_reply(reply, &registration(), Timestamp::unix_epoch()).expect_err("no state");
    assert_eq!(error.code, "ipc_state_missing");
    assert_eq!(error.target_id.as_deref(), Some("payments-worker-a"));
}

#[test]
fn command_reply_defaults_to_the_command() {
    let fields = CommandReplyFields { command_id: None, correlation_id: None, target_id: None, accepted: None, status: None };
    let result =
        command_result_from_reply(Some(fields), &prepared(), Timestamp::from_unix_seconds(4)).expect("result");
    assert_eq!(result.command_id, "cmd-1");
    assert_eq!(result.correlation_id.as_deref(), Some("corr-1"));
    assert_eq!(result.target_id, "payments-worker-a");
    assert!(!result.accepted);
    assert_eq!(result.status, "failed");
    assert_eq!(result.requested_by, "CN=operator@example.test");
    assert_eq!(result.completed_at, Timestamp::from_unix_seconds(4));

    let fields = CommandReplyFields {
        command_id: Some("cmd-9".to_owned()),
        correlation_id: Some("corr-9".to_owned()),
        target_id: Some("orders-worker-a".to_owned()),
        accepted: Some(true),
        status: Some("completed".to_owned()),
    };
    let result = command_result_from_reply(Some(fields), &prepared(), Timestamp::unix_epoch()).expect("result");
    assert_eq!(result.command_id, "cmd-9");
    assert_eq!(result.correlation_id.as_deref(), Some("corr-9"));
    assert_eq!(result.target_id, "orders-worker-a");
    assert!(result.accepted);
    assert_eq!(result.requested_by, "CN=operator@example.test");

    let error = command_result_from_reply(None, &prepared(), Timestamp::unix_epoch()).expect_err("no result");
    assert_eq!(error.code, "ipc_command_result_missing");
}

#[test]
fn every_command_has_its_ipc_method() {
    assert_eq!(command_method(ControlCommandName::RestartChild), "command.restart_child");
    assert_eq!(command_method(ControlCommandName::PauseChild), "command.pause_child");
    assert_eq!(command_method(ControlCommandName::ResumeChild), "command.resume_child");
    assert_eq!(command_method(ControlCommandName::QuarantineChild), "command.quarantine_child");
    assert_eq!(command_method(ControlCommandName::RemoveChild), "command.remove_child");
    assert_eq!(command_method(ControlCommandName::AddChild), "command.add_child");
    assert_eq!(command_method(ControlCommandName::ShutdownTree), "command.shutdown_tree");
}

#[test]
fn lowercase_hex_writes_two_digits_per_byte() {
    assert_eq!(lowercase_hex(&[0x00, 0x0f, 0xa5, 0xff]), "000fa5ff");
    assert_eq!(lowercase_hex(&[]), "");
}

#[test]
fn certificate_fingerprint_is_the_sha256_of_the_bytes() {
    let identity = AuthContext::identity_from_mtls_der(b"abc", Timestamp::from_unix_seconds(10));
    // b"abc" is not a certificate, so parsing fails before any fingerprint is taken.
    let error = identity.expect_err("non-certificate bytes must be refused");
    assert_eq!(error.code, "certificate_parse_failed");
    assert!(error.message.starts_with("client certificate could not be parsed: "));

    let error = AuthContext::identity_from_mtls_der(&[], Timestamp::from_unix_seconds(10)).expect_err("empty");
    assert_eq!(error.code, "missing_client_certificate");
}

#[test]
fn mtls_identity_fingerprints_its_fields() {
    let identity = RemoteIdentity::from_verified_mtls_subject(
        "CN=a",
        "CN=b",
        "01",
        Timestamp::unix_epoch(),
        Timestamp::from_unix_seconds(10),
        Timestamp::from_unix_seconds(5),
    )
    .expect("identity should validate");
    // The SHA-256 of the subject, issuer and serial separated by zero bytes.
    assert_eq!(
        identity.client_identity,
        "mtls_cert_fingerprint:adf46fa07f158bb4917c7ebf0a7bbd978902924683f8697f50ce65ef4060d791"
    );
    assert_eq!(identity.principal, "CN=a");

    let expired = RemoteIdentity::from_verified_mtls_subject(
        "CN=a",
        "CN=b",
        "01",
        Timestamp::unix_epoch(),
        Timestamp::from_unix_seconds(10),
        Timestamp::from_unix_seconds(11),
    )
    .expect_err("an expired certificate must be refused");
    assert_eq!(expired.code, "certificate_expired");
}

#[test]
fn connection_identity_uses_the_proxy_only_when_enabled() {
    let proxy = TrustedProxyConfig {
        enabled: false,
        allowed_remote_addrs: vec!["10.0.0.10".to_owned()],
        identity_header: "x-verified-client-subject".to_owned(),
    };
    let headers = vec![("x-verified-client-subject".to_owned(), "operator".to_owned())];
    let error = AuthContext::connection_identity(&proxy, IpAddress::V4(0x0a00_000a), &headers, &None, Timestamp::from_unix_seconds(10))
        .expect_err("mTLS mode needs a certificate");
    assert_eq!(error.code, "missing_client_certificate");

    let error = AuthContext::identity_from_trusted_proxy(&proxy, IpAddress::V4(0x0a00_000a), &headers, Timestamp::from_unix_seconds(10))
        .expect_err("disabled proxy mode");
    assert_eq!(error.code, "trusted_proxy_disabled");

    let enabled = TrustedProxyConfig { enabled: true, ..proxy };
    let identity = AuthContext::connection_identity(&enabled, IpAddress::V4(0x0a00_000a), &headers, &None, Timestamp::from_unix_seconds(10))
        .expect("trusted proxy identity");
    assert_eq!(identity.subject, "operator");
}

#[test]
fn errors_and_diagnostics_keep_their_fields() {
    let error = RelayError::for_target("target_unavailable", "registry", "worker", "target registration is not active", true);
    assert_eq!(error.target_id.as_deref(), Some("worker"));
    assert!(error.retryable);
    let event = DiagnosticEvent::new("registry", Some("worker".to_owned()), "lease_expired", "lease ran out", Timestamp::from_unix_seconds(8));
    assert_eq!(event.stage, "registry");
    assert_eq!(event.code, "lease_expired");
    assert_eq!(event.message, "lease ran out");
    assert_eq!(event.occurred_at, Timestamp::from_unix_seconds(8));
}

fn certificate_der() -> Vec<u8> {
    let hex = "3082018330820129a00302010202020102300a06082a8648ce3d0403023020311e301c06035504030c156f70657261746f72406578616d706c652e74657374301e170d3236313131373032353833305a170d3236313231373032353833305a3020311e301c06035504030c156f70657261746f72406578616d706c652e746573743059301306072a8648ce3d020106082a8648ce3d0301070342000485df1dfacace09835dfde631dad11ef34564920e3f9a692b6ec02502bb6619da1bfae9fc14baa358132d6613dc118379c0c786966060f6dc8f00af9092231625a3533051301d0603551d0e04160414e9d568a2dca4939aa275287be9dd234298b28d94301f0603551d23041830168014e9d568a2dca4939aa275287be9dd234298b28d94300f0603551d130101ff040530030101ff300a06082a8648ce3d040302034800304502200ea97c5d01527a39f075e2f5f257329bad602f35284db5152a962f33e669533c022100c87176f44316bbbb1e0212861fbe3e3fbea176ae5b0f93b1c3f7c38128d39ba6";
    (0..hex.len()).step_by(2).map(|i| u8::from_str_radix(&hex[i..i + 2], 16).expect("hex")).collect()
}

#[test]
fn mtls_identity_is_read_from_a_certificate() {
    let identity = AuthContext::identity_from_mtls_der(&certificate_der(), Timestamp::from_unix_seconds(100))
        .expect("a certificate with a subject should give an identity");
    assert_eq!(identity.subject, "CN=operator@example.test");
    assert_eq!(identity.principal, "CN=operator@example.test");
    assert_eq!(identity.issuer, "CN=operator@example.test");
    assert_eq!(identity.serial_number, "01:02");
    assert_eq!(
        identity.client_identity,
        "mtls_cert_fingerprint:a21fd949feb44f8fbdc54960a65517163c90557debec8aed61347229a34dbd3c"
    );
    assert_eq!(identity.not_before, Timestamp::from_unix_seconds(99));
    assert_eq!(identity.not_after, Timestamp::from_unix_seconds(100 + 86_400));
}

#[test]
fn reply_line_is_trimmed_and_read() {
    let result = reply_from_line("  {\"ok\":true,\"result\":{\"state\":1}}\n").expect("successful reply");
    assert_eq!(result, json(r#"{"state":1}"#));

    let error = reply_from_line(
        r#"{"ok":false,"error":{"code":"busy","target_id":"t1","retryable":true,"message":7}}"#,
    )
    .expect_err("error reply");
    assert_eq!(error.code, "busy");
    assert_eq!(error.stage, "ipc_response");
    assert_eq!(error.target_id.as_deref(), Some("t1"));
    assert_eq!(error.message, "IPC response returned an error");
    assert!(error.retryable);

    let error = reply_from_line(r#"{"ok":true}"#).expect_err("no result");
    assert_eq!(error.code, "ipc_result_missing");

    let error = reply_from_line(r#"{"ok":"yes"}"#).expect_err("not successful");
    assert_eq!(error.code, "ipc_response_failed");
}

#[test]
fn reply_line_that_is_not_json_is_a_decode_error() {
    let error = reply_from_line("not json").expect_err("undecodable reply");
    assert_eq!(error.code, "ipc_decode_failed");
    assert_eq!(error.stage, "ipc_response");
    assert!(error.message.starts_with("IPC response could not be decoded: "));
    assert!(error.message.len() > "IPC response could not be decoded: ".len());
    assert!(!error.retryable);
}

#[test]
fn state_line_is_read_into_the_target_state() {
    let line = r#"{"ok":true,"result":{"target_id":"t9","state":{"state_generation":12,"tree":[]}}}"#;
    let state = state_from_line(line, &registration(), Timestamp::from_unix_seconds(5)).expect("state");
    assert_eq!(state.target_id, "t9");
    assert_eq!(state.state_generation, 12);
    assert_eq!(state.generated_at, Timestamp::from_unix_seconds(5));
    assert_eq!(state.payload, json(r#"{"state_generation":12,"tree":[]}"#));

    let state = state_from_line(r#"{"ok":true,"result":{"state":{}}}"#, &registration(), Timestamp::unix_epoch())
        .expect("state with defaults");
    assert_eq!(state.target_id, "payments-worker-a");
    assert_eq!(state.state_generation, 0);

    let error = state_from_line(r#"{"ok":true,"result":{}}"#, &registration(), Timestamp::unix_epoch())
        .expect_err("no state");
    assert_eq!(error.code, "ipc_state_missing");
    assert_eq!(error.target_id.as_deref(), Some("payments-worker-a"));

    let error = state_from_line(r#"{"ok":false,"error":{"code":"down"}}"#, &registration(), Timestamp::unix_epoch())
        .expect_err("error reply");
    assert_eq!(error.code, "down");

    let error = state_from_line("{", &registration(), Timestamp::unix_epoch()).expect_err("not json");
    assert_eq!(error.code, "ipc_decode_failed");
}

#[test]
fn command_line_is_read_into_the_command_result() {
    let line = r#"{"ok":true,"result":{"result":{"command_id":"c7","accepted":true,"status":"completed"}}}"#;
    let result = command_result_from_line(line, &prepared(), Timestamp::from_unix_seconds(6)).expect("result");
    assert_eq!(result.command_id, "c7");
    assert_eq!(result.correlation_id.as_deref(), Some("corr-1"));
    assert_eq!(result.target_id, "payments-worker-a");
    assert!(result.accepted);
    assert_eq!(result.status, "completed");
    assert_eq!(result.requested_by, "CN=operator@example.test");
    assert_eq!(result.completed_at, Timestamp::from_unix_seconds(6));

    let error = command_result_from_line(r#"{"ok":true,"result":{}}"#, &prepared(), Timestamp::unix_epoch())
        .expect_err("no command result");
    assert_eq!(error.code, "ipc_command_result_missing");

    let error = command_result_from_line(r#"{"ok":true}"#, &prepared(), Timestamp::unix_epoch())
        .expect_err("no result");
    assert_eq!(error.code, "ipc_result_missing");
}
