use std::path::Path;

use rust_supervisor_relay::clock::Timestamp;
use rust_supervisor_relay::config::{
    DashboardRelayConfig, IpAddress, ListenConfig, RegistrationPolicy, TlsConfig, TrustedProxyConfig,
};
use rust_supervisor_relay::registration::{RegistrationRequest, SupportedCommand};
use rust_supervisor_relay::registry::{IpcPathProbe, TargetProcessRegistry};

fn relay_config(public_url: &str, prefixes: Vec<String>) -> DashboardRelayConfig {
    DashboardRelayConfig {
        listen: ListenConfig { bind: "127.0.0.1:9443".to_owned(), public_url: public_url.to_owned() },
        tls: TlsConfig {
            certificate_path: "./certs/relay.crt".to_owned(),
            private_key_path: "./certs/relay.key".to_owned(),
            client_ca_path: "./certs/operators-ca.crt".to_owned(),
        },
        trusted_proxy: TrustedProxyConfig {
            enabled: false,
            allowed_remote_addrs: vec![],
            identity_header: "x-verified-client-subject".to_owned(),
        },
        registration: RegistrationPolicy {
            listen_path: "/run/rust-supervisor/dashboard-relay-registration.sock".to_owned(),
            permissions: "0600".to_owned(),
            allowed_ipc_path_prefixes: prefixes,
            default_lease_seconds: 30,
            max_lease_seconds: 120,
        },
    }
}

/// What the filesystem says about an IPC path, as the relay reads it.
fn probe(path: &Path) -> IpcPathProbe {
    IpcPathProbe {
        is_symlink: path.symlink_metadata().map(|m| m.file_type().is_symlink()).unwrap_or(false),
        canonical_parent: match path.parent() {
            Some(parent) => parent
                .canonicalize()
                .map(|p| p.display().to_string())
                .map_err(|error| error.to_string()),
            None => Err("no parent".to_owned()),
        },
    }
}

fn registration(target_id: &str, ipc_path: &Path, lease_seconds: u64) -> RegistrationRequest {
    RegistrationRequest::new(
        target_id,
        &format!("{target_id} display"),
        &ipc_path.display().to_string(),
        lease_seconds,
        vec![SupportedCommand::new("restart_child", false, 30)],
    )
}

#[test]
fn config_accepts_wss_registration_policy_and_relay_directory_boundary() {
    let config = relay_config("wss://localhost:9443/supervisor", vec!["/run/rust-supervisor/".to_owned()]);

    config.validate().expect("wss relay config should validate");

    assert!(config.registration.ipc_path_is_allowed("/run/rust-supervisor/a.sock"));
}

#[test]
fn config_rejects_ws_public_url_and_empty_ipc_prefixes() {
    let ws_config = relay_config("ws://localhost:9443/supervisor", vec!["/run/rust-supervisor/".to_owned()]);

    let ws_error = ws_config.validate().expect_err("ws:// must not validate");
    assert_eq!(ws_error.code, "invalid_public_url");

    let empty_prefix_config = relay_config("wss://localhost:9443/supervisor", vec![]);

    let prefix_error = empty_prefix_config.validate().expect_err("empty IPC path prefixes must not validate");
    assert_eq!(prefix_error.code, "empty_allowed_ipc_path_prefixes");
}

#[test]
fn registry_allows_owner_upsert_and_rejects_ipc_conflict_and_invalid_lease() {
    let dir = tempfile::tempdir().expect("temporary directory should exist");
    let config = relay_config("wss://localhost:9443/supervisor", vec![dir.path().display().to_string()]);
    config.validate().expect("config should validate");

    let mut registry = TargetProcessRegistry::new(config.registration.clone());
    let now = Timestamp::unix_epoch();

    let path_a = dir.path().join("payments-worker-a.sock");
    registry
        .register(registration("payments-worker-a", &path_a, 30), "uid:501".to_owned(), &probe(&path_a), now)
        .expect("first registration should pass");

    let path_b = dir.path().join("payments-worker-b.sock");
    let updated_target = registry
        .register(registration("payments-worker-a", &path_b, 60), "uid:501".to_owned(), &probe(&path_b), now)
        .expect("same owner target id should upsert");
    assert_eq!(updated_target.lease_seconds, 60);

    let conflicting_path = registry
        .register(registration("payments-worker-b", &path_b, 30), "uid:501".to_owned(), &probe(&path_b), now)
        .expect_err("same IPC path should be rejected for another target");
    assert_eq!(conflicting_path.code, "ipc_path_conflict");

    let path_d = dir.path().join("payments-worker-d.sock");
    let invalid_lease = registry
        .register(registration("payments-worker-d", &path_d, 0), "uid:501".to_owned(), &probe(&path_d), now)
        .expect_err("invalid lease should be rejected");
    assert_eq!(invalid_lease.code, "invalid_lease_seconds");
}

#[test]
fn config_rejects_bad_bind_address_and_unparsable_url() {
    let mut config = relay_config("wss://localhost:9443/supervisor", vec!["/run/rust-supervisor/".to_owned()]);
    config.listen.bind = "localhost-without-port".to_owned();
    let error = config.validate().expect_err("bind must be a socket address");
    assert_eq!(error.code, "invalid_bind_address");
    assert!(error.message.starts_with("listen.bind must be socket address: "));

    let config = relay_config("not a url", vec!["/run/rust-supervisor/".to_owned()]);
    let error = config.validate().expect_err("public url must parse");
    assert_eq!(error.code, "invalid_public_url");
    assert!(error.message.starts_with("listen.public_url could not be parsed: "));
}

#[test]
fn config_requires_client_ca_only_without_trusted_proxy() {
    let mut config = relay_config("wss://localhost:9443/supervisor", vec!["/run/rust-supervisor/".to_owned()]);
    config.tls.client_ca_path = String::new();
    assert_eq!(config.validate().expect_err("client CA is required").code, "missing_client_ca");

    config.trusted_proxy.enabled = true;
    config.trusted_proxy.allowed_remote_addrs = vec!["10.0.0.10".to_owned()];
    config.validate().expect("trusted proxy mode needs no client CA");

    config.trusted_proxy.allowed_remote_addrs = vec!["10.0.0.10".to_owned(), "not-an-ip".to_owned()];
    assert_eq!(
        config.validate().expect_err("proxy addresses must parse").code,
        "invalid_trusted_proxy_addr"
    );
}

#[test]
fn registration_policy_rejects_relative_prefixes_and_bad_leases() {
    let mut config = relay_config("wss://localhost:9443/supervisor", vec!["run/relative".to_owned()]);
    assert_eq!(
        config.registration.validate_policy().expect_err("prefixes must be absolute").code,
        "relative_allowed_ipc_path_prefix"
    );
    config.registration.allowed_ipc_path_prefixes = vec!["/run/rust-supervisor/".to_owned()];
    config.registration.default_lease_seconds = 200;
    assert_eq!(
        config.registration.validate_policy().expect_err("default must not exceed max").code,
        "invalid_registration_lease_policy"
    );
}

#[test]
fn ipc_prefix_matches_whole_path_components_only() {
    let config = relay_config("wss://localhost:9443/supervisor", vec!["/run/rust-supervisor".to_owned()]);
    assert!(config.registration.ipc_path_is_allowed("/run/rust-supervisor/a.sock"));
    assert!(!config.registration.ipc_path_is_allowed("/run/rust-supervisor-other/a.sock"));
    assert!(!config.registration.ipc_path_is_allowed("run/rust-supervisor/a.sock"));
}

#[test]
fn trusted_proxy_allows_only_configured_addresses() {
    let proxy = TrustedProxyConfig {
        enabled: true,
        allowed_remote_addrs: vec!["10.0.0.10".to_owned(), "::1".to_owned()],
        identity_header: "x-verified-client-subject".to_owned(),
    };
    assert!(proxy.is_allowed_remote_addr(IpAddress::V4(0x0a00_000a)));
    assert!(proxy.is_allowed_remote_addr(IpAddress::V6(1)));
    assert!(!proxy.is_allowed_remote_addr(IpAddress::V4(0x0a00_000b)));
    let disabled = TrustedProxyConfig { enabled: false, ..proxy };
    assert!(!disabled.is_allowed_remote_addr(IpAddress::V4(0x0a00_000a)));
}

#[test]
fn registration_socket_mode_is_read_as_octal() {
    let mut config = relay_config("wss://localhost:9443/supervisor", vec!["/run/rust-supervisor/".to_owned()]);
    assert_eq!(config.registration.permission_mode(), Some(0o600));
    config.registration.permissions = "0755".to_owned();
    assert_eq!(config.registration.permission_mode(), Some(0o755));
    config.registration.permissions = "0000".to_owned();
    assert_eq!(config.registration.permission_mode(), None);
    config.registration.permissions = "0680".to_owned();
    assert_eq!(config.registration.permission_mode(), None);
    config.registration.permissions = "+640".to_owned();
    assert_eq!(config.registration.permission_mode(), Some(0o640));
    config.registration.permissions = "77777777777".to_owned();
    assert_eq!(config.registration.permission_mode(), None);
}

#[test]
fn config_reports_each_missing_section_value() {
    let mut config = relay_config("wss://localhost:9443/supervisor", vec!["/run/rust-supervisor/".to_owned()]);
    config.tls.certificate_path = String::new();
    assert_eq!(config.validate().expect_err("server certificate is required").code, "missing_tls_identity");

    let mut config = relay_config("wss://localhost:9443/supervisor", vec!["/run/rust-supervisor/".to_owned()]);
    config.registration.listen_path = "relay.sock".to_owned();
    assert_eq!(config.validate().expect_err("listen path must be absolute").code, "relative_registration_path");

    let mut config = relay_config("wss://localhost:9443/supervisor", vec!["/run/rust-supervisor/".to_owned()]);
    config.trusted_proxy.enabled = true;
    assert_eq!(config.validate().expect_err("proxy needs addresses").code, "empty_trusted_proxy_addrs");
    config.trusted_proxy.allowed_remote_addrs = vec!["10.0.0.10".to_owned()];
    config.trusted_proxy.identity_header = " ".to_owned();
    assert_eq!(config.validate().expect_err("proxy needs a header").code, "empty_identity_header");
}

#[test]
fn registration_socket_mode_needs_a_digit_after_the_sign() {
    let mut config = relay_config("wss://localhost:9443/supervisor", vec!["/run/rust-supervisor/".to_owned()]);
    config.registration.permissions = "0+".to_owned();
    assert_eq!(config.registration.permission_mode(), None);
    config.registration.permissions = "0+7".to_owned();
    assert_eq!(config.registration.permission_mode(), Some(7));
    config.registration.permissions = "37777777777".to_owned();
    assert_eq!(config.registration.permission_mode(), Some(u32::MAX));
    config.registration.permissions = "0-7".to_owned();
    assert_eq!(config.registration.permission_mode(), None);
}
