use std::path::Path;

use rust_supervisor_relay::clock::Timestamp;
use rust_supervisor_relay::config::RegistrationPolicy;
use rust_supervisor_relay::registration::{registration_ack, RegistrationRequest, SupportedCommand};
use rust_supervisor_relay::registry::{normalize_ipc_path_key, ConnectionState, IpcPathProbe, TargetProcessRegistry};

fn registry_for(prefix: &Path) -> TargetProcessRegistry {
    TargetProcessRegistry::new(RegistrationPolicy {
        listen_path: "/run/rust-supervisor/dashboard-relay-registration.sock".to_owned(),
        permissions: "0600".to_owned(),
        allowed_ipc_path_prefixes: vec![prefix.display().to_string()],
        default_lease_seconds: 30,
        max_lease_seconds: 120,
    })
}

/// What the filesystem says about an IPC path, as the relay reads it.
fn probe(path: &Path) -> IpcPathProbe {
    IpcPathProbe {
        is_symlink: path.symlink_metadata().map(|m| m.file_type().is_symlink()).unwrap_or(false),
        canonical_parent: match path.parent() {
            Some(parent) => parent
                .canonicalize()
                .map(|p| p.display().to_string())
                .map_err(|error| error.to_string()),
            None => Err("no parent".to_owned()),
        },
    }
}

fn request(path: &Path) -> RegistrationRequest {
    RegistrationRequest::new(
        "payments-worker-a",
        "payments worker a",
        &path.display().to_string(),
        30,
        vec![SupportedCommand::new("restart_child", false, 30)],
    )
}

#[test]
fn same_owner_can_upsert_existing_target_and_extend_lease() {
    let dir = tempfile::tempdir().expect("temporary directory should exist");
    let socket = dir.path().join("target.sock");
    let mut registry = registry_for(dir.path());

    let first = registry
        .register(request(&socket), "uid:501".to_owned(), &probe(&socket), Timestamp::unix_epoch())
        .expect("first registration should succeed");
    let second = registry
        .register(
            RegistrationRequest::new(
                "payments-worker-a",
                "payments worker updated",
                &socket.display().to_string(),
                60,
                vec![SupportedCommand::new("restart_child", false, 45)],
            ),
            "uid:501".to_owned(),
            &probe(&socket),
            Timestamp::from_unix_seconds(10),
        )
        .expect("same owner upsert should succeed");

    assert_eq!(first.target_id, second.target_id);
    assert_eq!(second.display_name, "payments worker updated");
    assert_eq!(second.lease_seconds, 60);
    assert_eq!(second.expires_at, Timestamp::from_unix_seconds(70));
}

#[test]
fn different_owner_cannot_replace_existing_target_id() {
    let dir = tempfile::tempdir().expect("temporary directory should exist");
    let socket = dir.path().join("target.sock");
    let mut registry = registry_for(dir.path());

    registry
        .register(request(&socket), "uid:501".to_owned(), &probe(&socket), Timestamp::unix_epoch())
        .expect("first registration should succeed");
    let error = registry
        .register(
            RegistrationRequest::new(
                "payments-worker-a",
                "rogue worker",
                &socket.display().to_string(),
                30,
                vec![SupportedCommand::new("restart_child", false, 30)],
            ),
            "uid:502".to_owned(),
            &probe(&socket),
            Timestamp::unix_epoch(),
        )
        .expect_err("different owner must be rejected");

    assert_eq!(error.code, "target_id_owner_mismatch");
    assert!(!error.retryable);
}

#[test]
fn different_target_id_cannot_reuse_same_ipc_path() {
    let dir = tempfile::tempdir().expect("temporary directory should exist");
    let socket = dir.path().join("target.sock");
    let mut registry = registry_for(dir.path());

    registry
        .register(request(&socket), "uid:501".to_owned(), &probe(&socket), Timestamp::unix_epoch())
        .expect("first registration should succeed");
    let error = registry
        .register(
            RegistrationRequest::new(
                "orders-worker-a",
                "orders worker a",
                &socket.display().to_string(),
                30,
                vec![SupportedCommand::new("restart_child", false, 30)],
            ),
            "uid:501".to_owned(),
            &probe(&socket),
            Timestamp::unix_epoch(),
        )
        .expect_err("same ipc path must be rejected for different target");

    assert_eq!(error.code, "ipc_path_conflict");
    assert!(!error.retryable);
}

#[test]
fn same_owner_ipc_path_change_marks_target_reconnecting() {
    let dir = tempfile::tempdir().expect("temporary directory should exist");
    let first_socket = dir.path().join("target-a.sock");
    let second_socket = dir.path().join("target-b.sock");
    let mut registry = registry_for(dir.path());

    registry
        .register(request(&first_socket), "uid:501".to_owned(), &probe(&first_socket), Timestamp::unix_epoch())
        .expect("first registration should succeed");
    registry
        .register(
            RegistrationRequest::new(
                "payments-worker-a",
                "payments worker a",
                &second_socket.display().to_string(),
                30,
                vec![SupportedCommand::new("restart_child", false, 30)],
            ),
            "uid:501".to_owned(),
            &probe(&second_socket),
            Timestamp::from_unix_seconds(1),
        )
        .expect("same owner path update should succeed");

    assert_eq!(registry.connection_state("payments-worker-a"), Some(ConnectionState::Reconnecting));
}

#[test]
fn renew_extends_the_lease_and_unknown_targets_are_refused() {
    let dir = tempfile::tempdir().expect("temporary directory should exist");
    let socket = dir.path().join("target.sock");
    let mut registry = registry_for(dir.path());
    registry
        .register(request(&socket), "uid:501".to_owned(), &probe(&socket), Timestamp::unix_epoch())
        .expect("registration should succeed");

    registry.renew("payments-worker-a", Timestamp::from_unix_seconds(20)).expect("renew should succeed");
    let registration = registry.registration("payments-worker-a").expect("target should be registered");
    assert_eq!(registration.renewed_at, Timestamp::from_unix_seconds(20));
    assert_eq!(registration.expires_at, Timestamp::from_unix_seconds(50));
    assert_eq!(registry.active_registration_count(Timestamp::from_unix_seconds(40)), 1);

    let error = registry.renew("orders-worker-a", Timestamp::from_unix_seconds(20)).expect_err("unknown target");
    assert_eq!(error.code, "target_not_registered");
    assert_eq!(error.stage, "registration_renew");
    assert!(error.retryable);
}

#[test]
fn registration_payload_is_checked_before_the_path() {
    let dir = tempfile::tempdir().expect("temporary directory should exist");
    let socket = dir.path().join("target.sock");
    let mut registry = registry_for(dir.path());

    let mut blank = request(&socket);
    blank.target_id = " ".to_owned();
    let error = registry
        .register(blank, "uid:501".to_owned(), &probe(&socket), Timestamp::unix_epoch())
        .expect_err("blank target id must be refused");
    assert_eq!(error.code, "empty_target_id");

    let relative = RegistrationRequest::new("worker", "worker", "relative.sock", 30, vec![]);
    let error = registry
        .register(relative, "uid:501".to_owned(), &probe(Path::new("relative.sock")), Timestamp::unix_epoch())
        .expect_err("relative path must be refused");
    assert_eq!(error.code, "relative_ipc_path");

    let outside = RegistrationRequest::new("worker", "worker", "/elsewhere/worker.sock", 30, vec![]);
    let error = registry
        .register(outside, "uid:501".to_owned(), &probe(Path::new("/elsewhere/worker.sock")), Timestamp::unix_epoch())
        .expect_err("path outside the prefixes must be refused");
    assert_eq!(error.code, "ipc_path_not_allowed");

    let bad_command = RegistrationRequest::new(
        "worker",
        "worker",
        &socket.display().to_string(),
        30,
        vec![SupportedCommand::new("restart_child", false, 0)],
    );
    let error = registry
        .register(bad_command, "uid:501".to_owned(), &probe(&socket), Timestamp::unix_epoch())
        .expect_err("a zero timeout must be refused");
    assert_eq!(error.code, "unsupported_command_schema");
    assert_eq!(registry.active_registration_count(Timestamp::unix_epoch()), 0);
}

#[test]
fn ipc_path_key_is_the_canonical_parent_joined_with_the_name() {
    let probe = IpcPathProbe { is_symlink: false, canonical_parent: Ok("/real/run".to_owned()) };
    assert_eq!(
        normalize_ipc_path_key("/run/link/worker.sock", &probe).expect("key should be built"),
        "/real/run/worker.sock"
    );
    let symlink = IpcPathProbe { is_symlink: true, canonical_parent: Ok("/real/run".to_owned()) };
    assert_eq!(
        normalize_ipc_path_key("/run/link/worker.sock", &symlink).expect_err("symlink must be refused").message,
        "ipc path must not be a symlink"
    );
    let missing = IpcPathProbe { is_symlink: false, canonical_parent: Err("No such file or directory".to_owned()) };
    assert_eq!(
        normalize_ipc_path_key("/run/link/worker.sock", &missing).expect_err("missing parent").message,
        "ipc path parent could not be normalized: No such file or directory"
    );
    assert_eq!(
        normalize_ipc_path_key("/", &probe).expect_err("the root has no parent").message,
        "ipc path must have a parent directory"
    );
}

#[test]
fn registration_ack_reports_the_outcome() {
    let dir = tempfile::tempdir().expect("temporary directory should exist");
    let socket = dir.path().join("target.sock");
    let mut registry = registry_for(dir.path());
    let accepted = registry.register(request(&socket), "uid:501".to_owned(), &probe(&socket), Timestamp::unix_epoch());
    let ack = registration_ack(&accepted);
    assert!(ack.ok);
    assert_eq!(ack.target_id.as_deref(), Some("payments-worker-a"));
    assert_eq!(ack.status.as_deref(), Some("registered"));
    assert!(!ack.retryable);

    let refused = registry.register(request(&socket), "uid:502".to_owned(), &probe(&socket), Timestamp::unix_epoch());
    let ack = registration_ack(&refused);
    assert!(!ack.ok);
    assert_eq!(ack.error_code.as_deref(), Some("target_id_owner_mismatch"));
    assert_eq!(ack.error_message.as_deref(), Some("target id is owned by another supervisor identity"));
}

#[test]
fn symlinked_ipc_path_is_refused() {
    let dir = tempfile::tempdir().expect("temporary directory should exist");
    let socket = dir.path().join("target.sock");
    let mut registry = registry_for(dir.path());
    let symlink = IpcPathProbe { is_symlink: true, canonical_parent: Ok(dir.path().display().to_string()) };
    let error = registry
        .register(request(&socket), "uid:501".to_owned(), &symlink, Timestamp::unix_epoch())
        .expect_err("a symlink must be refused");
    assert_eq!(error.code, "invalid_ipc_path");
    assert_eq!(registry.connection_state("payments-worker-a"), None);
}

#[test]
fn registrations_keep_their_owner_and_distinct_keys_across_operations() {
    let dir = tempfile::tempdir().expect("temporary directory should exist");
    let first = dir.path().join("a.sock");
    let second = dir.path().join("b.sock");
    let mut registry = registry_for(dir.path());
    registry.register(request(&first), "uid:501".to_owned(), &probe(&first), Timestamp::unix_epoch()).expect("a");
    let mut other = request(&second);
    other.target_id = "orders-worker-a".to_owned();
    registry.register(other, "uid:600".to_owned(), &probe(&second), Timestamp::unix_epoch()).expect("b");
    registry.renew("payments-worker-a", Timestamp::from_unix_seconds(5)).expect("renew");
    registry.begin_binding("payments-worker-a", Timestamp::from_unix_seconds(6)).expect("bind");
    registry.mark_connected("payments-worker-a", 3, Timestamp::from_unix_seconds(6)).expect("connected");
    registry.mark_unavailable("orders-worker-a", "down", Timestamp::from_unix_seconds(7));
    assert_eq!(registry.update_sequence("payments-worker-a", 9), None);
    registry.expire_leases(Timestamp::from_unix_seconds(100));
    let a = registry.registration("payments-worker-a").expect("still registered");
    let b = registry.registration("orders-worker-a").expect("still registered");
    assert_eq!(a.owner_identity, "uid:501");
    assert_eq!(b.owner_identity, "uid:600");
    assert_ne!(a.ipc_path_key, b.ipc_path_key);
    assert!(registry.connection_state("payments-worker-a").is_some());
    assert!(registry.connection_state("billing-worker-a").is_none());
}
