use rust_supervisor_relay::auth::RemoteIdentity;
use rust_supervisor_relay::clock::Timestamp;
use rust_supervisor_relay::config::RegistrationPolicy;
use rust_supervisor_relay::registration::RegistrationRequest;
use rust_supervisor_relay::registry::{ConnectionState, IpcPathProbe, TargetProcessRegistry};
use rust_supervisor_relay::session::{DashboardSession, TransportSecurity};

#[test]
fn registry_tracks_five_active_registrations_and_session_gating_keeps_ipc_idle_before_bind() {
    let policy = RegistrationPolicy {
        listen_path: "/run/rust-supervisor/dashboard-relay-registration.sock".to_owned(),
        permissions: "0600".to_owned(),
        allowed_ipc_path_prefixes: vec!["/run/rust-supervisor/".to_owned()],
        default_lease_seconds: 30,
        max_lease_seconds: 120,
    };
    let mut registry = TargetProcessRegistry::new(policy);
    let now = Timestamp::unix_epoch();
    let probe = IpcPathProbe { is_symlink: false, canonical_parent: Ok("/run/rust-supervisor".to_owned()) };

    for index in 0..5 {
        registry
            .register(
                RegistrationRequest::new(
                    &format!("worker-{index}"),
                    &format!("worker {index}"),
                    &format!("/run/rust-supervisor/worker-{index}.sock"),
                    30,
                    vec![],
                ),
                "ops:read".to_owned(),
                &probe,
                now,
            )
            .expect("registration should pass");
    }

    let identity = RemoteIdentity::from_verified_mtls_subject(
        "CN=operator@example.test",
        "CN=operators-ca",
        "01",
        now,
        Timestamp::from_unix_seconds(3600),
        now,
    )
    .expect("identity should validate");
    let session = DashboardSession::establish(identity, &registry, TransportSecurity::Wss, now)
        .expect("session should establish");

    assert_eq!(registry.active_registration_count(now), 5);
    assert_eq!(session.visible_target_count(), 5);

    registry.mark_unavailable("worker-3", "test disconnect", Timestamp::from_unix_seconds(10));
    assert_eq!(registry.connection_state("worker-3"), Some(ConnectionState::Unavailable));
}

#[test]
fn availability_summary_partitions_the_targets() {
    let policy = RegistrationPolicy {
        listen_path: "/run/rust-supervisor/dashboard-relay-registration.sock".to_owned(),
        permissions: "0600".to_owned(),
        allowed_ipc_path_prefixes: vec!["/run/rust-supervisor/".to_owned()],
        default_lease_seconds: 30,
        max_lease_seconds: 120,
    };
    let mut registry = TargetProcessRegistry::new(policy);
    let now = Timestamp::unix_epoch();
    let probe = IpcPathProbe { is_symlink: false, canonical_parent: Ok("/run/rust-supervisor".to_owned()) };
    for index in 0..4 {
        registry
            .register(
                RegistrationRequest::new(
                    &format!("worker-{index}"),
                    &format!("worker {index}"),
                    &format!("/run/rust-supervisor/worker-{index}.sock"),
                    10 + index,
                    vec![],
                ),
                "uid:501".to_owned(),
                &probe,
                now,
            )
            .expect("registration should pass");
    }
    registry.mark_reconnecting("worker-1", "socket closed", now);
    registry.mark_unavailable("worker-2", "socket refused", now);
    registry.mark_unavailable("unknown-worker", "ignored", now);

    let summary = registry.availability_summary();
    assert_eq!(summary.total, 4);
    assert_eq!(summary.registered, 2);
    assert_eq!(summary.reconnecting, 1);
    assert_eq!(summary.unavailable, 1);
    assert_eq!(summary.connected + summary.expired, 0);

    let expired = registry.expire_leases(Timestamp::from_unix_seconds(11));
    assert_eq!(expired, 2);
    assert_eq!(registry.active_registration_count(Timestamp::from_unix_seconds(11)), 2);
    assert_eq!(registry.active_targets(Timestamp::from_unix_seconds(11)).len(), 2);
    assert_eq!(registry.connection_state("worker-0"), Some(ConnectionState::Expired));
    assert_eq!(registry.expire_leases(Timestamp::from_unix_seconds(11)), 0);
    let summary = registry.availability_summary();
    assert_eq!(
        summary.registered + summary.connected + summary.reconnecting + summary.unavailable + summary.expired,
        summary.total
    );
    assert_eq!(summary.expired, 2);
}
