use rust_supervisor_relay::auth::RemoteIdentity;
use rust_supervisor_relay::clock::Timestamp;
use rust_supervisor_relay::session::{
    first_message_hello, ClientHello, ClientMessage, ConnectionStateForSession, DashboardSession, LogEventFilterMode,
    LogEventFilterConditionsMessage, ResumeCursor, ServerMessage,
};

fn identity() -> RemoteIdentity {
    RemoteIdentity::from_verified_mtls_subject(
        "CN=operator@example.test",
        "CN=operators-ca",
        "01",
        Timestamp::unix_epoch(),
        Timestamp::from_unix_seconds(3600),
        Timestamp::unix_epoch(),
    )
    .expect("identity should validate")
}

#[test]
fn server_hello_is_sent_before_client_hello_and_no_business_data_is_sent() {
    let session = DashboardSession::server_hello(identity(), Timestamp::unix_epoch());

    assert!(matches!(
        session.outbox().first(),
        Some(ServerMessage::ServerHello { client_identity, .. })
            if client_identity.starts_with("mtls_cert_fingerprint:")
    ));
    assert_eq!(session.outbox().len(), 1);
}

#[test]
fn client_hello_requires_client_store_id() {
    let mut session = DashboardSession::server_hello(identity(), Timestamp::unix_epoch());
    let error = session
        .accept_client_hello(
            ClientHello { client_store_id: String::new(), resume_cursor: Default::default() },
            Timestamp::unix_epoch(),
        )
        .expect_err("missing client store id should be rejected");

    assert_eq!(error.code, "invalid_message_schema");
}

#[test]
fn server_hello_carries_the_session_identity_and_remote_filter_mode() {
    let identity = identity();
    let session = DashboardSession::server_hello(identity.clone(), Timestamp::from_unix_seconds(9));
    match &session.outbox()[0] {
        ServerMessage::ServerHello {
            session_id,
            client_identity,
            log_event_filter_mode,
            log_event_filter_conditions,
            filter_config_version,
        } => {
            assert_eq!(*session_id, session.session_id());
            assert_eq!(*client_identity, identity.client_identity);
            assert_eq!(*log_event_filter_mode, LogEventFilterMode::Remote);
            assert!(log_event_filter_conditions.entries.is_empty());
            assert_eq!(*filter_config_version, 0);
        },
        other => panic!("expected server hello, got {other:?}"),
    }
    assert_eq!(session.created_at(), Timestamp::from_unix_seconds(9));
}

#[test]
fn sessions_get_distinct_identifiers() {
    let first = DashboardSession::server_hello(identity(), Timestamp::unix_epoch());
    let second = DashboardSession::server_hello(identity(), Timestamp::unix_epoch());
    assert_ne!(first.session_id(), second.session_id());
}

#[test]
fn client_hello_is_accepted_once() {
    let mut session = DashboardSession::server_hello(identity(), Timestamp::unix_epoch());
    session
        .accept_client_hello(
            ClientHello { client_store_id: "store-a".to_owned(), resume_cursor: ResumeCursor::default() },
            Timestamp::from_unix_seconds(1),
        )
        .expect("first client hello should be accepted");
    let error = session
        .accept_client_hello(
            ClientHello { client_store_id: "store-a".to_owned(), resume_cursor: ResumeCursor::default() },
            Timestamp::from_unix_seconds(2),
        )
        .expect_err("second client hello should be refused");
    assert_eq!(error.code, "protocol_error");
    assert_eq!(error.message, "client_hello is only valid during handshaking");
    let _ = ConnectionStateForSession::Established;
}

#[test]
fn blank_client_store_id_is_rejected() {
    let mut session = DashboardSession::server_hello(identity(), Timestamp::unix_epoch());
    let error = session
        .accept_client_hello(
            ClientHello { client_store_id: " \t".to_owned(), resume_cursor: ResumeCursor::default() },
            Timestamp::unix_epoch(),
        )
        .expect_err("blank client store id should be rejected");
    assert_eq!(error.message, "client_store_id must not be empty");
}

#[test]
fn the_first_message_must_be_a_client_hello() {
    let hello = ClientHello { client_store_id: "store-a".to_owned(), resume_cursor: ResumeCursor::default() };
    assert_eq!(
        first_message_hello(ClientMessage::ClientHello(hello.clone())).expect("hello should be taken"),
        hello
    );
    let filter = LogEventFilterConditionsMessage {
        target_ids: vec![],
        child_paths: vec![],
        lifecycle_states: vec![],
        event_types: vec![],
        severities: vec![],
        sequence_min: None,
        correlation_id: None,
    };
    let error = first_message_hello(ClientMessage::LogEventFilterConditions(filter))
        .expect_err("a filter update cannot open a session");
    assert_eq!(error.code, "protocol_error");
    assert_eq!(error.message, "client_hello must be the first client message");
}

#[test]
fn unauthenticated_session_has_no_messages() {
    let session = DashboardSession::unauthenticated(Timestamp::from_unix_seconds(4));
    assert!(session.outbox().is_empty());
    assert_eq!(session.visible_target_count(), 0);
    assert!(!session.is_bound("payments-worker-a"));
    assert_eq!(session.created_at(), Timestamp::from_unix_seconds(4));
}

#[test]
fn blank_certificate_subject_is_refused() {
    let error = RemoteIdentity::from_verified_mtls_subject(
        "  ",
        "CN=operators-ca",
        "01",
        Timestamp::unix_epoch(),
        Timestamp::from_unix_seconds(3600),
        Timestamp::unix_epoch(),
    )
    .expect_err("a blank subject must be refused");
    assert_eq!(error.code, "empty_certificate_subject");
}

#[test]
fn certificate_identity_is_the_prefix_and_sixty_four_hex_digits() {
    let identity = identity();
    let digits = identity.client_identity.strip_prefix("mtls_cert_fingerprint:").expect("prefix");
    assert_eq!(digits.len(), 64);
    assert!(digits.chars().all(|c| c.is_ascii_digit() || ('a'..='f').contains(&c)));
    assert_eq!(
        identity.client_identity,
        "mtls_cert_fingerprint:e11e5c617a2ebe4f20120d68a0754776550445e1596292ddfa34e75b414a6a8f"
    );
}
