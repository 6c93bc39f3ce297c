use rust_supervisor_relay::session::{check_client_envelope, decode_message_envelope, message_json_error, ClientEnvelope};

#[test]
fn old_filter_update_message_type_is_rejected() {
    let error = decode_message_envelope(r#"{"type":"filter_update"}"#)
        .expect_err("old filter message type should be rejected");

    assert_eq!(error.code, "unsupported_message_type");
}

#[test]
fn old_sequence_checkpoint_message_type_is_rejected() {
    let error = decode_message_envelope(r#"{"type":"sequence_checkpoint"}"#)
        .expect_err("old checkpoint message type should be rejected");

    assert_eq!(error.code, "unsupported_message_type");
}

#[test]
fn old_sequence_from_field_is_rejected() {
    let error = decode_message_envelope(
        r#"{"type":"client_hello","client_store_id":"store-a","sequence_from":{"events":{}}}"#,
    )
    .expect_err("old resume field should be rejected");

    assert_eq!(error.code, "unsupported_field");
}

#[test]
fn current_message_types_pass_the_envelope_check() {
    assert!(decode_message_envelope(
        r#"{"type":"client_hello","client_store_id":"store-a","resume_cursor":{}}"#
    )
    .is_ok());
    assert!(decode_message_envelope(r#"{"type":"command","command_id":"c"}"#).is_ok());
    assert!(decode_message_envelope(r#"{"type":"log_event_filter_conditions"}"#).is_ok());
}

#[test]
fn message_without_type_is_rejected() {
    let error = decode_message_envelope(r#"{"client_store_id":"store-a"}"#)
        .expect_err("a message without a type should be rejected");
    assert_eq!(error.code, "unsupported_message_type");
    assert_eq!(error.stage, "session_decode");
}

#[test]
fn client_hello_that_is_not_an_object_is_a_schema_error() {
    let envelope = ClientEnvelope { message_type: Some("client_hello".to_owned()), keys: None };
    let error = check_client_envelope(&envelope).expect_err("non-object hello should be rejected");
    assert_eq!(error.code, "invalid_message_schema");
    assert_eq!(error.message, "client message must be a JSON object");
}

#[test]
fn unparsable_message_error_carries_the_parser_words() {
    let error = message_json_error("expected value at line 1 column 1");
    assert_eq!(error.code, "invalid_message_json");
    assert_eq!(error.message, "client message could not be parsed: expected value at line 1 column 1");
    assert!(!error.retryable);
}

#[test]
fn text_that_is_not_json_is_refused_with_the_parser_words() {
    let error = decode_message_envelope("not json").expect_err("non-JSON text should be rejected");
    assert_eq!(error.code, "invalid_message_json");
    assert_eq!(error.stage, "session_decode");
    assert!(error.message.starts_with("client message could not be parsed: "));
    assert!(error.message.len() > "client message could not be parsed: ".len());
}

#[test]
fn accepted_envelope_hands_back_the_parsed_value() {
    let value = decode_message_envelope(r#"{"type":"command","command_id":"c"}"#).expect("command should pass");
    assert_eq!(value["command_id"], "c");
}
