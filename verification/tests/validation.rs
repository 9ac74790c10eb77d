use acer_hybrid::error::AcerError;
use acer_hybrid::types::Message;
use acer_hybrid::validation::{validate_identifier, validate_max_tokens, validate_messages};

fn message_of(r: Result<(), AcerError>) -> String {
    match r {
        Err(AcerError::InvalidRequest(m)) => m,
        other => panic!("unexpected: {:?}", other),
    }
}

#[test]
fn max_tokens_must_be_positive_and_bounded() {
    assert!(validate_max_tokens(None, None).is_ok());
    assert!(validate_max_tokens(Some(10), None).is_ok());
    assert_eq!(
        message_of(validate_max_tokens(Some(0), None)),
        "Invalid max_tokens 0. Expected a positive integer."
    );
    assert_eq!(
        message_of(validate_max_tokens(Some(11), Some(10))),
        "Invalid max_tokens 11. Expected a value <= 10."
    );
}

#[test]
fn identifiers_are_checked() {
    assert!(validate_identifier("model", "llama2:7b").is_ok());
    assert!(validate_identifier("model", "  gpt-4  ").is_ok());
    assert_eq!(message_of(validate_identifier("model", "   ")), "model cannot be empty.");
    assert_eq!(
        message_of(validate_identifier("model", "bad name")),
        "model 'bad name' contains unsupported characters."
    );
    let long = "a".repeat(129);
    assert_eq!(
        message_of(validate_identifier("provider", &long)),
        format!("provider '{}' is too long.", long)
    );
}

#[test]
fn messages_are_checked() {
    assert_eq!(message_of(validate_messages(&[], 5, 100)), "At least one message is required.");
    let ok = vec![Message::user("hi")];
    assert!(validate_messages(&ok, 5, 100).is_ok());
    let many = vec![Message::user("a"), Message::user("b"), Message::user("c")];
    assert_eq!(message_of(validate_messages(&many, 2, 100)), "Request contains 3 messages; limit is 2.");
    let big = vec![Message::user("ok"), Message::user("hello world")];
    assert_eq!(message_of(validate_messages(&big, 5, 3)), "Message 1 exceeds the 3 character limit.");
}
