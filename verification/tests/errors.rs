use peer_rate::errors::{ParseAccountError, ParseErrorKind};

#[test]
fn kind_predicates_match_their_variant() {
    assert!(ParseErrorKind::TooLong.is_too_long());
    assert!(!ParseErrorKind::TooLong.is_too_short());
    assert!(ParseErrorKind::TooShort.is_too_short());
    assert!(!ParseErrorKind::TooShort.is_too_long());
    assert!(ParseErrorKind::HasCapsChars.has_caps_chars());
    assert!(!ParseErrorKind::HasCapsChars.has_invalid_chars());
    assert!(ParseErrorKind::HasConsecutiveSeparators.has_consecutive_separators());
    assert!(!ParseErrorKind::HasConsecutiveSeparators.has_unterminated_separators());
    assert!(ParseErrorKind::HasUnterminatedSeparators.has_unterminated_separators());
    assert!(!ParseErrorKind::HasUnterminatedSeparators.has_consecutive_separators());
    assert!(ParseErrorKind::HasInvalidChars.has_invalid_chars());
    assert!(!ParseErrorKind::HasInvalidChars.has_caps_chars());
}

#[test]
fn kind_messages_are_fixed_sentences() {
    assert_eq!(ParseErrorKind::TooLong.message(), "the account ID is too long");
    assert_eq!(ParseErrorKind::TooShort.message(), "the account ID is too short");
    assert_eq!(ParseErrorKind::HasCapsChars.message(), "the account ID has upper-case characters");
    assert_eq!(
        ParseErrorKind::HasConsecutiveSeparators.message(),
        "the account ID has separators immediately following each other"
    );
    assert_eq!(
        ParseErrorKind::HasUnterminatedSeparators.message(),
        "the account ID begins or ends with a separator"
    );
    assert_eq!(ParseErrorKind::HasInvalidChars.message(), "the account ID has an invalid format");
}

#[test]
fn account_error_reports_kind_and_identifier() {
    let e = ParseAccountError::new(ParseErrorKind::TooShort, "ab".to_string());
    assert!(e.kind().is_too_short());
    assert!(!e.kind().is_too_long());
    assert_eq!(e.message(), "[ab]: the account ID is too short");
    assert_eq!(e.get_account_id(), "ab");
}

#[test]
fn account_errors_compare_by_contents() {
    let a = ParseAccountError::new(ParseErrorKind::HasCapsChars, "Emily.near".to_string());
    let b = ParseAccountError::new(ParseErrorKind::HasCapsChars, "Emily.near".to_string());
    let c = ParseAccountError::new(ParseErrorKind::HasInvalidChars, "user@app.com".to_string());
    assert_eq!(a, b);
    assert_ne!(a, c);
    assert_eq!(a.clone().get_account_id(), "Emily.near");
}
