//! Tests of the base64 input pre-filter.

use token_provider::input::{is_affirmative, validate_base64_format};
use token_provider::Base64Issue;
use token_provider::TokenProviderError;

#[test]
fn test_validate_base64_format() {
    // Valid base64
    assert!(validate_base64_format("SGVsbG8gV29ybGQ=").is_ok());
    assert!(validate_base64_format("AAAAAAAAAAAAAAAAAAAAAAAAAAAAAAAAAAAAAAAAAAA=").is_ok());

    // Invalid characters
    assert!(validate_base64_format("Hello@World!").is_err());
    assert!(validate_base64_format("SGVsbG8gV29ybGQ===").is_err()); // Too much padding
}

#[test]
fn test_validate_base64_format_reports_the_fault() {
    assert!(matches!(
        validate_base64_format("ab cd"),
        Err(TokenProviderError::InvalidBase64(Base64Issue::InvalidByte(
            0, 0
        )))
    ));
    assert!(matches!(
        validate_base64_format("abcd===="),
        Err(TokenProviderError::InvalidBase64(Base64Issue::InvalidPadding))
    ));
}

#[test]
fn test_validate_base64_format_edges() {
    assert!(validate_base64_format("").is_ok());
    assert!(validate_base64_format("==").is_ok());
    assert!(validate_base64_format("+/09azAZ").is_ok());
    assert!(validate_base64_format("a=b=c=").is_ok()); // misplaced padding passes the pre-filter
    assert!(validate_base64_format("===").is_err());
    assert!(validate_base64_format("caf\u{e9}").is_err()); // non-ASCII
}

#[test]
fn test_is_affirmative() {
    assert!(is_affirmative("y"));
    assert!(is_affirmative("Y"));
    assert!(is_affirmative("yes"));
    assert!(is_affirmative("YES"));
    assert!(is_affirmative("  Yes \n"));
    assert!(!is_affirmative(""));
    assert!(!is_affirmative("n"));
    assert!(!is_affirmative("yess"));
    assert!(!is_affirmative("no"));
    assert!(!is_affirmative("y e s"));
}
