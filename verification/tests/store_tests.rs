//! Tests of the config store policies and the full pipeline.

use base64::Engine;
use token_provider::document::Document;
use token_provider::pipeline::apply_encrypted_config;
use token_provider::store::interpret_config_content;
use token_provider::crypto::encrypt_data;
use token_provider::TokenProviderError;

fn s(text: &str) -> String {
    text.to_string()
}

fn obj(entries: Vec<(&str, Document)>) -> Document {
    Document::Obj(entries.into_iter().map(|(k, v)| (s(k), v)).collect())
}

#[test]
fn test_file_operations() {
    let existing_config = obj(vec![
        ("version", Document::Num(s("1"))),
        ("data", Document::Str(s("test"))),
    ]);
    let content = "{\n  \"version\": 1,\n  \"data\": \"test\"\n}\n";

    let read_config = interpret_config_content(Some(content));
    assert!(read_config.unwrap().deep_eq(&existing_config));
}

#[test]
fn test_corrupted_json_handling() {
    let result = interpret_config_content(Some("not valid json\n"));
    assert!(result.is_none()); // corrupted content is discarded, not an error
}

#[test]
fn test_missing_file_yields_no_base() {
    assert!(interpret_config_content(None).is_none());
}

#[test]
fn test_end_to_end_pipeline_on_empty_config() {
    let encoder = base64::engine::general_purpose::STANDARD;
    let key = [11u8; 32];
    let nonce = [13u8; 12];
    let plaintext = "{\"token\":\"abc\",\"nested\":{\"n\":1}}";

    let ciphertext = encrypt_data(plaintext.as_bytes(), &key, &nonce).unwrap();
    let key_text = encoder.encode(key);
    let nonce_text = encoder.encode(nonce);

    let result = apply_encrypted_config(&key_text, &nonce_text, &ciphertext, None).unwrap();

    let expected = obj(vec![
        ("token", Document::Str(s("abc"))),
        ("nested", obj(vec![("n", Document::Num(s("1")))])),
    ]);
    assert!(result.deep_eq(&expected));
}

#[test]
fn test_end_to_end_pipeline_merges_existing() {
    let encoder = base64::engine::general_purpose::STANDARD;
    let key = [21u8; 32];
    let nonce = [23u8; 12];
    let plaintext = "{\"nested\":{\"b\":2}}";

    let ciphertext = encrypt_data(plaintext.as_bytes(), &key, &nonce).unwrap();
    let key_text = encoder.encode(key);
    let nonce_text = encoder.encode(nonce);

    let existing = obj(vec![
        ("keep", Document::Bool(true)),
        ("nested", obj(vec![("a", Document::Num(s("1")))])),
    ]);
    let result =
        apply_encrypted_config(&key_text, &nonce_text, &ciphertext, Some(existing)).unwrap();

    let expected = obj(vec![
        ("keep", Document::Bool(true)),
        (
            "nested",
            obj(vec![
                ("a", Document::Num(s("1"))),
                ("b", Document::Num(s("2"))),
            ]),
        ),
    ]);
    assert!(result.deep_eq(&expected));
}

#[test]
fn test_pipeline_rejects_wrong_credentials() {
    let encoder = base64::engine::general_purpose::STANDARD;
    let key = [31u8; 32];
    let nonce = [33u8; 12];
    let ciphertext = encrypt_data(b"{}", &key, &nonce).unwrap();

    let other_key = encoder.encode([32u8; 32]);
    let nonce_text = encoder.encode(nonce);
    let result = apply_encrypted_config(&other_key, &nonce_text, &ciphertext, None);
    assert!(matches!(result, Err(TokenProviderError::CryptoError(_))));
}

#[test]
fn test_pipeline_reports_key_and_nonce_lengths() {
    let encoder = base64::engine::general_purpose::STANDARD;
    let short_key = encoder.encode([0u8; 16]);
    let good_key = encoder.encode([0u8; 32]);
    let long_nonce = encoder.encode([0u8; 13]);

    let result = apply_encrypted_config(&short_key, "AAAA", &[1u8; 20], None);
    assert!(matches!(
        result,
        Err(TokenProviderError::InvalidKeyLength { actual: 16 })
    ));

    let result = apply_encrypted_config(&good_key, &long_nonce, &[1u8; 20], None);
    assert!(matches!(
        result,
        Err(TokenProviderError::InvalidIvLength { actual: 13 })
    ));

    let result = apply_encrypted_config("!!!", "AAAA", &[1u8; 20], None);
    assert!(matches!(result, Err(TokenProviderError::InvalidBase64(_))));
}

#[test]
fn test_pipeline_rejects_empty_ciphertext() {
    let encoder = base64::engine::general_purpose::STANDARD;
    let key_text = encoder.encode([1u8; 32]);
    let nonce_text = encoder.encode([2u8; 12]);

    let result = apply_encrypted_config(&key_text, &nonce_text, &[], None);
    assert!(matches!(result, Err(TokenProviderError::CryptoError(_))));
}

#[test]
fn test_pipeline_rejects_plaintext_that_is_not_json() {
    let encoder = base64::engine::general_purpose::STANDARD;
    let key = [41u8; 32];
    let nonce = [43u8; 12];
    let ciphertext = encrypt_data(b"this is not json", &key, &nonce).unwrap();

    let result = apply_encrypted_config(
        &encoder.encode(key),
        &encoder.encode(nonce),
        &ciphertext,
        None,
    );
    assert!(matches!(result, Err(TokenProviderError::JsonError(_))));
}

#[test]
fn test_pipeline_rejects_plaintext_that_is_not_utf8() {
    let encoder = base64::engine::general_purpose::STANDARD;
    let key = [51u8; 32];
    let nonce = [53u8; 12];
    let ciphertext = encrypt_data(&[0xff, 0xfe, 0x80], &key, &nonce).unwrap();

    let result = apply_encrypted_config(
        &encoder.encode(key),
        &encoder.encode(nonce),
        &ciphertext,
        None,
    );
    assert!(matches!(result, Err(TokenProviderError::CryptoError(_))));
}
