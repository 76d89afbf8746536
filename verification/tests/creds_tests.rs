use authpool::creds::{extract_credentials, CredExtract};
use base64::Engine;

fn b64(text: &str) -> String {
    base64::engine::general_purpose::STANDARD.encode(text)
}

fn lines(raw: &[String]) -> Vec<Vec<u8>> {
    raw.iter().map(|s| s.as_bytes().to_vec()).collect()
}

#[test]
fn no_header_means_missing() {
    let headers = lines(&["Host: localhost".to_string()]);
    assert!(matches!(extract_credentials(&headers), CredExtract::Missing));
}

#[test]
fn foreign_scheme_means_missing() {
    let headers = lines(&["Authorization: Bearer abcdef".to_string()]);
    assert!(matches!(extract_credentials(&headers), CredExtract::Missing));
}

#[test]
fn valid_basic_pair_is_found() {
    let headers = lines(&[
        "Host: localhost".to_string(),
        format!("Authorization: Basic {}", b64("alice:pw1")),
    ]);
    match extract_credentials(&headers) {
        CredExtract::Found(c) => {
            assert_eq!(c.userid, "alice");
            assert_eq!(c.secret, "pw1");
        },
        _ => panic!("expected credentials"),
    }
}

#[test]
fn secret_keeps_everything_after_first_colon() {
    let headers = lines(&[format!("Authorization: Basic {}", b64("bob:a:b:c"))]);
    match extract_credentials(&headers) {
        CredExtract::Found(c) => {
            assert_eq!(c.userid, "bob");
            assert_eq!(c.secret, "a:b:c");
        },
        _ => panic!("expected credentials"),
    }
}

#[test]
fn bad_base64_is_malformed() {
    let headers = lines(&["Authorization: Basic @@@not-base64@@@".to_string()]);
    assert!(matches!(
        extract_credentials(&headers),
        CredExtract::Malformed
    ));
}

#[test]
fn decoded_text_without_colon_is_malformed() {
    let headers = lines(&[format!("Authorization: Basic {}", b64("nocolonhere"))]);
    assert!(matches!(
        extract_credentials(&headers),
        CredExtract::Malformed
    ));
}

#[test]
fn basic_without_token_is_malformed() {
    let headers = lines(&["Authorization: Basic".to_string()]);
    assert!(matches!(
        extract_credentials(&headers),
        CredExtract::Malformed
    ));
}
