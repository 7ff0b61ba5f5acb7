use aes_gcm::aead::{Aead, KeyInit};
use aes_gcm::{Aes256Gcm, Key, Nonce};
use daikoku::codec::{derive_parameter, open_snapshot, seal_snapshot, KEY_LEN, NONCE_LEN};
use daikoku::error::DkkError;

fn s(t: &str) -> String {
    t.to_string()
}

#[test]
fn round_trip_returns_the_same_text() {
    let text = s("(alias:\"Home\",accounts:[])");
    let sealed = seal_snapshot(&text, &s("1234"), &s("daikoku")).unwrap();
    assert_ne!(sealed, text.as_bytes().to_vec());
    let opened = open_snapshot(&sealed, &s("1234"), &s("daikoku")).unwrap();
    assert_eq!(opened, text);
}

#[test]
fn round_trip_of_empty_and_non_ascii_text() {
    for text in ["", "café €100 — ok"] {
        let sealed = seal_snapshot(&s(text), &s("9"), &s("k")).unwrap();
        assert_eq!(open_snapshot(&sealed, &s("9"), &s("k")).unwrap(), text);
    }
}

#[test]
fn sealing_is_deterministic() {
    let a = seal_snapshot(&s("wallet"), &s("1111"), &s("key")).unwrap();
    let b = seal_snapshot(&s("wallet"), &s("1111"), &s("key")).unwrap();
    assert_eq!(a, b);
    assert_eq!(a.len(), "wallet".len() + 16);
}

#[test]
fn wrong_pin_is_not_authorized() {
    let sealed = seal_snapshot(&s("wallet"), &s("1234"), &s("daikoku")).unwrap();
    assert_eq!(open_snapshot(&sealed, &s("4321"), &s("daikoku")), Err(DkkError::NotAuthorized));
}

#[test]
fn wrong_key_is_not_authorized() {
    let sealed = seal_snapshot(&s("wallet"), &s("1234"), &s("daikoku")).unwrap();
    assert_eq!(open_snapshot(&sealed, &s("1234"), &s("daikokv")), Err(DkkError::NotAuthorized));
}

#[test]
fn tampered_snapshot_is_not_authorized() {
    let mut sealed = seal_snapshot(&s("wallet"), &s("1234"), &s("daikoku")).unwrap();
    sealed[0] ^= 1;
    assert_eq!(open_snapshot(&sealed, &s("1234"), &s("daikoku")), Err(DkkError::NotAuthorized));
    assert_eq!(open_snapshot(&vec![1, 2, 3], &s("1234"), &s("daikoku")), Err(DkkError::NotAuthorized));
}

#[test]
fn over_long_credentials_are_refused() {
    let long_key = "k".repeat(33);
    let long_pin = "1".repeat(13);
    assert_eq!(seal_snapshot(&s("w"), &s("1"), &long_key), Err(DkkError::CredentialTooLong));
    assert_eq!(seal_snapshot(&s("w"), &long_pin, &s("k")), Err(DkkError::CredentialTooLong));
    assert_eq!(open_snapshot(&vec![0; 20], &long_pin, &s("k")), Err(DkkError::CredentialTooLong));
    let exact_key = "k".repeat(32);
    let exact_pin = "1".repeat(12);
    let sealed = seal_snapshot(&s("w"), &exact_pin, &exact_key).unwrap();
    assert_eq!(open_snapshot(&sealed, &exact_pin, &exact_key).unwrap(), "w");
}

#[test]
fn parameters_are_left_padded_with_spaces() {
    let k = derive_parameter(&s("daikoku"), KEY_LEN).unwrap();
    assert_eq!(k, format!("{}daikoku", " ".repeat(25)).into_bytes());
    let n = derive_parameter(&s("1234"), NONCE_LEN).unwrap();
    assert_eq!(n, b"        1234".to_vec());
    assert_eq!(derive_parameter(&s("é"), 3).unwrap(), vec![b' ', 0xC3, 0xA9]);
    assert_eq!(derive_parameter(&s("abcd"), 3), Err(DkkError::CredentialTooLong));
}

#[test]
fn sealed_form_is_aes_256_gcm_under_padded_parameters() {
    let sealed = seal_snapshot(&s("wallet"), &s("1234"), &s("daikoku")).unwrap();
    let key = format!("{}daikoku", " ".repeat(25));
    let cipher = Aes256Gcm::new(Key::<Aes256Gcm>::from_slice(key.as_bytes()));
    let expected = cipher.encrypt(Nonce::from_slice(b"        1234"), b"wallet".as_slice()).unwrap();
    assert_eq!(sealed, expected);
}

#[test]
fn snapshot_that_is_not_text_is_a_utf8_error() {
    let key = format!("{}daikoku", " ".repeat(25));
    let cipher = Aes256Gcm::new(Key::<Aes256Gcm>::from_slice(key.as_bytes()));
    let sealed = cipher.encrypt(Nonce::from_slice(b"        1234"), [0xFFu8, 0xFE].as_slice()).unwrap();
    assert_eq!(open_snapshot(&sealed, &s("1234"), &s("daikoku")), Err(DkkError::Utf8));
}

#[test]
fn pins_that_pad_alike_open_the_same_snapshot() {
    let sealed = seal_snapshot(&s("wallet"), &s("1234"), &s("daikoku")).unwrap();
    assert_eq!(open_snapshot(&sealed, &s(" 1234"), &s("daikoku")).unwrap(), "wallet");
    assert_eq!(open_snapshot(&sealed, &s("1234"), &s(" daikoku")).unwrap(), "wallet");
}

#[test]
fn sealed_length_is_text_plus_tag() {
    for text in ["", "w", "café"] {
        let sealed = seal_snapshot(&s(text), &s("1"), &s("k")).unwrap();
        assert_eq!(sealed.len(), text.len() + 16);
    }
}
