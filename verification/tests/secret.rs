use sipster::secret::{decode, encode, encode_with_nonce, open, seal};

const KEY: [u8; 32] = [7u8; 32];

#[test]
fn a_credential_round_trips_and_is_not_readable_in_the_file() {
    let stored = encode(Some(&KEY), "hunter2");
    assert_ne!(stored, "hunter2");
    assert!(!stored.contains("hunter2"));
    assert_eq!(decode(Some(&KEY), &stored), "hunter2");
}

#[test]
fn plain_text_from_an_older_config_is_read_unchanged() {
    assert_eq!(decode(Some(&KEY), "my old password"), "my old password");
}

#[test]
fn a_password_that_is_valid_base64_is_not_mangled() {
    assert_eq!(decode(Some(&KEY), "sysadmin"), "sysadmin");
}

#[test]
fn the_same_secret_encrypts_differently_each_time() {
    assert_ne!(encode(Some(&KEY), "hunter2"), encode(Some(&KEY), "hunter2"));
}

#[test]
fn an_empty_field_stays_empty() {
    assert_eq!(encode(Some(&KEY), ""), "");
    assert_eq!(decode(Some(&KEY), ""), "");
}

#[test]
fn without_a_key_credentials_stay_in_the_clear() {
    assert_eq!(encode(None, "hunter2"), "hunter2");
    assert_eq!(decode(None, "hunter2"), "hunter2");
}

#[test]
fn another_key_does_not_open_it() {
    let sealed = seal(&KEY, [1u8; 12], "pässword").unwrap();
    assert_eq!(open(&KEY, &sealed).as_deref(), Some("pässword"));
    assert_eq!(open(&[8u8; 32], &sealed), None);
    assert_eq!(decode(Some(&[8u8; 32]), &sealed), sealed);
}

#[test]
fn the_stored_form_is_base64_of_nonce_and_ciphertext() {
    assert_eq!(sipster::secret::stored_value([0u8; 12], b"ab"), "AAAAAAAAAAAAAAAAYWI=");
}

#[test]
fn with_a_key_and_a_nonce_a_credential_is_stored_sealed() {
    let stored = encode_with_nonce(Some(&KEY), Some([3u8; 12]), "hunter2");
    assert_eq!(Some(stored.clone()), seal(&KEY, [3u8; 12], "hunter2"));
    assert_eq!(decode(Some(&KEY), &stored), "hunter2");
    assert_eq!(encode_with_nonce(Some(&KEY), None, "hunter2"), "hunter2");
    assert_eq!(encode_with_nonce(None, Some([3u8; 12]), "hunter2"), "hunter2");
    assert_eq!(encode_with_nonce(Some(&KEY), Some([3u8; 12]), ""), "");
}

#[test]
fn what_decode_changes_was_sealed_and_what_it_keeps_was_not() {
    assert_eq!(decode(Some(&KEY), "YWJjZA=="), "YWJjZA==");
    assert_eq!(decode(Some(&KEY), "sysadmin"), "sysadmin");
}
