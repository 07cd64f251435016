use sipster::pinned_tls::{
    fingerprint_of, unclean_close, PinDecision, PinnedCert, StreamErrorKind,
};

#[test]
fn a_missing_close_notify_reads_as_end_of_stream() {
    assert!(unclean_close(
        StreamErrorKind::UnexpectedEof,
        "peer closed connection without sending TLS close_notify",
    ));
}

#[test]
fn a_genuine_truncation_is_still_an_error() {
    assert!(!unclean_close(StreamErrorKind::UnexpectedEof, "failed to fill whole buffer"));
}

#[test]
fn an_unrelated_error_is_not_treated_as_end_of_stream() {
    assert!(!unclean_close(StreamErrorKind::Other, "connection reset by peer"));
}

#[test]
fn an_aborted_connection_without_close_notify_also_ends_the_stream() {
    assert!(unclean_close(StreamErrorKind::ConnectionAborted, "missing CLOSE_NOTIFY alert"));
    assert!(!unclean_close(StreamErrorKind::Other, "close_notify"));
}

#[test]
fn a_fingerprint_is_lower_case_hex_of_a_sha256() {
    let fp = fingerprint_of(b"abc");
    assert_eq!(fp, "ba7816bf8f01cfea414140de5dae2223b00361a396177a9cb410ff61f20015ad");
    assert_eq!(fp.len(), 64);
    assert_ne!(fingerprint_of(b"one certificate"), fingerprint_of(b"another certificate"));
}

#[test]
fn the_pin_accepts_its_certificate_and_refuses_others() {
    let pinned = PinnedCert::new("aa".into(), None);
    assert_eq!(pinned.check("aa".into()), PinDecision::Matched);
    assert_eq!(
        pinned.check("bb".into()),
        PinDecision::Refused("certificate fingerprint changed: expected aa, got bb".into())
    );
    let first_use = PinnedCert::new(String::new(), None);
    assert_eq!(first_use.check("cc".into()), PinDecision::Learned("cc".into()));
    let learned_earlier = PinnedCert::new(String::new(), Some("cc".into()));
    assert_eq!(learned_earlier.expected, "cc");
    assert_eq!(learned_earlier.check("dd".into()), PinDecision::Refused("certificate fingerprint changed: expected cc, got dd".into()));
}

#[test]
fn a_fingerprint_is_sixty_four_lowercase_hex_digits() {
    let fp = fingerprint_of(b"");
    assert_eq!(fp.len(), 64);
    assert!(fp.chars().all(|c| c.is_ascii_digit() || ('a'..='f').contains(&c)));
}
