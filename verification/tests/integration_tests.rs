//! Offline tests of the account configuration.
use sipster::{SipAccount, SipsterError};

#[test]
fn default_account_uses_standard_sip_port() {
    let account = SipAccount::default();
    assert_eq!(account.port, 5060);
    assert!(account.registrar.is_empty());
}

#[test]
fn empty_registrar_fails_validation() {
    let account = SipAccount::default();
    assert!(account.validate().is_err(), "empty registrar must be rejected");
}

#[test]
fn valid_account_passes_validation() {
    let account = SipAccount {
        registrar: "fritz.box".into(),
        username: "620".into(),
        ..SipAccount::default()
    };
    assert!(account.validate().is_ok());
}

#[test]
fn auth_user_falls_back_to_username() {
    let account = SipAccount { username: "620".into(), auth_user: String::new(), ..SipAccount::default() };
    assert_eq!(account.effective_auth_user(), "620");

    let explicit = SipAccount { username: "620".into(), auth_user: "sip620".into(), ..SipAccount::default() };
    assert_eq!(explicit.effective_auth_user(), "sip620");
}

#[test]
fn registrar_uri_gains_scheme_and_port() {
    let account = SipAccount { registrar: "192.168.2.1".into(), port: 5060, ..SipAccount::default() };
    assert_eq!(account.registrar_uri(), "sip:192.168.2.1:5060");
}

#[test]
fn registrar_uri_accepts_the_forms_users_type() {
    let with = |registrar: &str, port: u16| {
        SipAccount { registrar: registrar.into(), port, ..SipAccount::default() }.registrar_uri()
    };
    assert_eq!(with("fritz.box", 5060), "sip:fritz.box:5060");
    assert_eq!(with("fritz.box:5070", 5060), "sip:fritz.box:5070");
    assert_eq!(with("sip:fritz.box:5060", 5060), "sip:fritz.box:5060");
    assert_eq!(with("sip:fritz.box", 5060), "sip:fritz.box:5060");
    assert_eq!(with("sips:secure.example", 5061), "sips:secure.example:5061");
    assert_eq!(with("  fritz.box  ", 5060), "sip:fritz.box:5060");
}

#[test]
fn registrar_uri_handles_ipv6() {
    let with = |registrar: &str| {
        SipAccount { registrar: registrar.into(), port: 5060, ..SipAccount::default() }.registrar_uri()
    };
    assert_eq!(with("[2001:db8::1]"), "sip:[2001:db8::1]:5060");
    assert_eq!(with("[2001:db8::1]:5070"), "sip:[2001:db8::1]:5070");
}

#[test]
fn password_is_never_shown_in_debug() {
    let account = SipAccount { password: "s3cr3t-pw".into(), ..SipAccount::default() };
    let rendered = account.debug_text();
    assert!(!rendered.contains("s3cr3t-pw"), "password leaked via Debug: {rendered}");
    assert!(rendered.contains("<redacted>"));
}

#[test]
fn the_debug_text_has_the_shape_of_a_derived_debug() {
    let account = SipAccount { registrar: "fritz.box".into(), username: "bob".into(), ..SipAccount::default() };
    assert_eq!(
        account.debug_text(),
        "SipAccount { registrar: \"fritz.box\", port: 5060, username: \"bob\", auth_user: \"\", password: \"<redacted>\", transport: Udp, enabled: true, expires: 600, local_port: 5060 }"
    );
}

#[test]
fn validation_errors_name_the_missing_field() {
    let no_user = SipAccount { registrar: "fritz.box".into(), username: "  ".into(), ..SipAccount::default() };
    assert_eq!(no_user.validate(), Err(SipsterError::Config("username is empty".into())));
    assert_eq!(SipAccount::default().validate(), Err(SipsterError::Config("registrar host is empty".into())));
}

#[test]
fn call_ids_are_unique() {
    assert_ne!(sipster::CallId::new(), sipster::CallId::new());
}

#[test]
fn call_ids_are_version_4_uuids() {
    let id = sipster::CallId::new();
    assert_eq!((id.0 >> 76) & 0xf, 4);
    assert_eq!((id.0 >> 62) & 0x3, 2);
}
