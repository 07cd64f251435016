use sipster::ipc::is_uri_decodable;
use sipster::ipc::{percent_decode, Command};

#[test]
fn an_unknown_action_is_refused_rather_than_dialled() {
    assert_eq!(Command::from_uri("sipster://wibble"), None);
    assert_eq!(Command::from_uri("sipster://open/nonsense"), None);
    assert_eq!(Command::from_uri("sipster://transfer"), None);
    assert_eq!(Command::from_uri("sipster://transfer/"), None);
}

#[test]
fn call_control_actions_are_understood() {
    assert_eq!(Command::from_uri("sipster://hold"), Some(Command::SetHold { hold: true }));
    assert_eq!(Command::from_uri("sipster://resume"), Some(Command::SetHold { hold: false }));
    assert_eq!(
        Command::from_uri("sipster://transfer/**623"),
        Some(Command::Transfer { target: "**623".into() })
    );
    assert_eq!(Command::from_uri("sipster://dtmf/5"), Some(Command::Dtmf { digit: '5' }));
}

#[test]
fn a_bare_number_still_reaches_the_dial_box() {
    assert_eq!(
        Command::from_uri("sipster:**622"),
        Some(Command::Dial { target: "**622".into() })
    );
    assert_eq!(
        Command::from_uri("sipster:+49 30 1234-567"),
        Some(Command::Dial { target: "+49 30 1234-567".into() })
    );
    assert_eq!(
        Command::from_uri("sipster:bob@example.com"),
        Some(Command::Dial { target: "bob@example.com".into() })
    );
}

#[test]
fn mod_parses_plain_tel_uri() {
    assert_eq!(Command::from_uri("tel:611"), Some(Command::Dial { target: "611".into() }));
}

#[test]
fn mod_parses_tel_uri_with_authority_and_query() {
    assert_eq!(
        Command::from_uri("tel://611?call"),
        Some(Command::Dial { target: "611".into() })
    );
}

#[test]
fn mod_strips_rfc3966_visual_separators() {
    assert_eq!(
        Command::from_uri("tel:+49-30-12 34"),
        Some(Command::Dial { target: "+493012 34".replace(' ', "") })
    );
}

#[test]
fn mod_decodes_percent_encoding() {
    assert_eq!(
        Command::from_uri("tel:%2B4930123"),
        Some(Command::Dial { target: "+4930123".into() })
    );
}

#[test]
fn parses_sipster_app_scheme() {
    assert_eq!(Command::from_uri("sipster://open/settings"), Some(Command::OpenSettings));
    assert_eq!(Command::from_uri("sipster://settings"), Some(Command::OpenSettings));
    assert_eq!(Command::from_uri("sipster://open/contacts"), Some(Command::OpenContacts));
    assert_eq!(Command::from_uri("sipster://open/calllist"), Some(Command::OpenCallList));
    assert_eq!(Command::from_uri("sipster://hangup"), Some(Command::Hangup));
    assert_eq!(Command::from_uri("sipster://answer"), Some(Command::Answer));
    assert_eq!(Command::from_uri("sipster://show"), Some(Command::Show));
    assert_eq!(
        Command::from_uri("sipster://call/611"),
        Some(Command::Call { target: "611".into() })
    );
    assert_eq!(
        Command::from_uri("sipster://dial/611"),
        Some(Command::Dial { target: "611".into() })
    );
    assert_eq!(Command::from_uri("sipster:611"), Some(Command::Dial { target: "611".into() }));
}

#[test]
fn mod_keeps_sip_uris_intact() {
    assert_eq!(
        Command::from_uri("sip:bob@example.com"),
        Some(Command::Dial { target: "sip:bob@example.com".into() })
    );
}

#[test]
fn mod_rejects_unrelated_schemes() {
    assert_eq!(Command::from_uri("https://example.com"), None);
    assert_eq!(Command::from_uri("611"), None);
}

#[test]
fn mod_rejects_empty_target() {
    assert_eq!(Command::from_uri("tel:"), None);
    assert_eq!(Command::from_uri("tel:---"), None);
}

#[test]
fn a_uri_argument_is_the_command() {
    assert_eq!(
        Command::from_args(&["sipster://call/**611"]),
        Some(Command::Call { target: "**611".into() })
    );
    assert_eq!(Command::from_args(&["sipster://answer"]), Some(Command::Answer));
    assert_eq!(Command::from_args(&["sipster://hangup"]), Some(Command::Hangup));
    assert_eq!(Command::from_args(&["sipster://quit"]), Some(Command::Quit));
    assert_eq!(Command::from_args(&["tel:611"]), Some(Command::Dial { target: "611".into() }));
}

#[test]
fn the_removed_flags_are_not_commands() {
    for args in [
        vec!["--call", "611"],
        vec!["-c", "611"],
        vec!["--dial", "611"],
        vec!["--answer"],
        vec!["--hangup"],
        vec!["--show"],
        vec!["--quit"],
        vec!["--unknown"],
    ] {
        assert_eq!(Command::from_args(&args), None, "{args:?}");
    }
}

#[test]
fn the_config_flag_is_not_a_command() {
    assert_eq!(
        Command::from_args(&["--config-file", "/home/me/.config/sipster/work.toml"]),
        None
    );
}

#[test]
fn schemes_are_matched_without_regard_to_case() {
    assert_eq!(Command::from_uri("  TEL:611 "), Some(Command::Dial { target: "611".into() }));
    assert_eq!(
        Command::from_uri("SIP:bob@example.com"),
        Some(Command::Dial { target: "sip:bob@example.com".into() })
    );
    assert_eq!(Command::from_uri("SIPSTER://Hangup"), Some(Command::Hangup));
}

#[test]
fn callto_and_sips_are_telephony_schemes() {
    assert_eq!(Command::from_uri("callto:0049-30"), Some(Command::Dial { target: "004930".into() }));
    assert_eq!(
        Command::from_uri("sips:alice@example.com?x"),
        Some(Command::Dial { target: "sips:alice@example.com".into() })
    );
}

#[test]
fn an_empty_action_shows_the_window() {
    assert_eq!(Command::from_uri("sipster:?611"), Some(Command::Show));
    assert_eq!(Command::from_uri("sipster:"), Some(Command::Show));
    assert_eq!(Command::from_uri("sipster://call/"), Some(Command::Show));
    assert_eq!(Command::from_uri("sipster://quit"), Some(Command::Quit));
    assert_eq!(Command::from_uri("sipster://history"), Some(Command::OpenCallList));
    assert_eq!(Command::from_uri("sipster://unhold"), Some(Command::SetHold { hold: false }));
}

#[test]
fn percent_decoding_leaves_bad_escapes_alone() {
    assert_eq!(percent_decode("%41%42c"), "ABc");
    assert_eq!(percent_decode("%zz%4"), "%zz%4");
    assert_eq!(percent_decode("%C3%A4"), "ä");
    assert_eq!(percent_decode("%FF"), "\u{FFFD}");
}

#[test]
fn the_first_uri_among_the_arguments_wins() {
    assert_eq!(
        Command::from_args(&["--verbose", "tel:1", "tel:2"]),
        Some(Command::Dial { target: "1".into() })
    );
    assert_eq!(Command::from_args(&[]), None);
}

#[test]
fn an_escape_that_splits_a_character_is_not_parsed() {
    assert!(is_uri_decodable("tel:%2B49"));
    assert!(!is_uri_decodable("tel:%4é"));
    assert!(is_uri_decodable("https://%4é"));
    assert_eq!(Command::checked_from_args(&["--x", "tel:%4é"]), None);
    assert_eq!(
        Command::checked_from_args(&["tel:611", "tel:%4é"]),
        Some(Some(Command::Dial { target: "611".into() }))
    );
    assert_eq!(Command::checked_from_args(&["--quit"]), Some(None));
}

#[test]
fn valid_utf8_is_decoded_as_it_is() {
    assert_eq!(percent_decode("611"), "611");
    assert_eq!(percent_decode("M%C3%BCller"), "Müller");
}
