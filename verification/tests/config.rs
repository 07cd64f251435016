use sipster::config::{
    mask_identity, AudioSettings, BlockAction, CommandsSettings, Config, FritzBoxSettings,
    IntegrationSettings, LanguageChoice, SipAccount, ThemeChoice, Transport, UiSettings,
};
use sipster::config::integration::redacted;
use sipster::config::default_log_filter;

#[test]
fn the_label_is_built_from_the_account() {
    let mut account = SipAccount {
        registrar: "fritz.box".into(),
        port: 5060,
        username: "bluscream".into(),
        ..SipAccount::default()
    };
    assert_eq!(account.label(), "udp://bluscream@fritz.box:5060");

    account.auth_user = "bluscream2".into();
    assert_eq!(account.label(), "udp://bluscream2@fritz.box:5060");

    account.transport = Transport::Tls;
    account.port = 5061;
    assert_eq!(account.label(), "tls://bluscream2@fritz.box:5061");
}

#[test]
fn each_transport_has_its_own_scheme_and_default_port() {
    assert_eq!(Transport::Udp.scheme(), "sip");
    assert_eq!(Transport::Tcp.scheme(), "sip");
    assert_eq!(Transport::Tls.scheme(), "sips");
    assert_eq!(Transport::Udp.default_port(), 5060);
    assert_eq!(Transport::Tcp.default_port(), 5060);
    assert_eq!(Transport::Tls.default_port(), 5061);
}

#[test]
fn a_tls_account_builds_a_sips_registrar_uri() {
    let account = SipAccount {
        registrar: "fritz.box".into(),
        port: 5061,
        transport: Transport::Tls,
        ..SipAccount::default()
    };
    assert_eq!(account.registrar_uri(), "sips:fritz.box:5061");
}

#[test]
fn an_explicit_scheme_survives_the_transport_default() {
    let account = SipAccount {
        registrar: "sip:fritz.box".into(),
        port: 5060,
        transport: Transport::Tls,
        ..SipAccount::default()
    };
    assert_eq!(account.registrar_uri(), "sip:fritz.box:5060");
}

#[test]
fn the_config_flag_selects_the_file() {
    assert_eq!(Config::path_from(&["--config-file", "/from/flag.toml"], "/default.toml"), "/from/flag.toml");
    assert_eq!(Config::path_from(&["--config=/short.toml"], "/default.toml"), "/short.toml");
}

#[test]
fn defaults_when_no_flag_is_given() {
    assert_eq!(Config::path_from(&[], "/default.toml"), "/default.toml");
    assert_eq!(Config::path_from(&["--config-file", "  "], "/default.toml"), "/default.toml");
}

#[test]
fn needs_setup_until_a_usable_account_exists() {
    let mut config = Config::default();
    assert!(config.needs_setup(), "a default account has no registrar");

    config.account.registrar = "fritz.box".into();
    assert!(config.needs_setup(), "still no username");

    config.account.username = "bob".into();
    assert!(!config.needs_setup(), "registrar and username are enough");
}

#[test]
fn keeps_only_the_outer_characters() {
    assert_eq!(mask_identity("Alice Smith"), "A…h");
    assert_eq!(mask_identity("+49301234567"), "+…7");
    assert_eq!(mask_identity("**610"), "*…0");
}

#[test]
fn very_short_values_reveal_nothing() {
    assert_eq!(mask_identity("ab"), "…");
    assert_eq!(mask_identity("a"), "…");
    assert_eq!(mask_identity(""), "");
}

#[test]
fn handles_multi_byte_characters() {
    assert_eq!(mask_identity("Müller"), "M…r");
    assert_eq!(mask_identity("日本語です"), "日…す");
}

#[test]
fn surrounding_whitespace_is_ignored() {
    assert_eq!(mask_identity("  Alice  "), "A…e");
}

#[test]
fn labels_name_every_choice() {
    assert_eq!(ThemeChoice::SolarizedDark.label(), "Solarized Dark");
    assert_eq!(ThemeChoice::ALL.len(), 8);
    assert_eq!(LanguageChoice::German.code(), "de");
    assert_eq!(LanguageChoice::German.label(), "Deutsch");
    assert_eq!(BlockAction::Mute.label(), "Mute (Silent Ring)");
    assert_eq!(Transport::Tcp.label(), "TCP");
}

#[test]
fn defaults_match_the_documented_ones() {
    let ui = UiSettings::default();
    assert_eq!(ui.theme, ThemeChoice::Dark);
    assert!(ui.ringtone && ui.close_to_tray && !ui.streaming_mode);
    let fritz = FritzBoxSettings::default();
    assert_eq!(fritz.host, "fritz.box");
    assert_eq!(fritz.port, 49000);
    assert!(fritz.tls && !fritz.enabled);
    let integration = IntegrationSettings::default();
    assert!(integration.eds_enabled && integration.local_history_enabled);
    assert_eq!(AudioSettings::default().output, None);
    assert_eq!(CommandsSettings::default().edit_eds, "gnome-contacts");
    assert!(default_log_filter().starts_with("info,sipster_core=debug"));
}

#[test]
fn a_redacted_secret_says_whether_it_is_set() {
    assert_eq!(redacted(""), "<empty>");
    assert_eq!(redacted("hunter2"), "<redacted>");
}
