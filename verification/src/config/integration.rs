//! Contact and call-history providers, and the settings that configure them.
use vstd::prelude::*;

verus! {

/// Action taken when an incoming call matches a blocked number.
#[derive(Debug, Clone, Copy, PartialEq, Eq, Structural)]
pub enum BlockAction {
    /// Send SIP 603 Decline immediately.
    Reject,
    /// Ring silently without playing audio or showing popup alerts.
    Mute,
}

impl Default for BlockAction {
    fn default() -> (a: Self)
        ensures
            a == BlockAction::Reject,
    {
        BlockAction::Reject
    }
}

impl BlockAction {
    pub const ALL: [BlockAction; 2] = [BlockAction::Reject, BlockAction::Mute];

    /// How the action is described in the settings window.
    pub fn label(self) -> (s: &'static str)
        ensures
            s@ == (match self {
                BlockAction::Reject => "Reject (Instant SIP 603)"@,
                BlockAction::Mute => "Mute (Silent Ring)"@,
            }),
    {
        match self {
            BlockAction::Reject => "Reject (Instant SIP 603)",
            BlockAction::Mute => "Mute (Silent Ring)",
        }
    }
}

/// A blocked number rule.
#[derive(Debug, Clone, PartialEq, Eq)]
pub struct BlockedNumber {
    pub number: String,
    pub name: Option<String>,
    pub action: BlockAction,
    pub added_at: String,
}

/// Google OAuth 2.0 account configuration for Google Contacts sync.
#[derive(Clone, PartialEq, Eq)]
pub struct GoogleAccountConfig {
    pub id: String,
    pub email: String,
    pub refresh_token: String,
    pub client_id: Option<String>,
    pub client_secret: Option<String>,
    pub enabled: bool,
}

/// `CardDAV` account configuration for remote address book sync.
#[derive(Clone, PartialEq, Eq)]
pub struct CardDavAccountConfig {
    pub id: String,
    pub name: String,
    pub url: String,
    pub username: String,
    pub password: String,
    pub enabled: bool,
}

/// FRITZ!Box TR-064 integration credentials.
#[derive(Clone, PartialEq, Eq)]
pub struct FritzBoxSettings {
    pub host: String,
    pub port: u16,
    /// Fetch over TLS rather than plain HTTP. On by default.
    pub tls: bool,
    /// SHA-256 of the router's certificate, remembered on the first TLS
    /// connection and required on every one after it.
    pub cert_fingerprint: String,
    pub username: String,
    pub password: String,
    pub enabled: bool,
}

impl Default for FritzBoxSettings {
    fn default() -> (f: Self)
        ensures
            f.host@ == "fritz.box"@,
            f.port == 49000,
            f.tls,
            f.cert_fingerprint@.len() == 0,
            f.username@.len() == 0,
            f.password@.len() == 0,
            !f.enabled,
    {
        FritzBoxSettings {
            host: "fritz.box".to_string(),
            port: 49000,
            tls: true,
            cert_fingerprint: String::new(),
            username: String::new(),
            password: String::new(),
            enabled: false,
        }
    }
}

/// `<redacted>` for anything set, `<empty>` for anything not — so a missing
/// credential is still diagnosable without revealing one that is present.
pub fn redacted(secret: &str) -> (s: &'static str)
    ensures
        s@ == (if secret@.len() == 0 {
            "<empty>"@
        } else {
            "<redacted>"@
        }),
{
    if secret.is_empty() {
        "<empty>"
    } else {
        "<redacted>"
    }
}

/// Settings for contact and call history providers, local storage, and call
/// blocking.
#[derive(Clone, PartialEq, Eq)]
pub struct IntegrationSettings {
    /// Save placed and received calls to local history.
    pub local_history_enabled: bool,
    /// FRITZ!Box router integration.
    pub fritzbox: FritzBoxSettings,
    /// Google Contacts accounts.
    pub google_accounts: Vec<GoogleAccountConfig>,
    /// `CardDAV` / vCard servers.
    pub carddav_accounts: Vec<CardDavAccountConfig>,
    /// Read contacts from Evolution Data Server.
    pub eds_enabled: bool,
    /// Read contacts from a local directory of `.vcf` files.
    pub vdir_enabled: bool,
    /// That directory; `None` means "look in the usual places".
    pub vdir_path: Option<String>,
    /// Numbers blocked from calling in.
    pub blocked_numbers: Vec<BlockedNumber>,
    /// Default action applied when blocking a number.
    pub default_block_action: BlockAction,
}

impl Default for IntegrationSettings {
    fn default() -> (s: Self)
        ensures
            s.local_history_enabled,
            s.fritzbox.host@ == "fritz.box"@ && s.fritzbox.port == 49000 && s.fritzbox.tls
                && !s.fritzbox.enabled,
            s.google_accounts@.len() == 0,
            s.carddav_accounts@.len() == 0,
            s.eds_enabled,
            s.vdir_enabled,
            s.vdir_path is None,
            s.blocked_numbers@.len() == 0,
            s.default_block_action == BlockAction::Reject,
    {
        IntegrationSettings {
            local_history_enabled: true,
            fritzbox: FritzBoxSettings::default(),
            google_accounts: Vec::new(),
            carddav_accounts: Vec::new(),
            eds_enabled: true,
            vdir_enabled: true,
            vdir_path: None,
            blocked_numbers: Vec::new(),
            default_block_action: BlockAction::Reject,
        }
    }
}

} // verus!
