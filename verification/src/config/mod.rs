//! The configuration file's contents, and the rules read from it.
use vstd::prelude::*;

pub mod account;
pub mod appearance;
pub mod integration;

pub use account::{SipAccount, Transport};
pub use appearance::{mask_identity, LanguageChoice, ThemeChoice, UiSettings};
pub use integration::{
    BlockAction, BlockedNumber, CardDavAccountConfig, FritzBoxSettings, GoogleAccountConfig,
    IntegrationSettings,
};

use crate::cli::{flag_value, flag_value_from, str_views};
use crate::text::trim;

verus! {

broadcast use vstd::string::group_string_axioms;

/// Capture and playback device selection. `None` means "system default".
#[derive(Debug, Clone, PartialEq, Eq)]
pub struct AudioSettings {
    pub input: Option<String>,
    pub output: Option<String>,
}

impl Default for AudioSettings {
    fn default() -> (a: Self)
        ensures
            a.input is None && a.output is None,
    {
        AudioSettings { input: None, output: None }
    }
}

/// Custom command hooks for app lifecycle, call events, and contact editing.
#[derive(Debug, Clone, PartialEq, Eq)]
pub struct CommandsSettings {
    pub on_app_start: Option<String>,
    pub on_app_exit: Option<String>,
    pub on_contacts_synced: Option<String>,
    pub on_history_synced: Option<String>,
    pub on_sip_registered: Option<String>,
    pub on_sip_unregistered: Option<String>,
    pub on_sip_registration_failed: Option<String>,
    pub on_call_incoming: Option<String>,
    pub on_call_outgoing: Option<String>,
    pub on_call_connected: Option<String>,
    pub on_call_held: Option<String>,
    pub on_call_unheld: Option<String>,
    pub on_call_transferred: Option<String>,
    pub on_call_ended: Option<String>,
    pub edit_google: String,
    pub edit_fritzbox: String,
    pub edit_carddav: String,
    pub edit_local: String,
    pub edit_eds: String,
    pub edit_default: String,
}

impl Default for CommandsSettings {
    fn default() -> (c: Self)
        ensures
            c.on_app_start is None && c.on_app_exit is None && c.on_contacts_synced is None
                && c.on_history_synced is None && c.on_sip_registered is None
                && c.on_sip_unregistered is None && c.on_sip_registration_failed is None
                && c.on_call_incoming is None && c.on_call_outgoing is None
                && c.on_call_connected is None && c.on_call_held is None
                && c.on_call_unheld is None && c.on_call_transferred is None
                && c.on_call_ended is None,
            c.edit_google@ == "xdg-open https://contacts.google.com/person/{short_id}"@,
            c.edit_fritzbox@
                == "xdg-open http://{registrar}/?lp=pBook&BookId={phonebook_id}&edit={short_id}"@,
            c.edit_carddav@ == "xdg-open https://{account}"@,
            c.edit_local@ == "xdg-open {path}"@,
            c.edit_eds@ == "gnome-contacts"@,
            c.edit_default@ == "xdg-open {target}"@,
    {
        CommandsSettings {
            on_app_start: None,
            on_app_exit: None,
            on_contacts_synced: None,
            on_history_synced: None,
            on_sip_registered: None,
            on_sip_unregistered: None,
            on_sip_registration_failed: None,
            on_call_incoming: None,
            on_call_outgoing: None,
            on_call_connected: None,
            on_call_held: None,
            on_call_unheld: None,
            on_call_transferred: None,
            on_call_ended: None,
            edit_google: "xdg-open https://contacts.google.com/person/{short_id}".to_string(),
            edit_fritzbox:
                "xdg-open http://{registrar}/?lp=pBook&BookId={phonebook_id}&edit={short_id}".to_string(),
            edit_carddav: "xdg-open https://{account}".to_string(),
            edit_local: "xdg-open {path}".to_string(),
            edit_eds: "gnome-contacts".to_string(),
            edit_default: "xdg-open {target}".to_string(),
        }
    }
}

/// Control-channel settings.
#[derive(Debug, Clone, PartialEq, Eq)]
pub struct IpcSettings {
    /// Control socket (Unix) or named pipe (Windows). `None` uses the
    /// per-user default.
    pub socket: Option<String>,
}

impl Default for IpcSettings {
    fn default() -> (s: Self)
        ensures
            s.socket is None,
    {
        IpcSettings { socket: None }
    }
}

/// Where and how much Sipster logs.
#[derive(Debug, Clone)]
pub struct LogSettings {
    /// Append logs to this file as well as the console.
    pub file: Option<String>,
    /// A `tracing` filter, for example `info,sipster_core=trace`.
    pub filter: String,
}

pub open spec fn log_filter_default() -> Seq<char> {
    "info,sipster_core=debug,iced_winit=warn,iced_wgpu=warn,wgpu_core=warn,wgpu_hal=warn,naga=warn,rvoip_media_core=warn"@
}

/// The default log filter.
///
/// `iced_winit` and `rvoip_media_core` are muted to `warn`: the first logs
/// the window icon byte by byte at startup, the second four lines per RTP
/// packet, and both drowned the SIP signalling a bug report needs.
pub fn default_log_filter() -> (s: String)
    ensures
        s@ == log_filter_default(),
{
    "info,sipster_core=debug,iced_winit=warn,iced_wgpu=warn,wgpu_core=warn,wgpu_hal=warn,naga=warn,rvoip_media_core=warn".to_string()
}

impl Default for LogSettings {
    fn default() -> (s: Self)
        ensures
            s.file is None,
            s.filter@ == log_filter_default(),
    {
        LogSettings { file: None, filter: default_log_filter() }
    }
}

/// Top-level config. One account per file; the UI edits this.
#[derive(Clone)]
pub struct Config {
    pub account: SipAccount,
    pub ui: UiSettings,
    pub audio: AudioSettings,
    pub ipc: IpcSettings,
    pub log: LogSettings,
    pub integration: IntegrationSettings,
    pub commands: CommandsSettings,
}

impl Default for Config {
    fn default() -> (c: Self)
        ensures
            c.account.registrar@.len() == 0,
            c.account.username@.len() == 0,
            c.account.port == 5060,
    {
        Config {
            account: SipAccount::default(),
            ui: UiSettings::default(),
            audio: AudioSettings::default(),
            ipc: IpcSettings::default(),
            log: LogSettings::default(),
            integration: IntegrationSettings::default(),
            commands: CommandsSettings::default(),
        }
    }
}

/// The config file named on the command line, if any.
pub open spec fn config_flag(args: Seq<&str>) -> Option<Seq<char>> {
    flag_value_from(str_views(args), seq!["--config-file"@, "--config"@], 0)
}

impl Config {
    /// The config file this process should use: `--config-file <PATH>` (or
    /// `--config`), else `default_path`.
    pub fn path_from(args: &[&str], default_path: &str) -> (p: String)
        ensures
            p@ == (match config_flag(args@) {
                Some(v) => v,
                None => default_path@,
            }),
    {
        let flags: [&str; 2] = ["--config-file", "--config"];
        assert(str_views(flags@) =~= seq!["--config-file"@, "--config"@]);
        match flag_value(args, &flags) {
            Some(p) => p,
            None => default_path.to_string(),
        }
    }

    /// Whether this looks like a first run: no usable account configured.
    pub fn needs_setup(&self) -> (b: bool)
        ensures
            b <==> !(trim(self.account.registrar@).len() > 0 && trim(self.account.username@).len()
                > 0),
    {
        self.account.validate().is_err()
    }
}

} // verus!
