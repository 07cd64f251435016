//! What the window looks like, and what it is willing to show.
//!
//! Includes [`mask_identity`], which is the whole of streaming mode: every
//! name and number on screen goes through it.
use vstd::prelude::*;

use crate::text::{chars_of, string_of, trim, trim_chars};

verus! {

/// Which colour theme the UI should use.
#[derive(Debug, Clone, Copy, PartialEq, Eq, Structural)]
pub enum ThemeChoice {
    Dark,
    Light,
    Dracula,
    Nord,
    SolarizedDark,
    GruvboxDark,
    CatppuccinMocha,
    TokyoNight,
}

pub open spec fn theme_label(t: ThemeChoice) -> Seq<char> {
    match t {
        ThemeChoice::Dark => "Dark"@,
        ThemeChoice::Light => "Light"@,
        ThemeChoice::Dracula => "Dracula"@,
        ThemeChoice::Nord => "Nord"@,
        ThemeChoice::SolarizedDark => "Solarized Dark"@,
        ThemeChoice::GruvboxDark => "Gruvbox Dark"@,
        ThemeChoice::CatppuccinMocha => "Catppuccin Mocha"@,
        ThemeChoice::TokyoNight => "Tokyo Night"@,
    }
}

impl Default for ThemeChoice {
    fn default() -> (t: Self)
        ensures
            t == ThemeChoice::Dark,
    {
        ThemeChoice::Dark
    }
}

impl ThemeChoice {
    /// Every choice, for populating a picker.
    pub const ALL: [ThemeChoice; 8] = [
        ThemeChoice::Dark,
        ThemeChoice::Light,
        ThemeChoice::Dracula,
        ThemeChoice::Nord,
        ThemeChoice::SolarizedDark,
        ThemeChoice::GruvboxDark,
        ThemeChoice::CatppuccinMocha,
        ThemeChoice::TokyoNight,
    ];

    /// The name shown in the picker.
    pub fn label(self) -> (s: &'static str)
        ensures
            s@ == theme_label(self),
    {
        match self {
            ThemeChoice::Dark => "Dark",
            ThemeChoice::Light => "Light",
            ThemeChoice::Dracula => "Dracula",
            ThemeChoice::Nord => "Nord",
            ThemeChoice::SolarizedDark => "Solarized Dark",
            ThemeChoice::GruvboxDark => "Gruvbox Dark",
            ThemeChoice::CatppuccinMocha => "Catppuccin Mocha",
            ThemeChoice::TokyoNight => "Tokyo Night",
        }
    }
}

/// The interface language.
#[derive(Debug, Clone, Copy, PartialEq, Eq, Structural)]
pub enum LanguageChoice {
    English,
    German,
}

impl Default for LanguageChoice {
    fn default() -> (l: Self)
        ensures
            l == LanguageChoice::English,
    {
        LanguageChoice::English
    }
}

impl LanguageChoice {
    pub const ALL: [LanguageChoice; 2] = [LanguageChoice::English, LanguageChoice::German];

    /// The ISO 639-1 code.
    pub fn code(self) -> (s: &'static str)
        ensures
            s@ == (match self {
                LanguageChoice::English => "en"@,
                LanguageChoice::German => "de"@,
            }),
    {
        match self {
            LanguageChoice::English => "en",
            LanguageChoice::German => "de",
        }
    }

    /// The language's own name for itself.
    pub fn label(self) -> (s: &'static str)
        ensures
            s@ == (match self {
                LanguageChoice::English => "English"@,
                LanguageChoice::German => "Deutsch"@,
            }),
    {
        match self {
            LanguageChoice::English => "English",
            LanguageChoice::German => "Deutsch",
        }
    }
}

/// Presentation and local-feedback preferences. None of this reaches the wire.
#[derive(Debug, Clone, PartialEq, Eq)]
pub struct UiSettings {
    pub language: LanguageChoice,
    pub theme: ThemeChoice,
    /// Ring the speaker while an inbound call is pending.
    pub ringtone: bool,
    /// Raise a desktop notification for an inbound call.
    pub notifications: bool,
    /// Local DTMF beep when a dialpad key is pressed. Not sent to the peer.
    pub dtmf_feedback: bool,
    /// Short chimes when a call starts and ends.
    pub call_chimes: bool,
    /// Show the wordmark above the dialpad.
    pub show_banner: bool,
    /// Register as the handler for tel:, sip:, sips:, callto: and sipster: URIs.
    pub register_uri_schemes: bool,
    /// Keep running in the tray when the dialer window is closed.
    pub close_to_tray: bool,
    /// Mask names and numbers everywhere they are displayed.
    pub streaming_mode: bool,
    /// Timestamp of the newest missed call the user has already looked at.
    pub missed_seen_until: Option<String>,
    /// Contact sources the user switched off, by display name.
    pub hidden_contact_sources: Vec<String>,
    /// The call-history filter, remembered as chosen.
    pub history_filter: String,
}

impl Default for UiSettings {
    fn default() -> (u: Self)
        ensures
            u.language == LanguageChoice::English,
            u.theme == ThemeChoice::Dark,
            u.ringtone && u.notifications && u.dtmf_feedback && u.call_chimes && u.show_banner,
            !u.register_uri_schemes,
            u.close_to_tray,
            !u.streaming_mode,
            u.missed_seen_until is None,
            u.hidden_contact_sources@.len() == 0,
            u.history_filter@.len() == 0,
    {
        UiSettings {
            language: LanguageChoice::English,
            theme: ThemeChoice::Dark,
            ringtone: true,
            notifications: true,
            dtmf_feedback: true,
            call_chimes: true,
            show_banner: true,
            register_uri_schemes: false,
            close_to_tray: true,
            streaming_mode: false,
            missed_seen_until: None,
            hidden_contact_sources: Vec::new(),
            history_filter: String::new(),
        }
    }
}

/// The masked form of a name or number: first character, an ellipsis, last
/// character — or the ellipsis alone when there are fewer than three.
pub open spec fn masked(value: Seq<char>) -> Seq<char> {
    let t = trim(value);
    if t.len() == 0 {
        Seq::empty()
    } else if t.len() > 2 {
        seq![t[0], '…', t.last()]
    } else {
        seq!['…']
    }
}

/// Masks a name or number for [`UiSettings::streaming_mode`].
///
/// Keeps the first and last character so entries stay tellable apart and the
/// layout keeps its shape, and hides everything between:
/// `Alice Smith` becomes `A…h`, `+49301234567` becomes `+…7`.
///
/// One- and two-character values are replaced outright rather than returned
/// as-is, since `A…A` would leak the whole thing.
pub fn mask_identity(value: &str) -> (s: String)
    ensures
        s@ == masked(value@),
{
    let all = chars_of(value);
    let t = trim_chars(&all);
    if t.len() == 0 {
        return String::new();
    }
    let mut out: Vec<char> = Vec::new();
    if t.len() > 2 {
        out.push(t[0]);
        out.push('…');
        out.push(t[t.len() - 1]);
    } else {
        out.push('…');
    }
    string_of(&out)
}

} // verus!
