//! Sipster, a desktop SIP softphone: the logic of its calls, configuration,
//! command channel and contact providers, with its contracts proved.
//!
//! Text handling shared by the modules lives in `text`, `order` and
//! `assoc`. The softphone core: `call`, `engine`, `audio`, `config`, `cli`,
//! `ipc`, `instance`, `net`, `secret`, `error`. The contact and call-history
//! providers: `model`, `vcard`, `fritzbox`, `carddav`, `google`, `eds`,
//! `akonadi`, `vdir`, `local`, `pinned_tls`, `sync`.

pub mod assoc;
pub mod order;
pub mod text;

pub mod audio;
pub mod call;
pub mod cli;
pub mod config;
pub mod engine;
pub mod error;
pub mod instance;
pub mod ipc;
pub mod net;
pub mod secret;

pub mod akonadi;
pub mod carddav;
pub mod eds;
pub mod fritzbox;
pub mod google;
pub mod local;
pub mod model;
pub mod pinned_tls;
pub mod sync;
pub mod vcard;
pub mod vdir;

pub use call::{CallDirection, CallEvent, CallId, CallState, RegistrationState};
pub use config::{Config, SipAccount};
pub use error::{Result, SipsterError};
