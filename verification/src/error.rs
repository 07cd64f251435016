//! The error type shared by the engine, its configuration and its IPC.
use vstd::prelude::*;

use crate::call::CallId;

verus! {

/// Everything that can go wrong in the engine, as plain data.
#[derive(Debug, Clone, PartialEq, Eq)]
pub enum SipsterError {
    /// An I/O failure, carrying the system's own description.
    Io(String),
    /// A configuration value is missing or unusable.
    Config(String),
    /// A host name that did not resolve.
    Resolve { host: String },
    /// A SIP protocol failure.
    Sip(String),
    /// SDP negotiation failed.
    Sdp(String),
    /// An audio device could not be opened.
    Audio(String),
    /// The registrar refused the credentials of this user.
    AuthFailed(String),
    /// A call id the caller named is not known.
    CallNotFound(String),
    /// A call id that is not (or no longer) tracked.
    UnknownCall(CallId),
    /// The registrar answered a REGISTER with a failure.
    RegistrationRejected { registrar: String, status: u16, reason: String },
    /// The far end refused a call.
    CallRejected { status: u16, reason: String },
}

/// The engine's result type.
pub type Result<T> = core::result::Result<T, SipsterError>;

/// The spec-level shape of a configuration error carrying `msg`.
pub open spec fn is_config_error<T>(r: Result<T>, msg: Seq<char>) -> bool {
    r matches Err(SipsterError::Config(m)) && m@ == msg
}

} // verus!
