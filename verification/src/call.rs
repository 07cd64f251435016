//! Calls and registration as the engine reports them.
use vstd::prelude::*;

use crate::text::{append, hex_fixed, push_hex_fixed, slice_chars, string_of};

verus! {

broadcast use vstd::string::group_string_axioms;

/// Opaque identifier for a call, used to correlate UI actions and events.
///
/// This is the engine's own handle, distinct from the SIP `Call-ID` header.
/// It holds the 128 bits of a random (version 4) UUID.
#[derive(Debug, Clone, Copy, PartialEq, Eq, Hash, Structural)]
pub struct CallId(pub u128);

/// Whether 128 bits are a version 4 (random) UUID of the RFC 9562
/// variant: version nibble 4, variant bits `10`.
pub open spec fn is_v4_uuid(bits: u128) -> bool {
    (bits >> 76u128) & 0xfu128 == 4u128 && (bits >> 62u128) & 0x3u128 == 2u128
}

/// A fresh random UUID (`uuid::Uuid::new_v4`), as its 128-bit value. The
/// bits are random but for the version and variant, which `new_v4` sets.
#[verifier::external_body]
pub(crate) fn random_uuid_bits() -> (bits: u128)
    ensures
        is_v4_uuid(bits),
{
    uuid::Uuid::new_v4().as_u128()
}

/// A UUID's text in its hyphenated form (`8-4-4-4-12` lowercase hex
/// digits), the form `Uuid`'s `Display` writes.
pub open spec fn uuid_text(bits: u128) -> Seq<char> {
    let d = hex_fixed(bits as nat, 32);
    d.subrange(0, 8) + "-"@ + d.subrange(8, 12) + "-"@ + d.subrange(12, 16) + "-"@ + d.subrange(
        16,
        20,
    ) + "-"@ + d.subrange(20, 32)
}

/// The hyphenated text of a UUID's bits.
pub fn uuid_string(bits: u128) -> (s: String)
    ensures
        s@ == uuid_text(bits),
{
    let mut d: Vec<char> = Vec::new();
    push_hex_fixed(&mut d, bits, 32);
    assert(d@ =~= hex_fixed(bits as nat, 32));
    let mut out: Vec<char> = Vec::new();
    append(&mut out, &slice_chars(&d, 0, 8));
    out.push('-');
    append(&mut out, &slice_chars(&d, 8, 12));
    out.push('-');
    append(&mut out, &slice_chars(&d, 12, 16));
    out.push('-');
    append(&mut out, &slice_chars(&d, 16, 20));
    out.push('-');
    append(&mut out, &slice_chars(&d, 20, 32));
    proof {
        reveal_strlit("-");
    }
    string_of(&out)
}

impl CallId {
    /// A new random call id: a version 4 UUID.
    pub fn new() -> (id: CallId)
        ensures
            is_v4_uuid(id.0),
    {
        CallId(random_uuid_bits())
    }
}

#[derive(Debug, Clone, Copy, PartialEq, Eq, Structural)]
pub enum CallDirection {
    Incoming,
    Outgoing,
}

/// Lifecycle of a single call. Transitions are driven by the engine; the UI
/// treats this as read-only display state.
#[derive(Debug, Clone, Copy, PartialEq, Eq, Structural)]
pub enum CallState {
    /// Outgoing: INVITE sent, awaiting a provisional/final response.
    Dialing,
    /// A 180/183 was received (outgoing) or an INVITE arrived (incoming).
    Ringing,
    /// `200 OK` exchanged and `ACK`ed; media is flowing.
    Active,
    /// Terminated. The reason travels with [`CallEvent::Terminated`].
    Terminated,
}

/// Registration status for an account, surfaced to the UI status line.
#[derive(Debug, Clone, PartialEq, Eq)]
pub enum RegistrationState {
    Unregistered,
    Registering,
    Registered,
    Failed(String),
}

/// Events emitted by the engine. Nothing here carries engine-internal handles.
#[derive(Debug, Clone, PartialEq, Eq)]
pub enum CallEvent {
    Registration(RegistrationState),
    IncomingCall { id: CallId, remote_uri: String, display_name: Option<String> },
    StateChanged { id: CallId, state: CallState },
    Terminated { id: CallId, reason: String },
}

} // verus!
