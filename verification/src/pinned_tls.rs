//! TLS to a device with a self-signed certificate, pinned on first use.
//!
//! A FRITZ!Box's certificate is self-signed and unique per device, so no
//! certificate authority can vouch for it. Rather than accepting any
//! certificate, the first connection records the certificate's SHA-256
//! fingerprint, and every connection after that requires the same one — the
//! bargain SSH makes with host keys. The decisions are here; the TLS
//! plumbing that asks for them is the caller's.
use vstd::prelude::*;

use crate::text::{
    append_str, chars_of, contains, contains_exec, hex_fixed, is_lower_hex,
    lemma_hex_fixed_is_lower_hex, lemma_hex_fixed_len, lower_seq, lower_vec, push_hex_fixed,
    string_of,
};

verus! {

broadcast use vstd::string::group_string_axioms;

/// The SHA-256 digest of some bytes.
pub uninterp spec fn sha256_of(bytes: Seq<u8>) -> Seq<u8>;

/// `ring::digest::digest(&SHA256, bytes)`: the 32-byte SHA-256 digest.
#[verifier::external_body]
fn sha256(bytes: &[u8]) -> (d: Vec<u8>)
    ensures
        d@ == sha256_of(bytes@),
        d@.len() == 32,
{
    ring::digest::digest(&ring::digest::SHA256, bytes).as_ref().to_vec()
}

/// Bytes as lowercase hex, two digits each.
pub open spec fn hex_bytes(b: Seq<u8>) -> Seq<char>
    decreases b.len(),
{
    if b.len() == 0 {
        Seq::empty()
    } else {
        hex_bytes(b.drop_last()) + hex_fixed(b.last() as nat, 2)
    }
}

/// Bytes in hex take two lowercase hex digits each.
pub proof fn lemma_hex_bytes_shape(b: Seq<u8>)
    ensures
        hex_bytes(b).len() == 2 * b.len(),
        forall|i: int| 0 <= i < hex_bytes(b).len() ==> is_lower_hex(#[trigger] hex_bytes(b)[i]),
    decreases b.len(),
{
    if b.len() > 0 {
        lemma_hex_bytes_shape(b.drop_last());
        let prev = hex_bytes(b.drop_last());
        let last = hex_fixed(b.last() as nat, 2);
        lemma_hex_fixed_len(b.last() as nat, 2);
        lemma_hex_fixed_is_lower_hex(b.last() as nat, 2);
        assert forall|i: int| 0 <= i < hex_bytes(b).len() implies is_lower_hex(
            #[trigger] hex_bytes(b)[i],
        ) by {
            if i < prev.len() {
                assert(hex_bytes(b)[i] == prev[i]);
            } else {
                assert(hex_bytes(b)[i] == last[i - prev.len()]);
            }
        }
    }
}

/// A certificate's fingerprint, the way it is stored and displayed: the
/// lower-case hex of the SHA-256 of its DER bytes.
pub fn fingerprint_of(der: &[u8]) -> (f: String)
    ensures
        f@ == hex_bytes(sha256_of(der@)),
        f@.len() == 64,
        forall|i: int| 0 <= i < 64 ==> is_lower_hex(#[trigger] f@[i]),
{
    let digest = sha256(der);
    let mut out: Vec<char> = Vec::new();
    let mut i: usize = 0;
    while i < digest.len()
        invariant
            i <= digest.len(),
            out@ == hex_bytes(digest@.take(i as int)),
        decreases digest.len() - i,
    {
        assert(digest@.take(i + 1).drop_last() == digest@.take(i as int));
        push_hex_fixed(&mut out, digest[i] as u128, 2);
        i = i + 1;
    }
    assert(digest@.take(digest.len() as int) == digest@);
    proof {
        lemma_hex_bytes_shape(digest@);
    }
    string_of(&out)
}

/// Verifies that the peer presents the certificate we pinned. Name, chain
/// and expiry mean nothing for a self-signed certificate on a LAN device:
/// the fingerprint is the whole of the check.
#[derive(Debug, Clone)]
pub struct PinnedCert {
    /// The fingerprint required; empty until one is known.
    pub expected: String,
}

/// What a check decides.
#[derive(Debug, Clone, PartialEq, Eq)]
pub enum PinDecision {
    /// Nothing was pinned: accept, and remember this fingerprint.
    Learned(String),
    /// The pinned certificate was presented.
    Matched,
    /// Another certificate was presented; the text says which.
    Refused(String),
}

impl PinnedCert {
    /// Pins `expected`, or, when it is empty, the pin learned earlier in
    /// this process, if any: only the very first connection is unverified.
    pub fn new(expected: String, first_seen: Option<String>) -> (p: Self)
        ensures
            p.expected@ == (if expected@.len() > 0 {
                expected@
            } else {
                match first_seen {
                    Some(f) => f@,
                    None => Seq::empty(),
                }
            }),
    {
        if expected.as_str().is_empty() {
            match first_seen {
                Some(f) => PinnedCert { expected: f },
                None => PinnedCert { expected: String::new() },
            }
        } else {
            PinnedCert { expected }
        }
    }

    /// Checks the fingerprint a peer presented.
    pub fn check(&self, actual: String) -> (d: PinDecision)
        ensures
            self.expected@.len() == 0 ==> d == PinDecision::Learned(actual),
            self.expected@.len() > 0 && actual@ == self.expected@ ==> d == PinDecision::Matched,
            self.expected@.len() > 0 && actual@ != self.expected@ ==> (d matches PinDecision::Refused(m)
                && m@ == "certificate fingerprint changed: expected "@ + self.expected@ + ", got "@
                + actual@),
    {
        if self.expected.as_str().is_empty() {
            return PinDecision::Learned(actual);
        }
        let a = chars_of(actual.as_str());
        let e = chars_of(self.expected.as_str());
        if crate::text::eq_chars(&a, &e) {
            PinDecision::Matched
        } else {
            let mut m: Vec<char> = Vec::new();
            append_str(&mut m, "certificate fingerprint changed: expected ");
            append_str(&mut m, self.expected.as_str());
            append_str(&mut m, ", got ");
            append_str(&mut m, actual.as_str());
            PinDecision::Refused(string_of(&m))
        }
    }
}

/// The kinds of I/O error a closing TLS stream reports.
#[derive(Debug, Clone, Copy, PartialEq, Eq, Structural)]
pub enum StreamErrorKind {
    UnexpectedEof,
    ConnectionAborted,
    Other,
}

/// Whether an error is a peer closing without `close_notify`: an
/// unexpected end or an aborted connection whose message mentions
/// `close_notify`. A genuine truncation says nothing of it.
pub open spec fn unclean_close_of(kind: StreamErrorKind, message: Seq<char>) -> bool {
    (kind == StreamErrorKind::UnexpectedEof || kind == StreamErrorKind::ConnectionAborted) && contains(
        lower_seq(message),
        "close_notify"@,
    )
}

/// Whether a read error of this kind and message is a peer closing without
/// `close_notify`, which reads as the end of the stream. rustls reports that
/// as an error and ureq only half-recognises it, so the pinned connector
/// asks this with the error's kind and text.
pub fn unclean_close(kind: StreamErrorKind, message: &str) -> (b: bool)
    ensures
        b == unclean_close_of(kind, message@),
{
    (kind == StreamErrorKind::UnexpectedEof || kind == StreamErrorKind::ConnectionAborted)
        && contains_exec(&lower_vec(&chars_of(message)), &chars_of("close_notify"))
}

} // verus!
