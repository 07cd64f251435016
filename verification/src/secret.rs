//! Encryption for credentials stored in the config file.
//!
//! Passwords, tokens, usernames and email addresses are encrypted on the way
//! into the config file and decrypted on the way out, so the file holds no
//! readable credentials. The key sits next to the config (reading and
//! creating it is the caller's); what guards both files is their `0600` mode.
//!
//! Values are written as bare base64 with no prefix, so a config that has
//! never been encrypted still loads: ChaCha20-Poly1305 is authenticated, so a
//! plain-text value that happens to be valid base64 fails the tag check and
//! is passed through untouched.
use base64::Engine;
use ring::aead::{Aad, LessSafeKey, Nonce, UnboundKey, CHACHA20_POLY1305};
use ring::rand::SecureRandom;
use vstd::prelude::*;
use vstd::utf8::{decode_utf8, encode_utf8, valid_utf8};

use crate::carddav::base64_of;

verus! {

broadcast use vstd::string::group_string_axioms;

/// The length of a ChaCha20-Poly1305 nonce.
pub const NONCE_LEN: usize = 12;

/// The longest plaintext ring seals with ChaCha20-Poly1305 (RFC 8439 §2.8).
pub const MAX_SEALED_LEN: u64 = 274_877_906_880;

/// The ciphertext and tag ring's ChaCha20-Poly1305 makes of a plaintext
/// under a key and nonce, with no associated data.
pub uninterp spec fn chacha_sealed(key: Seq<u8>, nonce: Seq<u8>, plain: Seq<u8>) -> Seq<u8>;

/// What ring's ChaCha20-Poly1305 opens a ciphertext and tag to under a key
/// and nonce, with no associated data: nothing when the tag does not check.
pub uninterp spec fn chacha_opened(key: Seq<u8>, nonce: Seq<u8>, body: Seq<u8>) -> Option<Seq<u8>>;

/// What the standard base64 engine decodes a text to.
pub uninterp spec fn base64_decoded(text: Seq<char>) -> Option<Seq<u8>>;

pub open spec fn opt_bytes(o: Option<Vec<u8>>) -> Option<Seq<u8>> {
    match o {
        Some(v) => Some(v@),
        None => None,
    }
}

/// `UnboundKey::new` with `CHACHA20_POLY1305`, then
/// `LessSafeKey::seal_in_place_append_tag` with no associated data: the
/// ciphertext with the 16-byte tag appended. A 32-byte key is always
/// accepted, and ring refuses to seal only an input longer than
/// ChaCha20-Poly1305's maximum.
#[verifier::external_body]
fn aead_seal(key: &[u8; 32], nonce: [u8; 12], plain: &[u8]) -> (r: Option<Vec<u8>>)
    ensures
        r matches Some(c) ==> c@ == chacha_sealed(key@, nonce@, plain@) && c@.len() == plain@.len() + 16,
        plain@.len() <= MAX_SEALED_LEN ==> r is Some,
{
    let sealing = LessSafeKey::new(UnboundKey::new(&CHACHA20_POLY1305, key).ok()?);
    let mut buffer = plain.to_vec();
    sealing.seal_in_place_append_tag(Nonce::assume_unique_for_key(nonce), Aad::empty(), &mut buffer).ok()?;
    Some(buffer)
}

/// `LessSafeKey::open_in_place` with `CHACHA20_POLY1305` and no associated
/// data: the plaintext when the tag checks. What ring sealed under the same
/// key and nonce opens to the plaintext it sealed; and what opens was
/// sealed so: the ciphertext is the plaintext under the key stream, and the
/// tag that checked is the one sealing computes.
#[verifier::external_body]
fn aead_open(key: &[u8; 32], nonce: &[u8], body: &[u8]) -> (r: Option<Vec<u8>>)
    requires
        nonce@.len() == NONCE_LEN,
    ensures
        opt_bytes(r) == chacha_opened(key@, nonce@, body@),
        forall|p: Seq<u8>|
            p.len() <= MAX_SEALED_LEN && body@ == #[trigger] chacha_sealed(key@, nonce@, p)
                ==> opt_bytes(r) == Some(p),
        r matches Some(p) ==> p@.len() <= MAX_SEALED_LEN && body@ == chacha_sealed(key@, nonce@, p@),
{
    let opening = LessSafeKey::new(UnboundKey::new(&CHACHA20_POLY1305, key).ok()?);
    let nonce = Nonce::try_assume_unique_for_key(nonce).ok()?;
    let mut buffer = body.to_vec();
    Some(opening.open_in_place(nonce, Aad::empty(), &mut buffer).ok()?.to_vec())
}

/// `SystemRandom::fill` on a fresh nonce: random, or nothing when the
/// system has no randomness to give.
#[verifier::external_body]
fn random_nonce() -> (r: Option<[u8; 12]>) {
    let mut nonce = [0u8; 12];
    ring::rand::SystemRandom::new().fill(&mut nonce).ok()?;
    Some(nonce)
}

/// `base64::engine::general_purpose::STANDARD.encode`: padded standard
/// base64.
#[verifier::external_body]
fn base64_encode(bytes: &[u8]) -> (s: String)
    ensures
        s@ == base64_of(bytes@),
{
    base64::engine::general_purpose::STANDARD.encode(bytes)
}

/// `base64::engine::general_purpose::STANDARD.decode`, which accepts only
/// canonical padded standard base64: the bytes whose encoding the text is.
#[verifier::external_body]
fn base64_decode(text: &str) -> (r: Option<Vec<u8>>)
    ensures
        opt_bytes(r) == base64_decoded(text@),
        forall|b: Seq<u8>| #[trigger] base64_of(b) == text@ ==> opt_bytes(r) == Some(b),
        r matches Some(v) ==> base64_of(v@) == text@,
{
    base64::engine::general_purpose::STANDARD.decode(text).ok()
}

/// `String::from_utf8`: the text, when the bytes are UTF-8.
#[verifier::external_body]
fn utf8_text(bytes: Vec<u8>) -> (r: Option<String>)
    ensures
        valid_utf8(bytes@) <==> r is Some,
        r matches Some(s) ==> s@ == decode_utf8(bytes@),
{
    String::from_utf8(bytes).ok()
}

/// The stored form of `plain` sealed with `nonce`: base64 of the nonce and
/// the ciphertext with its tag.
pub open spec fn sealed_text(key: Seq<u8>, nonce: Seq<u8>, plain: Seq<char>) -> Seq<char> {
    base64_of(nonce + chacha_sealed(key, nonce, encode_utf8(plain)))
}

/// The stored form of a ciphertext and its tag sealed with `nonce`: base64
/// of the nonce followed by them.
pub fn stored_value(nonce: [u8; 12], ciphertext: &[u8]) -> (s: String)
    ensures
        s@ == base64_of(nonce@ + ciphertext@),
{
    let mut out: Vec<u8> = Vec::new();
    let mut i: usize = 0;
    while i < NONCE_LEN
        invariant
            i <= NONCE_LEN,
            out@ == nonce@.take(i as int),
        decreases NONCE_LEN - i,
    {
        out.push(nonce[i]);
        assert(nonce@.take(i + 1) == nonce@.take(i as int).push(nonce@[i as int]));
        i = i + 1;
    }
    assert(nonce@.take(12) == nonce@);
    let mut j: usize = 0;
    while j < ciphertext.len()
        invariant
            j <= ciphertext.len(),
            out@ == nonce@ + ciphertext@.take(j as int),
        decreases ciphertext.len() - j,
    {
        out.push(ciphertext[j]);
        assert(ciphertext@.take(j + 1) == ciphertext@.take(j as int).push(ciphertext@[j as int]));
        j = j + 1;
    }
    assert(ciphertext@.take(ciphertext.len() as int) == ciphertext@);
    base64_encode(&out)
}

/// Seals a credential with the given nonce; nothing only when it is longer
/// than ChaCha20-Poly1305 can seal. What ring returns is stored by
/// [`stored_value`].
pub fn seal(key: &[u8; 32], nonce: [u8; 12], plain: &str) -> (r: Option<String>)
    ensures
        encode_utf8(plain@).len() <= MAX_SEALED_LEN <==> r is Some,
        r matches Some(s) ==> s@ == sealed_text(key@, nonce@, plain@) && chacha_sealed(
            key@,
            nonce@,
            encode_utf8(plain@),
        ).len() == encode_utf8(plain@).len() + 16,
{
    let bytes = plain.as_bytes();
    if bytes.len() as u64 > MAX_SEALED_LEN {
        return None;
    }
    match aead_seal(key, nonce, bytes) {
        Some(c) => Some(stored_value(nonce, &c)),
        None => None,
    }
}

/// What a stored value opens to under `key`: the text of the plaintext, when
/// the value is base64 of a nonce and a ciphertext whose tag checks and
/// whose plaintext is UTF-8.
pub open spec fn opened_text(key: Seq<u8>, stored: Seq<char>) -> Option<Seq<char>> {
    match base64_decoded(stored) {
        None => None,
        Some(raw) => if raw.len() <= NONCE_LEN {
            None
        } else {
            match chacha_opened(key, raw.take(NONCE_LEN as int), raw.skip(NONCE_LEN as int)) {
                None => None,
                Some(plain) => if valid_utf8(plain) {
                    Some(decode_utf8(plain))
                } else {
                    None
                },
            }
        },
    }
}

/// Opens a stored credential; nothing when it is not our ciphertext.
pub fn open(key: &[u8; 32], stored: &str) -> (r: Option<String>)
    ensures
        match r {
            Some(s) => opened_text(key@, stored@) == Some(s@),
            None => opened_text(key@, stored@) is None,
        },
        forall|n: Seq<u8>, p: Seq<char>|
            n.len() == NONCE_LEN && encode_utf8(p).len() <= MAX_SEALED_LEN && chacha_sealed(
                key@,
                n,
                encode_utf8(p),
            ).len() > 0 && stored@ == #[trigger] sealed_text(key@, n, p) ==> (r matches Some(s)
                && s@ == p),
        r matches Some(s) ==> exists|n: Seq<u8>|
            n.len() == NONCE_LEN && stored@ == #[trigger] sealed_text(key@, n, s@),
{
    let raw = match base64_decode(stored) {
        Some(raw) => raw,
        None => {
            return None;
        },
    };
    if raw.len() <= NONCE_LEN {
        return None;
    }
    let mut nonce: Vec<u8> = Vec::new();
    let mut i: usize = 0;
    while i < NONCE_LEN
        invariant
            i <= NONCE_LEN < raw.len(),
            nonce@ == raw@.take(i as int),
        decreases NONCE_LEN - i,
    {
        nonce.push(raw[i]);
        assert(raw@.take(i + 1) == raw@.take(i as int).push(raw@[i as int]));
        i = i + 1;
    }
    let mut body: Vec<u8> = Vec::new();
    let mut j: usize = NONCE_LEN;
    while j < raw.len()
        invariant
            NONCE_LEN <= j <= raw.len(),
            body@ == raw@.subrange(NONCE_LEN as int, j as int),
        decreases raw.len() - j,
    {
        body.push(raw[j]);
        assert(raw@.subrange(NONCE_LEN as int, j + 1) == raw@.subrange(NONCE_LEN as int, j as int).push(raw@[j as int]));
        j = j + 1;
    }
    assert(body@ == raw@.skip(NONCE_LEN as int));
    proof {
        assert forall|n: Seq<u8>, p: Seq<char>|
            n.len() == NONCE_LEN && encode_utf8(p).len() <= MAX_SEALED_LEN && chacha_sealed(
                key@,
                n,
                encode_utf8(p),
            ).len() > 0 && stored@ == #[trigger] sealed_text(key@, n, p) implies nonce@ == n
            && body@ == chacha_sealed(key@, n, encode_utf8(p)) by {
            let b = n + chacha_sealed(key@, n, encode_utf8(p));
            assert(base64_of(b) == stored@);
            assert(raw@ == b);
            assert(raw@.take(NONCE_LEN as int) =~= n);
            assert(raw@.skip(NONCE_LEN as int) =~= chacha_sealed(key@, n, encode_utf8(p)));
        }
    }
    let plain = match aead_open(key, &nonce, &body) {
        Some(p) => p,
        None => {
            return None;
        },
    };
    proof {
        broadcast use vstd::utf8::group_utf8_lib;

    }
    let r = utf8_text(plain);
    proof {
        broadcast use vstd::utf8::group_utf8_lib;

        if r is Some {
            let t = r->0@;
            assert(encode_utf8(t) == plain@);
            assert(raw@ =~= nonce@ + body@);
            assert(stored@ == sealed_text(key@, nonce@, t));
        }
    }
    r
}

/// What storing `plain` under `key` gives with the nonce that was drawn:
/// empty stays empty; without a key, or without a nonce, the plain text;
/// otherwise the sealed text, unless the credential is longer than
/// ChaCha20-Poly1305 can seal.
pub open spec fn stored_text(key: Option<Seq<u8>>, nonce: Option<Seq<u8>>, plain: Seq<char>) -> Option<Seq<char>> {
    if plain.len() == 0 {
        Some(Seq::empty())
    } else {
        match (key, nonce) {
            (Some(k), Some(n)) => if encode_utf8(plain).len() <= MAX_SEALED_LEN {
                Some(sealed_text(k, n, plain))
            } else {
                Some(plain)
            },
            _ => Some(plain),
        }
    }
}

pub open spec fn opt_key(key: Option<&[u8; 32]>) -> Option<Seq<u8>> {
    match key {
        Some(k) => Some(k@),
        None => None,
    }
}

pub open spec fn opt_nonce(nonce: Option<[u8; 12]>) -> Option<Seq<u8>> {
    match nonce {
        Some(n) => Some(n@),
        None => None,
    }
}

/// Stores a credential with a nonce already drawn (or none, when drawing
/// failed): a non-empty credential with a key and a nonce comes out sealed.
pub fn encode_with_nonce(key: Option<&[u8; 32]>, nonce: Option<[u8; 12]>, plain: &str) -> (s: String)
    ensures
        Some(s@) == stored_text(opt_key(key), opt_nonce(nonce), plain@),
        plain@.len() > 0 && encode_utf8(plain@).len() <= MAX_SEALED_LEN ==> (key matches Some(k)
            ==> (nonce matches Some(n) ==> chacha_sealed(k@, n@, encode_utf8(plain@)).len()
            == encode_utf8(plain@).len() + 16)),
{
    if plain.is_empty() {
        return String::new();
    }
    let (k, n) = match (key, nonce) {
        (Some(k), Some(n)) => (k, n),
        _ => {
            return plain.to_string();
        },
    };
    match seal(k, n, plain) {
        Some(s) => s,
        None => plain.to_string(),
    }
}

/// Encrypts a credential for storage with a fresh random nonce, or returns
/// it unchanged when there is no key, no randomness, or ring refuses. An
/// empty field stays empty: it means "unset", and encrypting it would make
/// an absent password indistinguishable from a stored one. What is stored
/// for each outcome of the draw is [`encode_with_nonce`]'s.
pub fn encode(key: Option<&[u8; 32]>, plain: &str) -> (s: String)
    ensures
        plain@.len() == 0 ==> s@.len() == 0,
        key is None ==> s@ == plain@,
        s@ == plain@ || (key matches Some(k) && exists|n: Seq<u8>|
            n.len() == NONCE_LEN && s@ == sealed_text(k@, n, plain@) && chacha_sealed(
                k@,
                n,
                encode_utf8(plain@),
            ).len() == encode_utf8(plain@).len() + 16),
        exists|n: Option<Seq<u8>>|
            (n matches Some(v) ==> v.len() == NONCE_LEN) && Some(s@) == stored_text(
                opt_key(key),
                n,
                plain@,
            ),
{
    let nonce = if plain.is_empty() || key.is_none() {
        None
    } else {
        random_nonce()
    };
    let s = encode_with_nonce(key, nonce, plain);
    proof {
        assert(Some(s@) == stored_text(opt_key(key), opt_nonce(nonce), plain@));
        match nonce {
            Some(n) => {
                assert(n@.len() == NONCE_LEN);
                if s@ != plain@ {
                    assert(s@ == sealed_text(key->0@, n@, plain@));
                }
            },
            None => {},
        }
    }
    s
}

/// Decrypts a credential, passing anything that is not our ciphertext
/// through unchanged — which is how a config written before encryption
/// existed still loads. What [`encode`] sealed under the same key comes back
/// as it was.
pub fn decode(key: Option<&[u8; 32]>, stored: &str) -> (s: String)
    ensures
        stored@.len() == 0 ==> s@.len() == 0,
        stored@.len() > 0 ==> s@ == match key {
            Some(k) => match opened_text(k@, stored@) {
                Some(t) => t,
                None => stored@,
            },
            None => stored@,
        },
        key matches Some(k) ==> forall|n: Seq<u8>, p: Seq<char>|
            n.len() == NONCE_LEN && encode_utf8(p).len() <= MAX_SEALED_LEN && chacha_sealed(
                k@,
                n,
                encode_utf8(p),
            ).len() > 0 && stored@ == #[trigger] sealed_text(k@, n, p) ==> s@ == p,
        s@ == stored@ || (key matches Some(k) && exists|n: Seq<u8>|
            n.len() == NONCE_LEN && stored@ == #[trigger] sealed_text(k@, n, s@)),
{
    if stored.is_empty() {
        return String::new();
    }
    let k = match key {
        Some(k) => k,
        None => {
            return stored.to_string();
        },
    };
    match open(k, stored) {
        Some(s) => s,
        None => stored.to_string(),
    }
}

} // verus!
