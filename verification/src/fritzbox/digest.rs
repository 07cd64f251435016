//! HTTP digest authentication, as TR-064 asks for it (RFC 2617, MD5).
use md5::Digest;
use vstd::prelude::*;

use crate::assoc::{
    get, index_map, insert, keys_distinct,
};
use crate::call::{is_v4_uuid, random_uuid_bits};
use crate::fritzbox::xml::split_on;
use crate::text::{
    concat_views, joined, chars_of, contains, contains_exec, hex_fixed, next_char, next_char_exec, push_hex_fixed, slice_chars, strip_all_prefix, strip_all_prefix_exec, string_of, trim, trim_chars, trim_matches, trim_matches_exec,
};

verus! {

broadcast use vstd::string::group_string_axioms;

/// A random 16-hex-digit client nonce: the first half of the simple (32
/// hex digit) form of a fresh random UUID.
pub open spec fn cnonce_of(bits: u128) -> Seq<char> {
    hex_fixed(bits as nat, 32).take(16)
}

/// A fresh random client nonce, 16 lowercase hex digits.
pub fn fresh_cnonce() -> (s: String)
    ensures
        exists|bits: u128| is_v4_uuid(bits) && s@ == cnonce_of(bits),
        s@.len() == 16,
{
    let bits = random_uuid_bits();
    let mut d: Vec<char> = Vec::new();
    push_hex_fixed(&mut d, bits, 32);
    assert(d@ =~= hex_fixed(bits as nat, 32));
    let s = string_of(&slice_chars(&d, 0, 16));
    assert(s@ == cnonce_of(bits));
    s
}

/// The lowercase hex MD5 digest of a text's UTF-8 bytes.
pub uninterp spec fn md5_hex_text(text: Seq<char>) -> Seq<char>;

/// The `md5` crate's `Md5` over the text's bytes, rendered with `{:x}`:
/// the result is the digest of exactly these bytes (unproved here, and
/// named rather than stated).
#[verifier::external_body]
fn md5_hex(text: &str) -> (s: String)
    ensures
        s@ == md5_hex_text(text@),
{
    let mut hasher = md5::Md5::new();
    hasher.update(text.as_bytes());
    format!("{:x}", hasher.finalize())
}

/// The `key=value` pairs of a `WWW-Authenticate` challenge, in order: the
/// `Digest ` prefixes stripped, the text split at commas, each piece with a
/// `=` split there, the key trimmed, the value trimmed and unquoted.
pub open spec fn auth_pairs(parts: Seq<Seq<char>>) -> Seq<(Seq<char>, Seq<char>)>
    decreases parts.len(),
{
    if parts.len() == 0 {
        Seq::empty()
    } else {
        let rest = auth_pairs(parts.drop_last());
        let t = trim(parts.last());
        match next_char(t, '=', 0) {
            Some(i) => rest.push((trim(t.take(i)), trim_matches(trim(t.skip(i + 1)), '"'))),
            None => rest,
        }
    }
}

/// The challenge's parameters as a map, a later key winning.
pub open spec fn pairs_map(pairs: Seq<(Seq<char>, Seq<char>)>) -> Map<Seq<char>, Seq<char>>
    decreases pairs.len(),
{
    if pairs.len() == 0 {
        Map::empty()
    } else {
        pairs_map(pairs.drop_last()).insert(pairs.last().0, pairs.last().1)
    }
}

/// What a challenge header says.
pub open spec fn challenge_params(header: Seq<char>) -> Map<Seq<char>, Seq<char>> {
    pairs_map(auth_pairs(split_on(strip_all_prefix(header, "Digest "@), ',')))
}

/// The view of a list of text pairs.
pub open spec fn params_view(v: Seq<(String, String)>) -> Map<Seq<char>, Seq<char>> {
    index_map(v).map_values(|s: String| s@)
}

/// Parses a `WWW-Authenticate: Digest …` challenge into its parameters,
/// each key once.
pub fn parse_auth_header(header: &str) -> (params: Vec<(String, String)>)
    ensures
        keys_distinct(params@),
        params_view(params@) == challenge_params(header@),
{
    let h = chars_of(header);
    let body = strip_all_prefix_exec(&h, &chars_of("Digest "));
    let parts = crate::fritzbox::xml::split_on_chars(&body, ',');
    let ghost pv = parts@.map_values(|p: Vec<char>| p@);
    let mut params: Vec<(String, String)> = Vec::new();
    let mut k: usize = 0;
    proof {
        assert(pv.take(0) =~= Seq::<Seq<char>>::empty());
        assert(params_view(params@) =~= Map::<Seq<char>, Seq<char>>::empty());
    }
    while k < parts.len()
        invariant
            k <= parts.len(),
            pv == parts@.map_values(|p: Vec<char>| p@),
            pv == split_on(strip_all_prefix(header@, "Digest "@), ','),
            keys_distinct(params@),
            params_view(params@) == pairs_map(auth_pairs(pv.take(k as int))),
        decreases parts.len() - k,
    {
        assert(pv.take(k + 1).drop_last() == pv.take(k as int));
        assert(pv.take(k + 1).last() == parts@[k as int]@);
        let t = trim_chars(&parts[k]);
        match next_char_exec(&t, '=', 0) {
            Some(i) => {
                let key = trim_chars(&slice_chars(&t, 0, i));
                let rest = slice_chars(&t, i + 1, t.len());
                assert(rest@ == t@.skip(i + 1));
                let val = trim_matches_exec(&trim_chars(&rest), '"');
                let ghost before = index_map(params@);
                assert(t@ == trim(pv[k as int]));
                assert(auth_pairs(pv.take(k + 1)) == auth_pairs(pv.take(k as int)).push(
                    (key@, val@),
                ));
                let val_s = string_of(&val);
                insert(&mut params, string_of(&key), val_s);
                assert(params_view(params@) =~= before.map_values(|s: String| s@).insert(
                    key@,
                    val@,
                ));
                let ghost prev = auth_pairs(pv.take(k as int));
                assert(prev.push((key@, val@)).drop_last() == prev);
                assert(pairs_map(prev.push((key@, val@))) == pairs_map(prev).insert(key@, val@));
            },
            None => {
                assert(t@ == trim(pv[k as int]));
                assert(auth_pairs(pv.take(k + 1)) == auth_pairs(pv.take(k as int)));
            },
        }
        k = k + 1;
    }
    assert(pv.take(parts.len() as int) == pv);
    params
}

/// The parameter `key` of a challenge, or nothing.
pub open spec fn param_or_empty(m: Map<Seq<char>, Seq<char>>, key: Seq<char>) -> Seq<char> {
    if m.contains_key(key) {
        m[key]
    } else {
        Seq::empty()
    }
}

fn param(params: &Vec<(String, String)>, key: &str) -> (r: Option<String>)
    requires
        keys_distinct(params@),
    ensures
        match r {
            Some(v) => params_view(params@).contains_key(key@) && params_view(params@)[key@] == v@,
            None => !params_view(params@).contains_key(key@),
        },
{
    match get(params, key) {
        Some(v) => Some(v.clone()),
        None => None,
    }
}

/// Whether the challenge asks for `qop=auth`.
pub open spec fn wants_qop_auth(m: Map<Seq<char>, Seq<char>>) -> bool {
    m.contains_key("qop"@) && contains(m["qop"@], "auth"@)
}

/// The `Authorization` header a challenge is answered with, `cnonce` being
/// the client nonce when the challenge asks for `qop=auth`.
pub open spec fn digest_header_text(
    user: Seq<char>,
    pass: Seq<char>,
    method: Seq<char>,
    uri: Seq<char>,
    m: Map<Seq<char>, Seq<char>>,
    cnonce: Seq<char>,
) -> Seq<char> {
    let realm = param_or_empty(m, "realm"@);
    let nonce = param_or_empty(m, "nonce"@);
    let ha1 = md5_hex_text(user + ":"@ + realm + ":"@ + pass);
    let ha2 = md5_hex_text(method + ":"@ + uri);
    let head = "Digest username=\""@ + user + "\", realm=\""@ + realm + "\", nonce=\""@ + nonce
        + "\", uri=\""@ + uri + "\", response=\""@;
    if wants_qop_auth(m) {
        let resp = md5_hex_text(
            ha1 + ":"@ + nonce + ":"@ + "00000001"@ + ":"@ + cnonce + ":"@ + "auth"@ + ":"@ + ha2,
        );
        head + resp + "\", qop=auth, nc=00000001, cnonce=\""@ + cnonce + "\""@
    } else {
        head + md5_hex_text(ha1 + ":"@ + nonce + ":"@ + ha2) + "\""@
    }
}

/// Answers a digest challenge, with `cnonce` as the client nonce.
pub fn digest_header_with(
    user: &str,
    pass: &str,
    method: &str,
    uri: &str,
    params: &Vec<(String, String)>,
    cnonce: &str,
) -> (h: String)
    requires
        keys_distinct(params@),
    ensures
        h@ == digest_header_text(user@, pass@, method@, uri@, params_view(params@), cnonce@),
{
    let ghost m = params_view(params@);
    let realm = match param(params, "realm") {
        Some(v) => v,
        None => String::new(),
    };
    let nonce = match param(params, "nonce") {
        Some(v) => v,
        None => String::new(),
    };
    assert(realm@ == param_or_empty(m, "realm"@));
    assert(nonce@ == param_or_empty(m, "nonce"@));
    proof {
        reveal_with_fuel(concat_views, 12);
    }
    let j1 = joined(&[user, ":", realm.as_str(), ":", pass]);
    assert(j1@ == user@ + ":"@ + realm@ + ":"@ + pass@);
    let ha1 = md5_hex(j1.as_str());
    let j2 = joined(&[method, ":", uri]);
    assert(j2@ == method@ + ":"@ + uri@);
    let ha2 = md5_hex(j2.as_str());
    let head = joined(
        &[
            "Digest username=\"",
            user,
            "\", realm=\"",
            realm.as_str(),
            "\", nonce=\"",
            nonce.as_str(),
            "\", uri=\"",
            uri,
            "\", response=\"",
        ],
    );
    let qop = param(params, "qop");
    let auth = match &qop {
        Some(q) => contains_exec(&chars_of(q.as_str()), &chars_of("auth")),
        None => false,
    };
    assert(auth == wants_qop_auth(m));
    if auth {
        let resp = md5_hex(
            joined(
                &[
                    ha1.as_str(),
                    ":",
                    nonce.as_str(),
                    ":",
                    "00000001",
                    ":",
                    cnonce,
                    ":",
                    "auth",
                    ":",
                    ha2.as_str(),
                ],
            ).as_str(),
        );
        joined(
            &[head.as_str(), resp.as_str(), "\", qop=auth, nc=00000001, cnonce=\"", cnonce, "\""],
        )
    } else {
        let resp = md5_hex(joined(&[ha1.as_str(), ":", nonce.as_str(), ":", ha2.as_str()]).as_str());
        joined(&[head.as_str(), resp.as_str(), "\""])
    }
}

/// Answers a digest challenge with a fresh client nonce.
pub fn build_digest_header(
    user: &str,
    pass: &str,
    method: &str,
    uri: &str,
    params: &Vec<(String, String)>,
) -> (h: String)
    requires
        keys_distinct(params@),
    ensures
        exists|bits: u128|
            is_v4_uuid(bits) && h@ == digest_header_text(
                user@,
                pass@,
                method@,
                uri@,
                params_view(params@),
                cnonce_of(bits),
            ),
{
    let cnonce = fresh_cnonce();
    digest_header_with(user, pass, method, uri, params, cnonce.as_str())
}

} // verus!
