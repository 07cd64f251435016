//! The SIP account: who we register as, and how we reach the registrar.
use vstd::prelude::*;

use crate::error::{is_config_error, Result, SipsterError};
use crate::text::{strip_all_prefix, trim, lower_seq, starts_with, contains, rfind_char, dec, chars_of, string_of, slice_chars, append, append_str, trim_chars, starts_with_exec, has_char, rfind_char_exec, lower_vec, push_dec};

verus! {

broadcast use vstd::string::group_string_axioms;

/// Transport used to reach the registrar.
#[derive(Debug, Clone, Copy, PartialEq, Eq, Structural)]
pub enum Transport {
    Udp,
    Tcp,
    /// TLS, which addresses the registrar as `sips:`.
    Tls,
}

pub open spec fn transport_port(t: Transport) -> u16 {
    match t {
        Transport::Tls => 5061,
        _ => 5060,
    }
}

pub open spec fn transport_scheme(t: Transport) -> Seq<char> {
    match t {
        Transport::Tls => "sips"@,
        _ => "sip"@,
    }
}

pub open spec fn transport_label(t: Transport) -> Seq<char> {
    match t {
        Transport::Udp => "UDP"@,
        Transport::Tcp => "TCP"@,
        Transport::Tls => "TLS"@,
    }
}

impl Default for Transport {
    /// UDP, the default transport.
    fn default() -> (t: Transport)
        ensures
            t == Transport::Udp,
    {
        Transport::Udp
    }
}

impl Transport {
    /// The default SIP port for this transport. TLS is 5061; the other two
    /// share 5060.
    pub fn default_port(self) -> (p: u16)
        ensures
            p == transport_port(self),
    {
        match self {
            Transport::Tls => 5061,
            Transport::Udp | Transport::Tcp => 5060,
        }
    }

    /// The URI scheme a registrar is addressed with.
    pub fn scheme(self) -> (s: &'static str)
        ensures
            s@ == transport_scheme(self),
    {
        match self {
            Transport::Tls => "sips",
            Transport::Udp | Transport::Tcp => "sip",
        }
    }

    /// How the transport is named in the UI.
    pub fn label(self) -> (s: &'static str)
        ensures
            s@ == transport_label(self),
    {
        match self {
            Transport::Udp => "UDP",
            Transport::Tcp => "TCP",
            Transport::Tls => "TLS",
        }
    }
}

/// A single SIP account: everything needed to register and place calls.
///
/// Field names deliberately mirror the Fritz!Box "IP phone" setup dialog so a
/// user can copy values across without translation.
#[derive(Clone)]
pub struct SipAccount {
    /// Registrar host — `fritz.box`, a LAN IP, or a provider domain.
    pub registrar: String,
    /// Registrar port; 5060 for plain UDP.
    pub port: u16,
    /// SIP username / internal number registered on the PBX.
    pub username: String,
    /// Authentication user. Optional — defaults to `username`.
    pub auth_user: String,
    /// Account password. Never rendered; see [`SipAccount::debug_text`].
    pub password: String,
    pub transport: Transport,
    /// Whether to register this account at all.
    pub enabled: bool,
    /// Re-registration interval requested from the registrar, in seconds.
    pub expires: u32,
    /// Local UDP port to bind SIP to.
    pub local_port: u16,
}

impl Default for SipAccount {
    fn default() -> (a: Self)
        ensures
            a.registrar@ == Seq::<char>::empty(),
            a.port == 5060,
            a.username@ == Seq::<char>::empty(),
            a.auth_user@ == Seq::<char>::empty(),
            a.password@ == Seq::<char>::empty(),
            a.transport == Transport::Udp,
            a.enabled,
            a.expires == 600,
            a.local_port == 5060,
    {
        SipAccount {
            registrar: String::new(),
            port: 5060,
            username: String::new(),
            auth_user: String::new(),
            password: String::new(),
            transport: Transport::Udp,
            enabled: true,
            expires: 600,
            local_port: 5060,
        }
    }
}

/// How many times `c` occurs in `s`.
pub open spec fn count_char(s: Seq<char>, c: char) -> nat
    decreases s.len(),
{
    if s.len() == 0 {
        0
    } else {
        count_char(s.drop_last(), c) + if s.last() == c {
            1nat
        } else {
            0nat
        }
    }
}

/// Whether `host` already carries an explicit `:port`, accounting for the
/// bracketed IPv6 form (`[::1]:5060`) where colons are part of the address.
pub open spec fn host_has_port(host: Seq<char>) -> bool {
    match rfind_char(host, ']') {
        None => count_char(host, ':') == 1,
        Some(b) => host.skip(b).contains(':'),
    }
}

/// The scheme and remainder of a registrar as typed: an explicit `sips:` or
/// `sip:` wins, otherwise the transport decides.
pub open spec fn registrar_parts(raw: Seq<char>, t: Transport) -> (Seq<char>, Seq<char>) {
    if starts_with(raw, "sips:"@) {
        ("sips"@, raw.skip(5))
    } else if starts_with(raw, "sip:"@) {
        ("sip"@, raw.skip(4))
    } else {
        (transport_scheme(t), raw)
    }
}

/// The registrar as a SIP URI, scheme and port added where missing.
pub open spec fn registrar_uri_of(registrar: Seq<char>, port: u16, t: Transport) -> Seq<char> {
    let parts = registrar_parts(trim(registrar), t);
    let rest = strip_all_prefix(parts.1, "//"@);
    if host_has_port(rest) {
        parts.0 + ":"@ + rest
    } else {
        parts.0 + ":"@ + rest + ":"@ + dec(port as nat)
    }
}

/// The user name the registrar authenticates: `auth_user` when set.
pub open spec fn effective_auth_user_of(a: SipAccount) -> Seq<char> {
    if a.auth_user@.len() == 0 {
        a.username@
    } else {
        a.auth_user@
    }
}

/// `transport://user@registrar:port`, the account's UI name.
pub open spec fn account_label(a: SipAccount) -> Seq<char> {
    lower_seq(transport_label(a.transport)) + "://"@ + effective_auth_user_of(a) + "@"@
        + a.registrar@ + ":"@ + dec(a.port as nat)
}

/// `Debug` formatting of a string (`<str as Debug>::fmt`): quoted, with
/// quotes, backslashes and unprintable characters escaped.
pub uninterp spec fn debug_quoted(s: Seq<char>) -> Seq<char>;

/// `format!("{:?}", s)`.
#[verifier::external_body]
pub(crate) fn debug_str(s: &str) -> (r: String)
    ensures
        r@ == debug_quoted(s@),
{
    format!("{:?}", s)
}

pub open spec fn bool_text(b: bool) -> Seq<char> {
    if b {
        "true"@
    } else {
        "false"@
    }
}

pub open spec fn transport_debug(t: Transport) -> Seq<char> {
    match t {
        Transport::Udp => "Udp"@,
        Transport::Tcp => "Tcp"@,
        Transport::Tls => "Tls"@,
    }
}

/// The account as `{:?}` renders it, the password replaced by `<redacted>`.
pub open spec fn account_debug(a: SipAccount) -> Seq<char> {
    "SipAccount { registrar: "@ + debug_quoted(a.registrar@) + ", port: "@ + dec(a.port as nat)
        + ", username: "@ + debug_quoted(a.username@) + ", auth_user: "@ + debug_quoted(
        a.auth_user@,
    ) + ", password: \"<redacted>\", transport: "@ + transport_debug(a.transport)
        + ", enabled: "@ + bool_text(a.enabled) + ", expires: "@ + dec(a.expires as nat)
        + ", local_port: "@ + dec(a.local_port as nat) + " }"@
}

/// Appends the characters of a `String`.
fn append_string(out: &mut Vec<char>, s: &String)
    ensures
        final(out)@ == old(out)@ + s@,
{
    append_str(out, s.as_str());
}

impl SipAccount {
    /// Validates that the account has the minimum needed to attempt a register.
    pub fn validate(&self) -> (r: Result<()>)
        ensures
            trim(self.registrar@).len() == 0 ==> is_config_error(r, "registrar host is empty"@),
            trim(self.registrar@).len() > 0 && trim(self.username@).len() == 0 ==> is_config_error(
                r,
                "username is empty"@,
            ),
            r is Ok <==> trim(self.registrar@).len() > 0 && trim(self.username@).len() > 0,
    {
        let reg = chars_of(self.registrar.as_str());
        if trim_chars(&reg).len() == 0 {
            return Err(SipsterError::Config("registrar host is empty".to_string()));
        }
        let user = chars_of(self.username.as_str());
        if trim_chars(&user).len() == 0 {
            return Err(SipsterError::Config("username is empty".to_string()));
        }
        Ok(())
    }

    /// The effective auth user, falling back to `username` when unset.
    pub fn effective_auth_user(&self) -> (s: &str)
        ensures
            s@ == effective_auth_user_of(*self),
    {
        if self.auth_user.as_str().is_empty() {
            self.username.as_str()
        } else {
            self.auth_user.as_str()
        }
    }

    /// How the account is named in the UI: `udp://user@registrar:port`.
    ///
    /// `auth_user` is preferred where it is set, because that is the name the
    /// registrar actually authenticates.
    pub fn label(&self) -> (s: String)
        ensures
            s@ == account_label(*self),
    {
        let t = chars_of(self.transport.label());
        let mut out = lower_vec(&t);
        append_str(&mut out, "://");
        append_str(&mut out, self.effective_auth_user());
        append_str(&mut out, "@");
        append_string(&mut out, &self.registrar);
        append_str(&mut out, ":");
        push_dec(&mut out, self.port as u64);
        string_of(&out)
    }

    /// Builds the registrar as a SIP URI, which is what the engine requires.
    ///
    /// Accepts a bare host, `host:port`, or an already-complete `sip:`/`sips:`
    /// URI, and adds the scheme and port when missing.
    pub fn registrar_uri(&self) -> (s: String)
        ensures
            s@ == registrar_uri_of(self.registrar@, self.port, self.transport),
    {
        let all = chars_of(self.registrar.as_str());
        let raw = trim_chars(&all);
        let sips = chars_of("sips:");
        let sip = chars_of("sip:");
        proof {
            reveal_strlit("sips:");
            reveal_strlit("sip:");
        }
        let (scheme, rest): (Vec<char>, Vec<char>) = if starts_with_exec(&raw, &sips) {
            (chars_of("sips"), slice_chars(&raw, 5, raw.len()))
        } else if starts_with_exec(&raw, &sip) {
            (chars_of("sip"), slice_chars(&raw, 4, raw.len()))
        } else {
            (chars_of(self.transport.scheme()), raw)
        };
        let rest = strip_leading_slashes(&rest);
        let mut out = scheme;
        append_str(&mut out, ":");
        append(&mut out, &rest);
        if !has_port(&rest) {
            append_str(&mut out, ":");
            push_dec(&mut out, self.port as u64);
        }
        string_of(&out)
    }

    /// The account as `{:?}` would show it, with the password redacted so it
    /// never leaks through a log line or a panic message.
    pub fn debug_text(&self) -> (s: String)
        ensures
            s@ == account_debug(*self),
    {
        let mut out = chars_of("SipAccount { registrar: ");
        append_string(&mut out, &debug_str(self.registrar.as_str()));
        append_str(&mut out, ", port: ");
        push_dec(&mut out, self.port as u64);
        append_str(&mut out, ", username: ");
        append_string(&mut out, &debug_str(self.username.as_str()));
        append_str(&mut out, ", auth_user: ");
        append_string(&mut out, &debug_str(self.auth_user.as_str()));
        append_str(&mut out, ", password: \"<redacted>\", transport: ");
        match self.transport {
            Transport::Udp => append_str(&mut out, "Udp"),
            Transport::Tcp => append_str(&mut out, "Tcp"),
            Transport::Tls => append_str(&mut out, "Tls"),
        }
        append_str(&mut out, ", enabled: ");
        if self.enabled {
            append_str(&mut out, "true");
        } else {
            append_str(&mut out, "false");
        }
        append_str(&mut out, ", expires: ");
        push_dec(&mut out, self.expires as u64);
        append_str(&mut out, ", local_port: ");
        push_dec(&mut out, self.local_port as u64);
        append_str(&mut out, " }");
        string_of(&out)
    }
}

/// Removes every leading `//`.
fn strip_leading_slashes(s: &[char]) -> (out: Vec<char>)
    ensures
        out@ == strip_all_prefix(s@, "//"@),
{
    proof {
        reveal_strlit("//");
    }
    let mut i: usize = 0;
    assert(s@.skip(0) == s@);
    while i < s.len() && s.len() - i >= 2 && s[i] == '/' && s[i + 1] == '/'
        invariant
            i <= s.len(),
            strip_all_prefix(s@, "//"@) == strip_all_prefix(s@.skip(i as int), "//"@),
        decreases s.len() - i,
    {
        proof {
            reveal_strlit("//");
        }
        let ghost t = s@.skip(i as int);
        assert(t.subrange(0, 2) =~= "//"@);
        assert(t.skip(2) == s@.skip(i + 2));
        i = i + 2;
    }
    proof {
        let t = s@.skip(i as int);
        if starts_with(t, "//"@) {
            assert(t.subrange(0, 2)[0] == t[0]);
            assert(t.subrange(0, 2)[1] == t[1]);
        }
    }
    slice_chars(s, i, s.len())
}

/// How many `:` a run of characters holds, capped at 2 (all `has_port` needs).
fn colon_count_capped(s: &[char]) -> (n: usize)
    ensures
        n <= 2,
        n == 1 <==> count_char(s@, ':') == 1,
{
    let mut n: usize = 0;
    let mut i: usize = 0;
    while i < s.len()
        invariant
            i <= s.len(),
            n <= 2,
            n < 2 ==> n == count_char(s@.take(i as int), ':'),
            n == 2 ==> count_char(s@.take(i as int), ':') >= 2,
        decreases s.len() - i,
    {
        assert(s@.take(i + 1).drop_last() == s@.take(i as int));
        if s[i] == ':' && n < 2 {
            n = n + 1;
        }
        i = i + 1;
    }
    assert(s@.take(s.len() as int) == s@);
    n
}

/// Whether `host` already carries an explicit `:port`.
fn has_port(host: &[char]) -> (b: bool)
    ensures
        b == host_has_port(host@),
{
    match rfind_char_exec(host, ']') {
        None => colon_count_capped(host) == 1,
        Some(b) => {
            let tail = slice_chars(host, b, host.len());
            assert(tail@ == host@.skip(b as int));
            has_char(&tail, ':')
        },
    }
}

} // verus!
