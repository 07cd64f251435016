//! The commands one copy of Sipster hands another, and how they are read
//! from a URI or from the command line.
//!
//! A softphone must be single-instance, and the channel that forwards a
//! second launch's request to the running copy is also the remote-control
//! interface, so `sipster tel:611`, a `tel:` link from a browser and a
//! script all take one path: a URI, parsed here.
use vstd::prelude::*;
use vstd::utf8::{decode_utf8, encode_utf8, valid_utf8};

use crate::cli::str_views;
use crate::config::account::count_char;
use crate::text::{
    chars_of, eq_chars, find_char_from, has_char, lower_seq, lower_vec, slice_chars,
    starts_with, starts_with_exec, string_of, trim, trim_chars,
};

verus! {

broadcast use vstd::string::group_string_axioms;

/// A command sent to the running instance.
#[derive(Debug, Clone, PartialEq, Eq)]
pub enum Command {
    /// Place a call to a number, extension or SIP URI.
    Call { target: String },
    /// Fill in the dial box and focus the dialer window without calling.
    Dial { target: String },
    /// Answer the currently ringing inbound call.
    Answer,
    /// Hang up the active call, or decline a ringing one.
    Hangup,
    /// Put the active call on hold, or take it off again.
    SetHold { hold: bool },
    /// Hand the active call to `target` and drop out of it.
    Transfer { target: String },
    /// Send one DTMF digit to the far end of the active call.
    Dtmf { digit: char },
    /// Raise and focus the window.
    Show,
    /// Open the Settings window.
    OpenSettings,
    /// Open the Contacts window.
    OpenContacts,
    /// Open the Call List window.
    OpenCallList,
    /// Ask the running instance to quit.
    Quit,
}

/// A [`Command`] with its text as characters.
pub enum CommandView {
    Call(Seq<char>),
    Dial(Seq<char>),
    Answer,
    Hangup,
    SetHold(bool),
    Transfer(Seq<char>),
    Dtmf(char),
    Show,
    OpenSettings,
    OpenContacts,
    OpenCallList,
    Quit,
}

pub open spec fn command_view(c: Command) -> CommandView {
    match c {
        Command::Call { target } => CommandView::Call(target@),
        Command::Dial { target } => CommandView::Dial(target@),
        Command::Answer => CommandView::Answer,
        Command::Hangup => CommandView::Hangup,
        Command::SetHold { hold } => CommandView::SetHold(hold),
        Command::Transfer { target } => CommandView::Transfer(target@),
        Command::Dtmf { digit } => CommandView::Dtmf(digit),
        Command::Show => CommandView::Show,
        Command::OpenSettings => CommandView::OpenSettings,
        Command::OpenContacts => CommandView::OpenContacts,
        Command::OpenCallList => CommandView::OpenCallList,
        Command::Quit => CommandView::Quit,
    }
}

pub open spec fn opt_command_view(c: Option<Command>) -> Option<CommandView> {
    match c {
        Some(c) => Some(command_view(c)),
        None => None,
    }
}

// ─────────────────────────── percent-decoding ───────────────────────────

pub open spec fn is_hex_byte(b: u8) -> bool {
    ||| 0x30 <= b <= 0x39
    ||| 0x61 <= b <= 0x66
    ||| 0x41 <= b <= 0x46
}

pub open spec fn hex_byte_val(b: u8) -> int {
    if 0x30 <= b <= 0x39 {
        b - 0x30
    } else if 0x61 <= b <= 0x66 {
        b - 0x61 + 10
    } else {
        b - 0x41 + 10
    }
}

/// `u8::from_str_radix` on two bytes in base 16: an optional leading `+`,
/// then hex digits.
pub open spec fn radix16_pair(b1: u8, b2: u8) -> Option<u8> {
    if b1 == 0x2B {
        if is_hex_byte(b2) {
            Some(hex_byte_val(b2) as u8)
        } else {
            None
        }
    } else if is_hex_byte(b1) && is_hex_byte(b2) {
        Some((hex_byte_val(b1) * 16 + hex_byte_val(b2)) as u8)
    } else {
        None
    }
}

/// The bytes with every `%XX` escape replaced by the byte it names.
pub open spec fn unescaped_bytes(b: Seq<u8>) -> Seq<u8>
    decreases b.len(),
{
    if b.len() == 0 {
        b
    } else if b[0] == 0x25 && 2 < b.len() && radix16_pair(b[1], b[2]) is Some {
        seq![radix16_pair(b[1], b[2])->0] + unescaped_bytes(b.skip(3))
    } else {
        seq![b[0]] + unescaped_bytes(b.drop_first())
    }
}

/// Whether percent-decoding these bytes slices only on character
/// boundaries. Decoding reads the two bytes after each `%` as a string, and
/// when the second of them starts in the middle of a character that slice
/// does not exist.
pub open spec fn decodable_bytes(b: Seq<u8>) -> bool
    decreases b.len(),
{
    if b.len() == 0 {
        true
    } else if b[0] == 0x25 && 2 < b.len() {
        !(b.len() > 3 && 0x80 <= b[3] <= 0xBF) && if radix16_pair(b[1], b[2]) is Some {
            decodable_bytes(b.skip(3))
        } else {
            decodable_bytes(b.drop_first())
        }
    } else {
        decodable_bytes(b.drop_first())
    }
}

/// What `String::from_utf8_lossy` makes of a byte sequence: each invalid
/// sequence replaced by U+FFFD.
pub uninterp spec fn utf8_lossy(b: Seq<u8>) -> Seq<char>;

/// `String::from_utf8_lossy(bytes).into_owned()`. Valid UTF-8 comes back
/// unchanged, as its documentation says.
#[verifier::external_body]
fn from_utf8_lossy(bytes: &[u8]) -> (s: String)
    ensures
        s@ == utf8_lossy(bytes@),
        valid_utf8(bytes@) ==> s@ == decode_utf8(bytes@),
{
    String::from_utf8_lossy(bytes).into_owned()
}

/// The text `percent_decode` makes of `s`: the unescaped bytes as UTF-8
/// when they are, else with each invalid sequence replaced by U+FFFD.
pub open spec fn percent_decoded(s: Seq<char>) -> Seq<char> {
    let b = unescaped_bytes(encode_utf8(s));
    if valid_utf8(b) {
        decode_utf8(b)
    } else {
        utf8_lossy(b)
    }
}

pub open spec fn percent_decodable(s: Seq<char>) -> bool {
    decodable_bytes(encode_utf8(s))
}

fn hex_byte_val_exec(b: u8) -> (v: u8)
    requires
        is_hex_byte(b),
    ensures
        v == hex_byte_val(b),
{
    if 0x30 <= b && b <= 0x39 {
        b - 0x30
    } else if 0x61 <= b && b <= 0x66 {
        b - 0x61 + 10
    } else {
        b - 0x41 + 10
    }
}

fn is_hex_byte_exec(b: u8) -> (r: bool)
    ensures
        r == is_hex_byte(b),
{
    (0x30 <= b && b <= 0x39) || (0x61 <= b && b <= 0x66) || (0x41 <= b && b <= 0x46)
}

fn radix16_pair_exec(b1: u8, b2: u8) -> (r: Option<u8>)
    ensures
        r == radix16_pair(b1, b2),
{
    if b1 == 0x2B {
        if is_hex_byte_exec(b2) {
            Some(hex_byte_val_exec(b2))
        } else {
            None
        }
    } else if is_hex_byte_exec(b1) && is_hex_byte_exec(b2) {
        Some(hex_byte_val_exec(b1) * 16 + hex_byte_val_exec(b2))
    } else {
        None
    }
}

/// Minimal percent-decoding; URIs here are short and mostly ASCII.
pub fn percent_decode(input: &str) -> (s: String)
    requires
        percent_decodable(input@),
    ensures
        s@ == percent_decoded(input@),
{
    let bytes = input.as_bytes();
    let ghost all = bytes@;
    let mut out: Vec<u8> = Vec::new();
    let mut i: usize = 0;
    assert(all.skip(0) == all);
    while i < bytes.len()
        invariant
            i <= bytes.len(),
            all == bytes@,
            decodable_bytes(all.skip(i as int)),
            unescaped_bytes(all) == out@ + unescaped_bytes(all.skip(i as int)),
        decreases bytes.len() - i,
    {
        let ghost rest = all.skip(i as int);
        assert(rest[0] == bytes[i as int]);
        if bytes[i] == 0x25 && bytes.len() - i > 2 {
            assert(rest[1] == bytes[i + 1] && rest[2] == bytes[i + 2]);
            if let Some(byte) = radix16_pair_exec(bytes[i + 1], bytes[i + 2]) {
                out.push(byte);
                assert(rest.skip(3) == all.skip(i + 3));
                assert(out@ + unescaped_bytes(all.skip(i + 3)) == (out@.drop_last() + seq![byte])
                    + unescaped_bytes(all.skip(i + 3)));
                i = i + 3;
                continue;
            }
        }
        assert(rest.drop_first() == all.skip(i + 1));
        out.push(bytes[i]);
        i = i + 1;
    }
    assert(all.skip(i as int) =~= Seq::<u8>::empty());
    assert(out@ + Seq::<u8>::empty() == out@);
    from_utf8_lossy(&out)
}

// ─────────────────────────────── dialability ───────────────────────────────

pub open spec fn dial_punctuation(c: char) -> bool {
    c == '*' || c == '#' || c == '+' || c == '-' || c == '(' || c == ')' || c == ' ' || c == '.'
}

/// Whether `target` looks like something worth putting in the dial box:
/// digits and the punctuation a dial string carries, or an explicit SIP
/// URI or address.
pub open spec fn dialable(t: Seq<char>) -> bool {
    ||| starts_with(t, "sip:"@)
    ||| starts_with(t, "sips:"@)
    ||| t.contains('@')
    ||| ((forall|i: int| 0 <= i < t.len() ==> ('0' <= #[trigger] t[i] <= '9' || dial_punctuation(t[i])))
        && exists|i: int| 0 <= i < t.len() && '0' <= #[trigger] t[i] <= '9')
}

fn is_dialable(t: &[char]) -> (b: bool)
    ensures
        b == dialable(t@),
{
    if starts_with_exec(t, &chars_of("sip:")) || starts_with_exec(t, &chars_of("sips:")) || has_char(t, '@') {
        return true;
    }
    let mut has_digit = false;
    let mut i: usize = 0;
    while i < t.len()
        invariant
            i <= t.len(),
            !starts_with(t@, "sip:"@) && !starts_with(t@, "sips:"@) && !t@.contains('@'),
            forall|j: int| 0 <= j < i ==> ('0' <= #[trigger] t@[j] <= '9' || dial_punctuation(t@[j])),
            has_digit == exists|j: int| 0 <= j < i && '0' <= #[trigger] t@[j] <= '9',
        decreases t.len() - i,
    {
        let c = t[i];
        if '0' <= c && c <= '9' {
            has_digit = true;
        } else if !(c == '*' || c == '#' || c == '+' || c == '-' || c == '(' || c == ')' || c == ' ' || c == '.') {
            assert(!('0' <= t@[i as int] <= '9' || dial_punctuation(t@[i as int])));
            return false;
        }
        i = i + 1;
    }
    has_digit
}

// ─────────────────────────────── URI parsing ───────────────────────────────

/// `s` without its leading `c`s (`trim_start_matches(c)`).
pub open spec fn strip_leading(s: Seq<char>, c: char) -> Seq<char>
    decreases s.len(),
{
    if s.len() > 0 && s[0] == c {
        strip_leading(s.drop_first(), c)
    } else {
        s
    }
}

/// `s` without its leading `//`s (`trim_start_matches("//")`).
pub open spec fn strip_double_slashes(s: Seq<char>) -> Seq<char>
    decreases s.len(),
{
    if s.len() >= 2 && s[0] == '/' && s[1] == '/' {
        strip_double_slashes(s.skip(2))
    } else {
        s
    }
}

/// The index of the first `?` or `#`.
pub open spec fn query_start(s: Seq<char>, from: int) -> Option<int>
    decreases s.len() - from,
{
    if from < 0 || from >= s.len() {
        None
    } else if s[from] == '?' || s[from] == '#' {
        Some(from)
    } else {
        query_start(s, from + 1)
    }
}

/// The index of the first `:`.
pub open spec fn first_colon(s: Seq<char>, from: int) -> Option<int>
    decreases s.len() - from,
{
    if from < 0 || from >= s.len() {
        None
    } else if s[from] == ':' {
        Some(from)
    } else {
        first_colon(s, from + 1)
    }
}

/// The dialable characters of a `tel:`/`callto:` target: digits, `+`, `*`
/// and `#`, everything else (RFC 3966 separators) dropped.
pub open spec fn tel_digits(s: Seq<char>) -> Seq<char>
    decreases s.len(),
{
    if s.len() == 0 {
        s
    } else {
        let rest = tel_digits(s.drop_last());
        let c = s.last();
        if ('0' <= c <= '9') || c == '+' || c == '*' || c == '#' {
            rest.push(c)
        } else {
            rest
        }
    }
}

pub open spec fn known_scheme(s: Seq<char>) -> bool {
    s == "tel"@ || s == "sip"@ || s == "sips"@ || s == "callto"@ || s == "sipster"@
}

/// What a `sipster:` action (and its query) asks for.
pub open spec fn sipster_action(action: Seq<char>, query: Seq<char>) -> Option<CommandView> {
    let a = lower_seq(action);
    if a == "open/settings"@ || a == "settings"@ {
        Some(CommandView::OpenSettings)
    } else if a == "open/contacts"@ || a == "contacts"@ {
        Some(CommandView::OpenContacts)
    } else if a == "open/calllist"@ || a == "open/history"@ || a == "calllist"@ || a == "history"@ {
        Some(CommandView::OpenCallList)
    } else if a == "hangup"@ || a == "end"@ {
        Some(CommandView::Hangup)
    } else if a == "hold"@ {
        Some(CommandView::SetHold(true))
    } else if a == "resume"@ || a == "unhold"@ {
        Some(CommandView::SetHold(false))
    } else if starts_with(a, "transfer/"@) {
        let t = trim(percent_decoded(action.skip(9)));
        if t.len() > 0 {
            Some(CommandView::Transfer(t))
        } else {
            None
        }
    } else if starts_with(a, "dtmf/"@) {
        let d = percent_decoded(action.skip(5));
        if d.len() > 0 {
            Some(CommandView::Dtmf(d[0]))
        } else {
            None
        }
    } else if a == "answer"@ {
        Some(CommandView::Answer)
    } else if a == "show"@ || a == "focus"@ || a.len() == 0 {
        Some(CommandView::Show)
    } else if a == "quit"@ {
        Some(CommandView::Quit)
    } else if starts_with(a, "call/"@) {
        let t = trim(percent_decoded(action.skip(5)));
        if t.len() == 0 {
            Some(CommandView::Show)
        } else {
            Some(CommandView::Call(t))
        }
    } else if starts_with(a, "dial/"@) {
        let t = trim(percent_decoded(action.skip(5)));
        if t.len() == 0 {
            Some(CommandView::Show)
        } else {
            Some(CommandView::Dial(t))
        }
    } else {
        let candidate = if action.len() == 0 {
            query
        } else {
            action
        };
        let inner = trim(percent_decoded(candidate));
        if inner.len() == 0 {
            Some(CommandView::Show)
        } else if dialable(inner) {
            Some(CommandView::Dial(inner))
        } else {
            None
        }
    }
}

/// The text that percent-decoding is applied to for a `sipster:` action.
pub open spec fn sipster_decoded_input(action: Seq<char>, query: Seq<char>) -> Option<Seq<char>> {
    let a = lower_seq(action);
    if a == "open/settings"@ || a == "settings"@ || a == "open/contacts"@ || a == "contacts"@
        || a == "open/calllist"@ || a == "open/history"@ || a == "calllist"@ || a == "history"@
        || a == "hangup"@ || a == "end"@ || a == "hold"@ || a == "resume"@ || a == "unhold"@ {
        None
    } else if starts_with(a, "transfer/"@) {
        Some(action.skip(9))
    } else if starts_with(a, "dtmf/"@) {
        Some(action.skip(5))
    } else if a == "answer"@ || a == "show"@ || a == "focus"@ || a.len() == 0 || a == "quit"@ {
        None
    } else if starts_with(a, "call/"@) || starts_with(a, "dial/"@) {
        Some(action.skip(5))
    } else if action.len() == 0 {
        Some(query)
    } else {
        Some(action)
    }
}

/// The parts of a URI: lower-cased scheme and what follows the first `:`.
pub open spec fn uri_parts(uri: Seq<char>) -> Option<(Seq<char>, Seq<char>)> {
    let u = trim(uri);
    match first_colon(u, 0) {
        None => None,
        Some(i) => Some((lower_seq(u.take(i)), u.skip(i + 1))),
    }
}

/// A `sipster:` path split into its action and query.
pub open spec fn sipster_split(rest: Seq<char>) -> (Seq<char>, Seq<char>) {
    let path = strip_leading(rest, '/');
    match query_start(path, 0) {
        Some(k) => (path.take(k), path.skip(k + 1)),
        None => (path, Seq::empty()),
    }
}

/// The target part of a `tel:`/`sip:`/`callto:` URI before decoding.
pub open spec fn plain_target(rest: Seq<char>) -> Seq<char> {
    let r = strip_double_slashes(rest);
    match query_start(r, 0) {
        Some(k) => r.take(k),
        None => r,
    }
}

/// What `Command::from_uri` makes of a URI.
pub open spec fn uri_command(uri: Seq<char>) -> Option<CommandView> {
    match uri_parts(uri) {
        None => None,
        Some(parts) => {
            let scheme = parts.0;
            if !known_scheme(scheme) {
                None
            } else if scheme == "sipster"@ {
                let (action, query) = sipster_split(parts.1);
                sipster_action(action, query)
            } else {
                let decoded = percent_decoded(plain_target(parts.1));
                let target = if scheme == "sip"@ || scheme == "sips"@ {
                    scheme + ":"@ + decoded
                } else {
                    tel_digits(decoded)
                };
                if target.len() > 0 {
                    Some(CommandView::Dial(target))
                } else {
                    None
                }
            }
        },
    }
}

/// Whether parsing `uri` only percent-decodes text it can slice.
pub open spec fn uri_decodable(uri: Seq<char>) -> bool {
    match uri_parts(uri) {
        None => true,
        Some(parts) => {
            let scheme = parts.0;
            if !known_scheme(scheme) {
                true
            } else if scheme == "sipster"@ {
                let (action, query) = sipster_split(parts.1);
                match sipster_decoded_input(action, query) {
                    Some(text) => percent_decodable(text),
                    None => true,
                }
            } else {
                percent_decodable(plain_target(parts.1))
            }
        },
    }
}

fn decoded_chars(s: &[char]) -> (out: Vec<char>)
    requires
        percent_decodable(s@),
    ensures
        out@ == percent_decoded(s@),
{
    let st = string_of(s);
    let d = percent_decode(st.as_str());
    chars_of(d.as_str())
}

fn eq_lit(s: &[char], lit: &str) -> (b: bool)
    ensures
        b == (s@ == lit@),
{
    eq_chars(s, &chars_of(lit))
}

/// The first `?` or `#` at or after `from`.
fn query_start_exec(s: &[char], from: usize) -> (r: Option<usize>)
    ensures
        r matches Some(k) ==> query_start(s@, from as int) == Some(k as int) && k < s.len(),
        r is None ==> query_start(s@, from as int) is None,
{
    let mut i = from;
    while i < s.len()
        invariant
            from <= i,
            query_start(s@, from as int) == query_start(s@, i as int),
        decreases s.len() - i,
    {
        if s[i] == '?' || s[i] == '#' {
            return Some(i);
        }
        i = i + 1;
    }
    None
}

fn strip_leading_exec(s: &[char], c: char) -> (out: Vec<char>)
    ensures
        out@ == strip_leading(s@, c),
{
    let mut i: usize = 0;
    assert(s@.skip(0) == s@);
    while i < s.len() && s[i] == c
        invariant
            i <= s.len(),
            strip_leading(s@, c) == strip_leading(s@.skip(i as int), c),
        decreases s.len() - i,
    {
        assert(s@.skip(i as int).drop_first() == s@.skip(i + 1));
        i = i + 1;
    }
    slice_chars(s, i, s.len())
}

fn strip_double_slashes_exec(s: &[char]) -> (out: Vec<char>)
    ensures
        out@ == strip_double_slashes(s@),
{
    let mut i: usize = 0;
    assert(s@.skip(0) == s@);
    while i < s.len() && s.len() - i >= 2 && s[i] == '/' && s[i + 1] == '/'
        invariant
            i <= s.len(),
            strip_double_slashes(s@) == strip_double_slashes(s@.skip(i as int)),
        decreases s.len() - i,
    {
        assert(s@.skip(i as int).skip(2) == s@.skip(i + 2));
        i = i + 2;
    }
    slice_chars(s, i, s.len())
}

fn tel_digits_exec(s: &[char]) -> (out: Vec<char>)
    ensures
        out@ == tel_digits(s@),
{
    let mut out: Vec<char> = Vec::new();
    let mut i: usize = 0;
    while i < s.len()
        invariant
            i <= s.len(),
            out@ == tel_digits(s@.take(i as int)),
        decreases s.len() - i,
    {
        assert(s@.take(i + 1).drop_last() == s@.take(i as int));
        let c = s[i];
        if ('0' <= c && c <= '9') || c == '+' || c == '*' || c == '#' {
            out.push(c);
        }
        i = i + 1;
    }
    assert(s@.take(s.len() as int) == s@);
    out
}

/// The trimmed, percent-decoded `action[skip..]`.
fn decoded_tail(action: &[char], skip: usize) -> (out: Vec<char>)
    requires
        skip <= action.len(),
        percent_decodable(action@.skip(skip as int)),
    ensures
        out@ == trim(percent_decoded(action@.skip(skip as int))),
{
    let tail = slice_chars(action, skip, action.len());
    assert(tail@ == action@.skip(skip as int));
    let d = decoded_chars(&tail);
    trim_chars(&d)
}

fn sipster_action_exec(action: &[char], query: &[char]) -> (r: Option<Command>)
    requires
        match sipster_decoded_input(action@, query@) {
            Some(text) => percent_decodable(text),
            None => true,
        },
    ensures
        opt_command_view(r) == sipster_action(action@, query@),
{
    let a = lower_vec(action);
    proof {
        reveal_strlit("transfer/");
        reveal_strlit("dtmf/");
        reveal_strlit("call/");
        reveal_strlit("dial/");
        assert(a@.len() == action@.len());
    }
    if eq_lit(&a, "open/settings") || eq_lit(&a, "settings") {
        Some(Command::OpenSettings)
    } else if eq_lit(&a, "open/contacts") || eq_lit(&a, "contacts") {
        Some(Command::OpenContacts)
    } else if eq_lit(&a, "open/calllist") || eq_lit(&a, "open/history") || eq_lit(&a, "calllist")
        || eq_lit(&a, "history") {
        Some(Command::OpenCallList)
    } else if eq_lit(&a, "hangup") || eq_lit(&a, "end") {
        Some(Command::Hangup)
    } else if eq_lit(&a, "hold") {
        Some(Command::SetHold { hold: true })
    } else if eq_lit(&a, "resume") || eq_lit(&a, "unhold") {
        Some(Command::SetHold { hold: false })
    } else if starts_with_exec(&a, &chars_of("transfer/")) {
        let t = decoded_tail(action, 9);
        if t.len() > 0 {
            Some(Command::Transfer { target: string_of(&t) })
        } else {
            None
        }
    } else if starts_with_exec(&a, &chars_of("dtmf/")) {
        let tail = slice_chars(action, 5, action.len());
        assert(tail@ == action@.skip(5));
        let d = decoded_chars(&tail);
        if d.len() > 0 {
            Some(Command::Dtmf { digit: d[0] })
        } else {
            None
        }
    } else if eq_lit(&a, "answer") {
        Some(Command::Answer)
    } else if eq_lit(&a, "show") || eq_lit(&a, "focus") || a.len() == 0 {
        Some(Command::Show)
    } else if eq_lit(&a, "quit") {
        Some(Command::Quit)
    } else if starts_with_exec(&a, &chars_of("call/")) {
        let t = decoded_tail(action, 5);
        if t.len() == 0 {
            Some(Command::Show)
        } else {
            Some(Command::Call { target: string_of(&t) })
        }
    } else if starts_with_exec(&a, &chars_of("dial/")) {
        let t = decoded_tail(action, 5);
        if t.len() == 0 {
            Some(Command::Show)
        } else {
            Some(Command::Dial { target: string_of(&t) })
        }
    } else {
        let candidate: &[char] = if action.len() == 0 {
            query
        } else {
            action
        };
        let d = decoded_chars(candidate);
        let inner = trim_chars(&d);
        if inner.len() == 0 {
            Some(Command::Show)
        } else if is_dialable(&inner) {
            Some(Command::Dial { target: string_of(&inner) })
        } else {
            None
        }
    }
}

impl Command {
    /// Parses a `tel:`, `sip:`, `sips:`, `callto:` or `sipster:` URI into a
    /// command.
    ///
    /// Handles the shapes a desktop actually delivers: `tel:+49301234`,
    /// `tel://611`, percent-encoding, RFC 3966 visual separators
    /// (`tel:+49-30-12 34`), and a `?call` style query suffix. Telephony
    /// URIs fill the dial box; `sipster:` URIs name an action.
    pub fn from_uri(uri: &str) -> (r: Option<Command>)
        requires
            uri_decodable(uri@),
        ensures
            opt_command_view(r) == uri_command(uri@),
    {
        let all = chars_of(uri);
        let u = trim_chars(&all);
        let colon = match find_char_from(&u, ':', 0) {
            Some(i) => i,
            None => {
                proof {
                    lemma_first_colon_none(u@, 0);
                }
                return None;
            },
        };
        proof {
            lemma_first_colon_some(u@, 0, colon as int);
        }
        let scheme_raw = slice_chars(&u, 0, colon);
        let scheme = lower_vec(&scheme_raw);
        let rest = slice_chars(&u, colon + 1, u.len());
        assert(scheme_raw@ == u@.take(colon as int));
        assert(rest@ == u@.skip(colon + 1));
        assert(uri_parts(uri@) == Some((scheme@, rest@)));
        let is_sipster = eq_lit(&scheme, "sipster");
        if !(eq_lit(&scheme, "tel") || eq_lit(&scheme, "sip") || eq_lit(&scheme, "sips") || eq_lit(
            &scheme,
            "callto",
        ) || is_sipster) {
            return None;
        }
        if is_sipster {
            let path = strip_leading_exec(&rest, '/');
            let (action, query): (Vec<char>, Vec<char>) = match query_start_exec(&path, 0) {
                Some(k) => (slice_chars(&path, 0, k), slice_chars(&path, k + 1, path.len())),
                None => {
                    let empty: Vec<char> = Vec::new();
                    assert(empty@ =~= Seq::<char>::empty());
                    (slice_chars(&path, 0, path.len()), empty)
                },
            };
            assert(action@ == sipster_split(rest@).0 && query@ == sipster_split(rest@).1) by {
                assert(path@.subrange(0, path@.len() as int) == path@);
            }
            return sipster_action_exec(&action, &query);
        }
        let r = strip_double_slashes_exec(&rest);
        let target_raw = match query_start_exec(&r, 0) {
            Some(k) => slice_chars(&r, 0, k),
            None => slice_chars(&r, 0, r.len()),
        };
        assert(r@.subrange(0, r@.len() as int) == r@);
        assert(target_raw@ == plain_target(rest@));
        assert(known_scheme(scheme@) && scheme@ != "sipster"@);
        let decoded = decoded_chars(&target_raw);
        proof {
            reveal_strlit(":");
        }
        let target = if eq_lit(&scheme, "sip") || eq_lit(&scheme, "sips") {
            let mut t = slice_chars(&scheme, 0, scheme.len());
            t.push(':');
            crate::text::append(&mut t, &decoded);
            assert(scheme@.subrange(0, scheme@.len() as int) == scheme@);
            assert(t@ == scheme@ + ":"@ + decoded@);
            t
        } else {
            tel_digits_exec(&decoded)
        };
        assert(target@ == (if scheme@ == "sip"@ || scheme@ == "sips"@ {
            scheme@ + ":"@ + percent_decoded(plain_target(rest@))
        } else {
            tel_digits(percent_decoded(plain_target(rest@)))
        }));
        if target.len() > 0 {
            Some(Command::Dial { target: string_of(&target) })
        } else {
            None
        }
    }

    /// Parses command-line arguments into a [`Command`], if any was requested.
    ///
    /// The only argument that carries a command is a URI: the first one that
    /// parses wins. There are no command flags, so `--call 611` asks for
    /// nothing.
    pub fn from_args(args: &[&str]) -> (r: Option<Command>)
        requires
            args_decodable(str_views(args@), 0),
        ensures
            opt_command_view(r) == args_command(str_views(args@), 0),
    {
        let ghost av = str_views(args@);
        let mut i: usize = 0;
        while i < args.len()
            invariant
                av == str_views(args@),
                args_decodable(av, i as int),
                args_command(av, 0) == args_command(av, i as int),
            decreases args.len() - i,
        {
            assert(av[i as int] == args@[i as int]@);
            if let Some(c) = Command::from_uri(args[i]) {
                return Some(c);
            }
            i = i + 1;
        }
        None
    }
}

/// Whether percent-decoding `input` slices only on character boundaries.
pub fn is_percent_decodable(input: &str) -> (b: bool)
    ensures
        b == percent_decodable(input@),
{
    let bytes = input.as_bytes();
    let ghost all = bytes@;
    let mut i: usize = 0;
    assert(all.skip(0) == all);
    while i < bytes.len()
        invariant
            i <= bytes.len(),
            all == bytes@,
            all == encode_utf8(input@),
            decodable_bytes(all) == decodable_bytes(all.skip(i as int)),
        decreases bytes.len() - i,
    {
        let ghost rest = all.skip(i as int);
        assert(rest[0] == bytes[i as int]);
        if bytes[i] == 0x25 && bytes.len() - i > 2 {
            assert(rest[1] == bytes[i + 1] && rest[2] == bytes[i + 2]);
            if bytes.len() - i > 3 && 0x80 <= bytes[i + 3] && bytes[i + 3] <= 0xBF {
                assert(rest[3] == bytes[i + 3]);
                return false;
            }
            if radix16_pair_exec(bytes[i + 1], bytes[i + 2]).is_some() {
                assert(rest.skip(3) == all.skip(i + 3));
                i = i + 3;
                continue;
            }
        }
        assert(rest.drop_first() == all.skip(i + 1));
        i = i + 1;
    }
    assert(all.skip(i as int) =~= Seq::<u8>::empty());
    true
}

fn decodable_chars(s: &[char]) -> (b: bool)
    ensures
        b == percent_decodable(s@),
{
    let st = string_of(s);
    is_percent_decodable(st.as_str())
}

/// The text of `action[skip..]`, when `skip` is in range.
fn tail_decodable(action: &[char], skip: usize) -> (b: bool)
    requires
        skip <= action.len(),
    ensures
        b == percent_decodable(action@.skip(skip as int)),
{
    let tail = slice_chars(action, skip, action.len());
    assert(tail@ == action@.skip(skip as int));
    decodable_chars(&tail)
}

fn sipster_decodable(action: &[char], query: &[char]) -> (b: bool)
    ensures
        b == match sipster_decoded_input(action@, query@) {
            Some(text) => percent_decodable(text),
            None => true,
        },
{
    let a = lower_vec(action);
    proof {
        reveal_strlit("transfer/");
        reveal_strlit("dtmf/");
        reveal_strlit("call/");
        reveal_strlit("dial/");
        assert(a@.len() == action@.len());
    }
    if eq_lit(&a, "open/settings") || eq_lit(&a, "settings") || eq_lit(&a, "open/contacts")
        || eq_lit(&a, "contacts") || eq_lit(&a, "open/calllist") || eq_lit(&a, "open/history")
        || eq_lit(&a, "calllist") || eq_lit(&a, "history") || eq_lit(&a, "hangup") || eq_lit(
        &a,
        "end",
    ) || eq_lit(&a, "hold") || eq_lit(&a, "resume") || eq_lit(&a, "unhold") {
        true
    } else if starts_with_exec(&a, &chars_of("transfer/")) {
        tail_decodable(action, 9)
    } else if starts_with_exec(&a, &chars_of("dtmf/")) {
        tail_decodable(action, 5)
    } else if eq_lit(&a, "answer") || eq_lit(&a, "show") || eq_lit(&a, "focus") || a.len() == 0
        || eq_lit(&a, "quit") {
        true
    } else if starts_with_exec(&a, &chars_of("call/")) || starts_with_exec(&a, &chars_of("dial/")) {
        tail_decodable(action, 5)
    } else if action.len() == 0 {
        decodable_chars(query)
    } else {
        decodable_chars(action)
    }
}

/// Whether [`Command::from_uri`] can parse `uri`: whether every text it
/// percent-decodes slices only on character boundaries.
pub fn is_uri_decodable(uri: &str) -> (b: bool)
    ensures
        b == uri_decodable(uri@),
{
    let all = chars_of(uri);
    let u = trim_chars(&all);
    let colon = match find_char_from(&u, ':', 0) {
        Some(i) => i,
        None => {
            proof {
                lemma_first_colon_none(u@, 0);
            }
            return true;
        },
    };
    proof {
        lemma_first_colon_some(u@, 0, colon as int);
    }
    let scheme_raw = slice_chars(&u, 0, colon);
    let scheme = lower_vec(&scheme_raw);
    let rest = slice_chars(&u, colon + 1, u.len());
    assert(scheme_raw@ == u@.take(colon as int));
    assert(rest@ == u@.skip(colon + 1));
    assert(uri_parts(uri@) == Some((scheme@, rest@)));
    let is_sipster = eq_lit(&scheme, "sipster");
    if !(eq_lit(&scheme, "tel") || eq_lit(&scheme, "sip") || eq_lit(&scheme, "sips") || eq_lit(
        &scheme,
        "callto",
    ) || is_sipster) {
        return true;
    }
    if is_sipster {
        let path = strip_leading_exec(&rest, '/');
        let (action, query): (Vec<char>, Vec<char>) = match query_start_exec(&path, 0) {
            Some(k) => (slice_chars(&path, 0, k), slice_chars(&path, k + 1, path.len())),
            None => {
                let empty: Vec<char> = Vec::new();
                assert(empty@ =~= Seq::<char>::empty());
                (slice_chars(&path, 0, path.len()), empty)
            },
        };
        assert(action@ == sipster_split(rest@).0 && query@ == sipster_split(rest@).1) by {
            assert(path@.subrange(0, path@.len() as int) == path@);
        }
        return sipster_decodable(&action, &query);
    }
    let r = strip_double_slashes_exec(&rest);
    let target_raw = match query_start_exec(&r, 0) {
        Some(k) => slice_chars(&r, 0, k),
        None => slice_chars(&r, 0, r.len()),
    };
    assert(r@.subrange(0, r@.len() as int) == r@);
    assert(target_raw@ == plain_target(rest@));
    decodable_chars(&target_raw)
}

impl Command {
    /// [`Command::from_args`] where it can parse the arguments: `None` when
    /// an argument it would read cannot be percent-decoded.
    pub fn checked_from_args(args: &[&str]) -> (r: Option<Option<Command>>)
        ensures
            r is Some <==> args_decodable(str_views(args@), 0),
            r matches Some(c) ==> opt_command_view(c) == args_command(str_views(args@), 0),
    {
        let ghost av = str_views(args@);
        let mut i: usize = 0;
        while i < args.len()
            invariant
                av == str_views(args@),
                args_decodable(av, 0) == args_decodable(av, i as int),
                args_command(av, 0) == args_command(av, i as int),
            decreases args.len() - i,
        {
            assert(av[i as int] == args@[i as int]@);
            if !is_uri_decodable(args[i]) {
                return None;
            }
            if let Some(c) = Command::from_uri(args[i]) {
                return Some(Some(c));
            }
            i = i + 1;
        }
        Some(None)
    }
}

/// The command of the first argument from `i` on that is one.
pub open spec fn args_command(args: Seq<Seq<char>>, i: int) -> Option<CommandView>
    decreases args.len() - i,
{
    if i < 0 || i >= args.len() {
        None
    } else if uri_command(args[i]) is Some {
        uri_command(args[i])
    } else {
        args_command(args, i + 1)
    }
}

/// Whether every argument that gets parsed is decodable: each from `i` on,
/// up to and including the first that is a command.
pub open spec fn args_decodable(args: Seq<Seq<char>>, i: int) -> bool
    decreases args.len() - i,
{
    if i < 0 || i >= args.len() {
        true
    } else {
        uri_decodable(args[i]) && (uri_command(args[i]) is None ==> args_decodable(args, i + 1))
    }
}

pub proof fn lemma_first_colon_none(s: Seq<char>, from: int)
    requires
        0 <= from,
        forall|j: int| from <= j < s.len() ==> s[j] != ':',
    ensures
        first_colon(s, from) is None,
    decreases s.len() - from,
{
    if from < s.len() {
        lemma_first_colon_none(s, from + 1);
    }
}

pub proof fn lemma_first_colon_some(s: Seq<char>, from: int, i: int)
    requires
        0 <= from <= i < s.len(),
        s[i] == ':',
        forall|j: int| from <= j < i ==> s[j] != ':',
    ensures
        first_colon(s, from) == Some(i),
    decreases i - from,
{
    if from < i {
        lemma_first_colon_some(s, from + 1, i);
    }
}

/// An argument without a `:` is no URI, so it is never a command: the
/// flags that used to carry actions (`--call 611`), and `--config-file`
/// with its path, all read as "no command".
pub proof fn law_arguments_without_a_colon_are_no_command(args: Seq<Seq<char>>, i: int)
    requires
        0 <= i,
        forall|k: int, j: int| 0 <= k < args.len() && 0 <= j < args[k].len() ==> args[k][j] != ':',
    ensures
        args_command(args, i) is None,
    decreases args.len() - i,
{
    if i < args.len() {
        let a = args[i];
        assert forall|j: int| 0 <= j < a.len() implies a[j] != ':' by {
            assert(args[i][j] != ':');
        }
        crate::text::lemma_trim_keeps_chars(a, ':');
        lemma_first_colon_none(trim(a), 0);
        assert(uri_parts(a) is None);
        law_arguments_without_a_colon_are_no_command(args, i + 1);
    }
}

/// Parsing arguments finds the first one that is a command, as
/// `find_map(Command::from_uri)` does: the command of the first argument
/// that parses as one, and nothing when none does.
pub proof fn law_from_args_finds_the_first_command(args: Seq<Seq<char>>, from: int)
    requires
        0 <= from,
    ensures
        args_command(args, from) is None <==> forall|i: int|
            from <= i < args.len() ==> #[trigger] uri_command(args[i]) is None,
        args_command(args, from) matches Some(c) ==> exists|i: int|
            from <= i < args.len() && uri_command(args[i]) == Some(c) && forall|j: int|
                from <= j < i ==> #[trigger] uri_command(args[j]) is None,
    decreases args.len() - from,
{
    if from < args.len() {
        law_from_args_finds_the_first_command(args, from + 1);
        if uri_command(args[from]) is None {
            if args_command(args, from) is Some {
                let c = args_command(args, from)->0;
                let i = choose|i: int|
                    from + 1 <= i < args.len() && uri_command(args[i]) == Some(c) && forall|j: int|
                        from + 1 <= j < i ==> #[trigger] uri_command(args[j]) is None;
                assert(forall|j: int| from <= j < i ==> #[trigger] uri_command(args[j]) is None);
            }
        } else {
            assert(uri_command(args[from]) is Some);
        }
    }
}

/// The characters a dial string keeps: digits, `+`, `*` and `#`.
pub open spec fn is_dial_char(c: char) -> bool {
    ('0' <= c <= '9') || c == '+' || c == '*' || c == '#'
}

/// A `tel:` target keeps every dial character and nothing else: each digit,
/// `+`, `*` and `#` occurs in the target as often as in the text it came
/// from, and no other character is left.
pub proof fn law_tel_targets_keep_every_dial_character(s: Seq<char>)
    ensures
        forall|i: int| 0 <= i < tel_digits(s).len() ==> is_dial_char(#[trigger] tel_digits(s)[i]),
        forall|c: char| is_dial_char(c) ==> #[trigger] count_char(tel_digits(s), c) == count_char(s, c),
    decreases s.len(),
{
    if s.len() > 0 {
        let p = s.drop_last();
        law_tel_targets_keep_every_dial_character(p);
        let r = tel_digits(p);
        let x = s.last();
        if is_dial_char(x) {
            assert(tel_digits(s) == r.push(x));
            assert(r.push(x).drop_last() == r);
            assert forall|i: int| 0 <= i < r.push(x).len() implies is_dial_char(
                #[trigger] r.push(x)[i],
            ) by {
                if i < r.len() {
                    assert(r.push(x)[i] == r[i]);
                }
            }
        } else {
            assert(tel_digits(s) == r);
        }
        assert forall|c: char| is_dial_char(c) implies #[trigger] count_char(tel_digits(s), c)
            == count_char(s, c) by {
            assert(count_char(s, c) == count_char(p, c) + if x == c {
                1nat
            } else {
                0nat
            });
            if is_dial_char(x) {
                assert(count_char(r.push(x), c) == count_char(r, c) + if x == c {
                    1nat
                } else {
                    0nat
                });
            }
        }
    }
}

/// For a `tel:` or `callto:` URI, the number to dial keeps every digit,
/// `+`, `*` and `#` of the decoded target and drops everything else.
pub proof fn law_tel_uris_dial_every_dial_character(
    uri: Seq<char>,
    scheme: Seq<char>,
    rest: Seq<char>,
    target: Seq<char>,
)
    requires
        uri_parts(uri) == Some((scheme, rest)),
        scheme == "tel"@ || scheme == "callto"@,
        uri_command(uri) == Some(CommandView::Dial(target)),
    ensures
        ({
            let decoded = percent_decoded(plain_target(rest));
            &&& forall|i: int| 0 <= i < target.len() ==> is_dial_char(#[trigger] target[i])
            &&& forall|c: char| is_dial_char(c) ==> #[trigger] count_char(target, c) == count_char(decoded, c)
        }),
{
    let parts = (scheme, rest);
    reveal_strlit("tel");
    reveal_strlit("callto");
    reveal_strlit("sip");
    reveal_strlit("sips");
    reveal_strlit("sipster");
    assert(parts.0 != "sipster"@ && parts.0 != "sip"@ && parts.0 != "sips"@) by {
        if parts.0 == "tel"@ {
            assert("tel"@.len() != "sipster"@.len());
            assert("tel"@[0] != "sip"@[0]);
            assert("tel"@.len() != "sips"@.len());
        } else {
            assert("callto"@.len() != "sipster"@.len());
            assert("callto"@[0] != "sip"@[0]);
            assert("callto"@.len() != "sips"@.len());
        }
    }
    law_tel_targets_keep_every_dial_character(percent_decoded(plain_target(parts.1)));
}

} // verus!
