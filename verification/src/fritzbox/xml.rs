//! Reading the XML a FRITZ!Box returns, and writing the XML it expects.
//!
//! Hand-rolled rather than a parser dependency: the shapes are small and
//! fixed.
use vstd::prelude::*;

use crate::model::{CallRecord, CallType, Contact, NumberType, NumberTypeView, PhoneNumber, RecordSource};

use crate::call::{is_v4_uuid, random_uuid_bits, uuid_string, uuid_text};
use crate::text::{
    contains, contains_exec, dec, push_dec,
    find, find_exec, find_from, find_from_exec, lemma_find_from_bounds, trim, trim_chars,
    append, append_str, chars_of, lemma_next_char_facts, next_char, next_char_exec, parse_hex_u32, parse_hex_u32_exec, parse_u32,
    parse_u32_exec, slice_chars, string_of,
};

verus! {

broadcast use vstd::string::group_string_axioms;

// ─────────────────────────────── escaping ───────────────────────────────

/// What one character becomes in XML text: the five predefined entities
/// for `& < > " '`, the character itself otherwise.
pub open spec fn escape_char(c: char) -> Seq<char> {
    if c == '&' {
        "&amp;"@
    } else if c == '<' {
        "&lt;"@
    } else if c == '>' {
        "&gt;"@
    } else if c == '"' {
        "&quot;"@
    } else if c == '\'' {
        "&apos;"@
    } else {
        seq![c]
    }
}

/// `s` with each character escaped.
pub open spec fn escaped(s: Seq<char>) -> Seq<char>
    decreases s.len(),
{
    if s.len() == 0 {
        Seq::empty()
    } else {
        escaped(s.drop_last()) + escape_char(s.last())
    }
}

/// Escapes the five XML predefined entities.
pub fn escape_xml(raw: &str) -> (out: String)
    ensures
        out@ == escaped(raw@),
{
    let s = chars_of(raw);
    let mut out: Vec<char> = Vec::new();
    let mut i: usize = 0;
    while i < s.len()
        invariant
            i <= s.len(),
            out@ == escaped(s@.take(i as int)),
        decreases s.len() - i,
    {
        assert(s@.take(i + 1).drop_last() == s@.take(i as int));
        let c = s[i];
        if c == '&' {
            append_str(&mut out, "&amp;");
        } else if c == '<' {
            append_str(&mut out, "&lt;");
        } else if c == '>' {
            append_str(&mut out, "&gt;");
        } else if c == '"' {
            append_str(&mut out, "&quot;");
        } else if c == '\'' {
            append_str(&mut out, "&apos;");
        } else {
            out.push(c);
        }
        i = i + 1;
    }
    assert(s@.take(s.len() as int) == s@);
    string_of(&out)
}

// ────────────────────────────── unescaping ──────────────────────────────

/// How many bytes UTF-8 spends on `c`.
pub open spec fn char_utf8_len(c: char) -> nat {
    let u = c as u32;
    if u < 0x80 {
        1
    } else if u < 0x800 {
        2
    } else if u < 0x10000 {
        3
    } else {
        4
    }
}

/// How many bytes UTF-8 spends on `s`.
pub open spec fn utf8_len(s: Seq<char>) -> nat
    decreases s.len(),
{
    if s.len() == 0 {
        0
    } else {
        utf8_len(s.drop_last()) + char_utf8_len(s.last())
    }
}

/// Whether `code` is a Unicode scalar value, which `char::from_u32` accepts.
pub open spec fn is_scalar(code: u32) -> bool {
    code <= 0x10FFFF && !(0xD800 <= code <= 0xDFFF)
}

/// `char::from_u32`: the character with this code, if it is a Unicode
/// scalar value (not a surrogate, not above U+10FFFF), as its documentation
/// states.
#[verifier::external_body]
fn char_from_u32(code: u32) -> (r: Option<char>)
    ensures
        r == (if is_scalar(code) {
            Some(code as char)
        } else {
            None
        }),
{
    char::from_u32(code)
}

/// The character a numeric reference (`#252`, `#xFC`, without `&` and `;`)
/// names.
pub open spec fn numeric_entity(entity: Seq<char>) -> Option<char> {
    if entity.len() == 0 || entity[0] != '#' {
        None
    } else {
        let digits = entity.drop_first();
        let code = if digits.len() > 0 && digits[0] == 'x' {
            parse_hex_u32(digits.drop_first())
        } else {
            parse_u32(digits)
        };
        match code {
            Some(c) => if is_scalar(c) {
                Some(c as char)
            } else {
                None
            },
            None => None,
        }
    }
}

/// Decodes a numeric character reference.
pub fn decode_numeric_entity(entity: &str) -> (r: Option<char>)
    ensures
        r == numeric_entity(entity@),
{
    let e = chars_of(entity);
    numeric_entity_chars(&e)
}

fn numeric_entity_chars(e: &[char]) -> (r: Option<char>)
    ensures
        r == numeric_entity(e@),
{
    if e.len() == 0 || e[0] != '#' {
        return None;
    }
    let digits = slice_chars(e, 1, e.len());
    assert(digits@ == e@.drop_first());
    let code = if digits.len() > 0 && digits[0] == 'x' {
        let hex = slice_chars(&digits, 1, digits.len());
        assert(hex@ == digits@.drop_first());
        parse_hex_u32_exec(&hex)
    } else {
        parse_u32_exec(&digits)
    };
    match code {
        Some(c) => char_from_u32(c),
        None => None,
    }
}

/// The character a named or numeric entity stands for.
pub open spec fn entity_char(e: Seq<char>) -> Option<char> {
    if e == "amp"@ {
        Some('&')
    } else if e == "lt"@ {
        Some('<')
    } else if e == "gt"@ {
        Some('>')
    } else if e == "quot"@ {
        Some('"')
    } else if e == "apos"@ {
        Some('\'')
    } else if e.len() > 0 && e[0] == '#' {
        numeric_entity(e)
    } else {
        None
    }
}

/// What an `&` at the start of `after` decodes to, and how many characters
/// that consumes. An `&` whose `;` is missing or more than ten bytes on is a
/// bare ampersand; an entity that names nothing known is kept as written.
pub open spec fn entity_step(after: Seq<char>) -> (Seq<char>, int) {
    match next_char(after, ';', 0) {
        Some(semi) => if 0 < semi < after.len() && utf8_len(after.take(semi)) <= 10 {
            match entity_char(after.subrange(1, semi)) {
                Some(c) => (seq![c], semi + 1),
                None => (after.take(semi + 1), semi + 1),
            }
        } else {
            (seq!['&'], 1)
        },
        None => (seq!['&'], 1),
    }
}

/// `s` with its entities decoded.
pub open spec fn unescaped(s: Seq<char>) -> Seq<char>
    decreases s.len(),
{
    match next_char(s, '&', 0) {
        None => s,
        Some(a) => if 0 <= a < s.len() {
            let after = s.skip(a);
            let step = entity_step(after);
            if 1 <= step.1 <= after.len() {
                s.take(a) + step.0 + unescaped(after.skip(step.1))
            } else {
                s
            }
        } else {
            s
        },
    }
}

fn eq_lit(s: &[char], lit: &str) -> (b: bool)
    ensures
        b == (s@ == lit@),
{
    crate::text::eq_chars(s, &chars_of(lit))
}

fn entity_char_exec(e: &[char]) -> (r: Option<char>)
    ensures
        r == entity_char(e@),
{
    if eq_lit(e, "amp") {
        Some('&')
    } else if eq_lit(e, "lt") {
        Some('<')
    } else if eq_lit(e, "gt") {
        Some('>')
    } else if eq_lit(e, "quot") {
        Some('"')
    } else if eq_lit(e, "apos") {
        Some('\'')
    } else if e.len() > 0 && e[0] == '#' {
        numeric_entity_chars(e)
    } else {
        None
    }
}

fn char_utf8_len_exec(c: char) -> (n: usize)
    ensures
        n == char_utf8_len(c),
{
    let u = c as u32;
    if u < 0x80 {
        1
    } else if u < 0x800 {
        2
    } else if u < 0x10000 {
        3
    } else {
        4
    }
}

/// Whether `s[a..b]` takes at most ten bytes of UTF-8.
fn fits_ten_bytes(s: &[char], a: usize, b: usize) -> (r: bool)
    requires
        a <= b <= s.len(),
    ensures
        r == (utf8_len(s@.subrange(a as int, b as int)) <= 10),
{
    let mut n: usize = 0;
    let mut i = a;
    while i < b
        invariant
            a <= i <= b <= s.len(),
            n == utf8_len(s@.subrange(a as int, i as int)),
            n <= 10,
        decreases b - i,
    {
        assert(s@.subrange(a as int, i + 1).drop_last() == s@.subrange(a as int, i as int));
        n = n + char_utf8_len_exec(s[i]);
        i = i + 1;
        if n > 10 {
            proof {
                lemma_utf8_len_prefix_mono(s@.subrange(a as int, b as int), (i - a) as int);
                assert(s@.subrange(a as int, b as int).take(i - a) == s@.subrange(
                    a as int,
                    i as int,
                ));
            }
            return false;
        }
    }
    true
}

pub proof fn lemma_utf8_len_prefix_mono(s: Seq<char>, k: int)
    requires
        0 <= k <= s.len(),
    ensures
        utf8_len(s.take(k)) <= utf8_len(s),
    decreases s.len() - k,
{
    if k < s.len() {
        lemma_utf8_len_prefix_mono(s, k + 1);
        assert(s.take(k + 1).drop_last() == s.take(k));
    } else {
        assert(s.take(k) == s);
    }
}

/// `next_char` on a suffix is `next_char` on the whole, shifted.
pub proof fn lemma_next_char_skip(s: Seq<char>, c: char, k: int, from: int)
    requires
        0 <= k <= s.len(),
        0 <= from,
    ensures
        next_char(s.skip(k), c, from) == match next_char(s, c, k + from) {
            Some(i) => Some(i - k),
            None => None,
        },
    decreases s.len() - k - from,
{
    if k + from < s.len() {
        lemma_next_char_skip(s, c, k, from + 1);
    }
}

/// Decodes the five predefined entities plus numeric references.
pub fn unescape_xml(raw: &str) -> (out: String)
    ensures
        out@ == unescaped(raw@),
{
    let s = chars_of(raw);
    let out = unescape_chars(&s);
    string_of(&out)
}

/// Decodes the entity whose `&` stands at `s[a]`: what it appends and
/// where reading goes on.
fn entity_step_exec(s: &[char], a: usize, out: &mut Vec<char>) -> (next: usize)
    requires
        a < s.len(),
        s@[a as int] == '&',
    ensures
        a < next <= s.len(),
        next - a == entity_step(s@.skip(a as int)).1,
        final(out)@ == old(out)@ + entity_step(s@.skip(a as int)).0,
{
    let ghost after = s@.skip(a as int);
    proof {
        lemma_next_char_skip(s@, ';', a as int, 0);
        lemma_next_char_facts(s@, ';', a as int);
    }
    match next_char_exec(s, ';', a) {
        Some(semi) => {
            let ghost rs = (semi - a) as int;
            assert(semi > a);
            assert(after.take(rs) == s@.subrange(a as int, semi as int));
            if fits_ten_bytes(s, a, semi) {
                assert(after.subrange(1, rs) == s@.subrange(a + 1, semi as int));
                let entity = slice_chars(s, a + 1, semi);
                match entity_char_exec(&entity) {
                    Some(c) => {
                        out.push(c);
                    },
                    None => {
                        let whole = slice_chars(s, a, semi + 1);
                        assert(whole@ == after.take(rs + 1));
                        append(out, &whole);
                    },
                }
                semi + 1
            } else {
                out.push('&');
                a + 1
            }
        },
        None => {
            out.push('&');
            a + 1
        },
    }
}

fn unescape_chars(s: &[char]) -> (out: Vec<char>)
    ensures
        out@ == unescaped(s@),
{
    let mut out: Vec<char> = Vec::new();
    let mut r: usize = 0;
    assert(s@.skip(0) == s@);
    while r <= s.len()
        invariant
            r <= s.len(),
            unescaped(s@) == out@ + unescaped(s@.skip(r as int)),
        decreases s.len() - r,
    {
        let ghost rest = s@.skip(r as int);
        proof {
            lemma_next_char_skip(s@, '&', r as int, 0);
            lemma_next_char_facts(s@, '&', r as int);
        }
        let a = match next_char_exec(s, '&', r) {
            Some(a) => a,
            None => {
                let tail = slice_chars(s, r, s.len());
                append(&mut out, &tail);
                assert(tail@ == rest);
                return out;
            },
        };
        let ghost ra = (a - r) as int;
        assert(rest.skip(ra) == s@.skip(a as int));
        assert(rest.take(ra) == s@.subrange(r as int, a as int));
        let head = slice_chars(s, r, a);
        let ghost before = out@;
        append(&mut out, &head);
        let next = entity_step_exec(s, a, &mut out);
        let ghost step = entity_step(s@.skip(a as int));
        assert(s@.skip(a as int).skip(step.1) == s@.skip(next as int));
        assert(unescaped(rest) == rest.take(ra) + step.0 + unescaped(s@.skip(next as int)));
        r = next;
    }
    out
}

// ─────────────────────────────── elements ───────────────────────────────

/// The text of the first `<tag>…</tag>` element, trimmed and decoded.
pub open spec fn tag_value(h: Seq<char>, tag: Seq<char>) -> Option<Seq<char>> {
    let open = "<"@ + tag + ">"@;
    let close = "</"@ + tag + ">"@;
    match find(h, open) {
        None => None,
        Some(st) => match find_from(h, close, st + open.len()) {
            None => None,
            Some(en) => Some(unescaped(trim(h.subrange(st + open.len(), en)))),
        },
    }
}

/// The text of the first `<tag>…</tag>` element, trimmed and decoded.
pub fn extract_xml_tag(haystack: &str, tag: &str) -> (r: Option<String>)
    ensures
        match r {
            Some(v) => tag_value(haystack@, tag@) == Some(v@),
            None => tag_value(haystack@, tag@) is None,
        },
{
    let h = chars_of(haystack);
    match tag_chars(&h, tag) {
        Some(v) => Some(string_of(&v)),
        None => None,
    }
}

fn tag_chars(h: &[char], tag: &str) -> (r: Option<Vec<char>>)
    ensures
        match r {
            Some(v) => tag_value(h@, tag@) == Some(v@),
            None => tag_value(h@, tag@) is None,
        },
{
    let mut open: Vec<char> = Vec::new();
    append_str(&mut open, "<");
    append_str(&mut open, tag);
    append_str(&mut open, ">");
    let mut close: Vec<char> = Vec::new();
    append_str(&mut close, "</");
    append_str(&mut close, tag);
    append_str(&mut close, ">");
    let st = match find_exec(h, &open) {
        Some(i) => i,
        None => {
            return None;
        },
    };
    proof {
        lemma_find_from_bounds(h@, open@, 0);
        assert(find(h@, open@) == find_from(h@, open@, 0));
        assert(find_from(h@, open@, 0) == Some(st as int));
        assert(st + open@.len() <= h@.len());
        assert(open@.len() == open.len() && h@.len() == h.len());
    }
    let from = st + open.len();
    let en = match find_from_exec(h, &close, from) {
        Some(i) => i,
        None => {
            return None;
        },
    };
    proof {
        lemma_find_from_bounds(h@, close@, from as int);
    }
    let inner = trim_chars(&slice_chars(h, from, en));
    Some(unescape_chars(&inner))
}

/// The element's text, or nothing when it is missing.
pub open spec fn tag_or_empty(h: Seq<char>, tag: Seq<char>) -> Seq<char> {
    match tag_value(h, tag) {
        Some(v) => v,
        None => Seq::empty(),
    }
}

fn tag_or_empty_exec(h: &[char], tag: &str) -> (v: Vec<char>)
    ensures
        v@ == tag_or_empty(h@, tag@),
{
    match tag_chars(h, tag) {
        Some(v) => v,
        None => Vec::new(),
    }
}

// ─────────────────────────────── durations ───────────────────────────────

/// `str::split(c)`: the pieces between the `c`s, at least one.
pub open spec fn split_on(s: Seq<char>, c: char) -> Seq<Seq<char>>
    decreases s.len(),
{
    match next_char(s, c, 0) {
        None => seq![s],
        Some(i) => if 0 <= i < s.len() {
            seq![s.take(i)] + split_on(s.skip(i + 1), c)
        } else {
            seq![s]
        },
    }
}

pub fn split_on_chars(s: &[char], c: char) -> (parts: Vec<Vec<char>>)
    ensures
        parts@.map_values(|p: Vec<char>| p@) == split_on(s@, c),
{
    let mut parts: Vec<Vec<char>> = Vec::new();
    let mut r: usize = 0;
    assert(s@.skip(0) == s@);
    loop
        invariant
            r <= s.len(),
            split_on(s@, c) == parts@.map_values(|p: Vec<char>| p@) + split_on(s@.skip(r as int), c),
        decreases s.len() - r,
    {
        let ghost rest = s@.skip(r as int);
        let ghost before = parts@.map_values(|p: Vec<char>| p@);
        proof {
            lemma_next_char_skip(s@, c, r as int, 0);
            lemma_next_char_facts(s@, c, r as int);
        }
        match next_char_exec(s, c, r) {
            None => {
                let piece = slice_chars(s, r, s.len());
                parts.push(piece);
                assert(piece@ == rest);
                assert(parts@.map_values(|p: Vec<char>| p@) =~= before + seq![rest]);
                return parts;
            },
            Some(i) => {
                let piece = slice_chars(s, r, i);
                parts.push(piece);
                assert(piece@ == rest.take(i - r));
                assert(rest.skip(i - r + 1) == s@.skip(i + 1));
                assert(parts@.map_values(|p: Vec<char>| p@) =~= before.push(piece@));
                assert(before + split_on(rest, c) =~= before.push(piece@) + split_on(
                    s@.skip(i + 1),
                    c,
                ));
                r = i + 1;
            },
        }
    }
}

/// A field of a duration: its number, or 0 when it is not one.
pub open spec fn duration_field(s: Seq<char>) -> int {
    match parse_u32(s) {
        Some(v) => v as int,
        None => 0,
    }
}

/// The seconds a `m:s` or `h:m:s` duration names; anything else is 0.
pub open spec fn duration_value(s: Seq<char>) -> int {
    let parts = split_on(s, ':');
    if parts.len() == 2 {
        duration_field(parts[0]) * 60 + duration_field(parts[1])
    } else if parts.len() == 3 {
        duration_field(parts[0]) * 3600 + duration_field(parts[1]) * 60 + duration_field(parts[2])
    } else {
        0
    }
}

fn duration_field_exec(s: &[char]) -> (v: u32)
    ensures
        v == duration_field(s@),
{
    match parse_u32_exec(s) {
        Some(v) => v,
        None => 0,
    }
}

/// The seconds a duration gives in 32 bits: its value, capped at
/// `u32::MAX` rather than overflowing on malformed router data.
pub open spec fn duration_seconds(s: Seq<char>) -> u32 {
    if duration_value(s) <= u32::MAX {
        duration_value(s) as u32
    } else {
        u32::MAX
    }
}

/// Parses a `m:s` or `h:m:s` duration into seconds; anything else is 0. A
/// total beyond 32 bits is capped at `u32::MAX`.
pub fn parse_duration_seconds(duration_str: &str) -> (secs: u32)
    ensures
        secs == duration_seconds(duration_str@),
{
    let s = chars_of(duration_str);
    duration_chars(&s)
}

fn duration_chars(s: &[char]) -> (secs: u32)
    ensures
        secs == duration_seconds(s@),
{
    let parts = split_on_chars(s, ':');
    let ghost pv = parts@.map_values(|p: Vec<char>| p@);
    let total: u64 = if parts.len() == 2 {
        assert(pv[0] == parts@[0]@ && pv[1] == parts@[1]@);
        let m = duration_field_exec(&parts[0]) as u64;
        let sec = duration_field_exec(&parts[1]) as u64;
        m * 60 + sec
    } else if parts.len() == 3 {
        assert(pv[0] == parts@[0]@ && pv[1] == parts@[1]@ && pv[2] == parts@[2]@);
        let h = duration_field_exec(&parts[0]) as u64;
        let m = duration_field_exec(&parts[1]) as u64;
        let sec = duration_field_exec(&parts[2]) as u64;
        h * 3600 + m * 60 + sec
    } else {
        0
    };
    if total > 0xFFFF_FFFF {
        u32::MAX
    } else {
        total as u32
    }
}

// ──────────────────────────────── records ────────────────────────────────

/// The contents of each `open … close` element from `from` on: each runs
/// from an `open` to the first `close` after it.
pub open spec fn chunks_from(s: Seq<char>, open: Seq<char>, close: Seq<char>, from: int) -> Seq<
    Seq<char>,
>
    decreases s.len() - from,
{
    if from < 0 || from > s.len() {
        Seq::empty()
    } else {
        match find_from(s, open, from) {
            None => Seq::empty(),
            Some(st) => match find_from(s, close, st) {
                None => Seq::empty(),
                Some(en) => if from <= st && st + open.len() <= en && en + close.len() <= s.len()
                    && close.len() > 0 {
                    seq![s.subrange(st + open.len(), en)] + chunks_from(
                        s,
                        open,
                        close,
                        en + close.len(),
                    )
                } else {
                    Seq::empty()
                },
            },
        }
    }
}

fn chunks_exec(s: &[char], open: &[char], close: &[char]) -> (out: Vec<Vec<char>>)
    ensures
        out@.map_values(|c: Vec<char>| c@) == chunks_from(s@, open@, close@, 0),
{
    let mut out: Vec<Vec<char>> = Vec::new();
    let mut rest: usize = 0;
    loop
        invariant
            rest <= s.len(),
            chunks_from(s@, open@, close@, 0) == out@.map_values(|c: Vec<char>| c@) + chunks_from(
                s@,
                open@,
                close@,
                rest as int,
            ),
        decreases s.len() - rest,
    {
        let ghost before = out@.map_values(|c: Vec<char>| c@);
        let st = match find_from_exec(s, open, rest) {
            Some(i) => i,
            None => {
                assert(before + Seq::<Seq<char>>::empty() == before);
                return out;
            },
        };
        proof {
            lemma_find_from_bounds(s@, open@, rest as int);
        }
        let en = match find_from_exec(s, close, st) {
            Some(i) => i,
            None => {
                assert(before + Seq::<Seq<char>>::empty() == before);
                return out;
            },
        };
        proof {
            lemma_find_from_bounds(s@, close@, st as int);
        }
        if !(st + open.len() <= en && close.len() > 0) {
            assert(before + Seq::<Seq<char>>::empty() == before);
            return out;
        }
        let chunk = slice_chars(s, st + open.len(), en);
        out.push(chunk);
        assert(out@.map_values(|c: Vec<char>| c@) =~= before.push(chunk@));
        assert(before + chunks_from(s@, open@, close@, rest as int) =~= before.push(chunk@)
            + chunks_from(s@, open@, close@, en + close.len()));
        rest = en + close.len();
    }
}

/// The `<Call>` elements of a call list.
pub open spec fn call_chunks(xml: Seq<char>) -> Seq<Seq<char>> {
    chunks_from(xml, "<Call>"@, "</Call>"@, 0)
}

/// An element's text, unless it is missing or blank.
pub open spec fn nonblank_tag(h: Seq<char>, tag: Seq<char>) -> Option<Seq<char>> {
    match tag_value(h, tag) {
        Some(v) => if trim(v).len() > 0 {
            Some(v)
        } else {
            None
        },
        None => None,
    }
}

fn nonblank_tag_exec(h: &[char], tag: &str) -> (r: Option<String>)
    ensures
        opt_string_view(r) == nonblank_tag(h@, tag@),
{
    match tag_chars(h, tag) {
        Some(v) => {
            if trim_chars(&v).len() > 0 {
                Some(string_of(&v))
            } else {
                None
            }
        },
        None => None,
    }
}

pub open spec fn opt_string_view(o: Option<String>) -> Option<Seq<char>> {
    match o {
        Some(s) => Some(s@),
        None => None,
    }
}

/// The call type a call list's `Type` code stands for.
pub open spec fn call_type_of(code: Seq<char>) -> CallType {
    if code == "2"@ {
        CallType::Missed
    } else if code == "3"@ {
        CallType::Outgoing
    } else if code == "10"@ {
        CallType::Rejected
    } else {
        CallType::Incoming
    }
}

/// Whether `r` is the record a `<Call>` element describes: its id after
/// `fritzbox-call-`, the far party (the called number for an outgoing call,
/// the caller otherwise), the name and device when they are not blank, the
/// local party as the device or else our own number, and the duration in
/// seconds, capped at `u32::MAX`.
pub open spec fn is_call_record(r: CallRecord, chunk: Seq<char>) -> bool {
    let call_type = call_type_of(tag_or_empty(chunk, "Type"@));
    let caller = tag_or_empty(chunk, "Caller"@);
    let called = tag_or_empty(chunk, "Called"@);
    let (remote, local) = if call_type == CallType::Outgoing {
        (called, caller)
    } else {
        (caller, called)
    };
    &&& r.id@ == "fritzbox-call-"@ + tag_or_empty(chunk, "Id"@)
    &&& r.call_type == call_type
    &&& r.remote_number@ == remote
    &&& opt_string_view(r.remote_name) == nonblank_tag(chunk, "Name"@)
    &&& opt_string_view(r.local_party) == match nonblank_tag(chunk, "Device"@) {
        Some(d) => Some(d),
        None => Some(local),
    }
    &&& r.timestamp@ == tag_or_empty(chunk, "Date"@)
    &&& r.duration_seconds == duration_seconds(tag_or_empty(chunk, "Duration"@))
    &&& r.source matches RecordSource::FritzBox { phonebook_id, phonebook_name }
    &&& phonebook_id == 0 && phonebook_name@ == "Router Call Log"@
}

/// Whose number a call record shows: the far party is the `<Caller>` of
/// every call but one we placed (`Type` 3), where it is the `<Called>`; our
/// own side is then the other of the two, unless the router names the
/// device. A missed call (`Type` 2) is the caller's, a rejected one (`Type`
/// 10) too, and anything else is an incoming call.
pub proof fn law_the_far_party_is_the_caller_unless_we_called(r: CallRecord, chunk: Seq<char>)
    requires
        is_call_record(r, chunk),
    ensures
        tag_or_empty(chunk, "Type"@) != "3"@ ==> r.remote_number@ == tag_or_empty(chunk, "Caller"@)
            && r.call_type != CallType::Outgoing,
        tag_or_empty(chunk, "Type"@) == "3"@ ==> r.remote_number@ == tag_or_empty(chunk, "Called"@)
            && r.call_type == CallType::Outgoing,
        tag_or_empty(chunk, "Type"@) == "2"@ ==> r.call_type == CallType::Missed,
        tag_or_empty(chunk, "Type"@) == "10"@ ==> r.call_type == CallType::Rejected,
        nonblank_tag(chunk, "Device"@) is None ==> opt_string_view(r.local_party) == Some(
            if tag_or_empty(chunk, "Type"@) == "3"@ {
                tag_or_empty(chunk, "Caller"@)
            } else {
                tag_or_empty(chunk, "Called"@)
            },
        ),
{
    reveal_strlit("2");
    reveal_strlit("3");
    reveal_strlit("10");
    assert("2"@ != "3"@ && "10"@ != "3"@ && "2"@ != "10"@) by {
        assert("2"@[0] != "3"@[0]);
        assert("10"@.len() != "3"@.len());
        assert("10"@.len() != "2"@.len());
    }
}

fn call_record(chunk: &[char]) -> (r: CallRecord)
    ensures
        is_call_record(r, chunk@),
{
    let id = tag_or_empty_exec(chunk, "Id");
    let type_code = tag_or_empty_exec(chunk, "Type");
    let caller = tag_or_empty_exec(chunk, "Caller");
    let called = tag_or_empty_exec(chunk, "Called");
    let name = nonblank_tag_exec(chunk, "Name");
    let date = tag_or_empty_exec(chunk, "Date");
    let duration = tag_or_empty_exec(chunk, "Duration");
    let device = nonblank_tag_exec(chunk, "Device");
    let (call_type, remote, local) = if eq_lit(&type_code, "2") {
        (CallType::Missed, caller, called)
    } else if eq_lit(&type_code, "3") {
        (CallType::Outgoing, called, caller)
    } else if eq_lit(&type_code, "10") {
        (CallType::Rejected, caller, called)
    } else {
        (CallType::Incoming, caller, called)
    };
    let duration_seconds = duration_chars(&duration);
    let mut full_id: Vec<char> = Vec::new();
    append_str(&mut full_id, "fritzbox-call-");
    append(&mut full_id, &id);
    let local_party = match device {
        Some(d) => Some(d),
        None => Some(string_of(&local)),
    };
    CallRecord {
        id: string_of(&full_id),
        call_type,
        remote_number: string_of(&remote),
        remote_name: name,
        local_party,
        timestamp: string_of(&date),
        duration_seconds,
        source: RecordSource::FritzBox {
            phonebook_id: 0,
            phonebook_name: "Router Call Log".to_string(),
        },
    }
}

/// Parses FRITZ!Box calllist XML `<root><Call>` structure: one record per
/// `<Call>` element, in document order.
pub fn parse_call_list_xml(xml: &str) -> (records: Vec<CallRecord>)
    ensures
        records@.len() == call_chunks(xml@).len(),
        forall|i: int|
            0 <= i < records@.len() ==> is_call_record(#[trigger] records@[i], call_chunks(xml@)[i]),
{
    let s = chars_of(xml);
    let chunks = chunks_exec(&s, &chars_of("<Call>"), &chars_of("</Call>"));
    let ghost cv = chunks@.map_values(|c: Vec<char>| c@);
    let mut records: Vec<CallRecord> = Vec::new();
    let mut i: usize = 0;
    while i < chunks.len()
        invariant
            i <= chunks.len(),
            cv == chunks@.map_values(|c: Vec<char>| c@),
            cv == call_chunks(xml@),
            records@.len() == i,
            forall|k: int| 0 <= k < i ==> is_call_record(#[trigger] records@[k], cv[k]),
        decreases chunks.len() - i,
    {
        assert(cv[i as int] == chunks@[i as int]@);
        let r = call_record(&chunks[i]);
        records.push(r);
        i = i + 1;
    }
    records
}

// ─────────────────────────────── phonebooks ───────────────────────────────

/// The number type a `<number>` tag's attributes name.
pub open spec fn phonebook_number_type(attr: Seq<char>) -> NumberTypeView {
    if contains(attr, "type=\"mobile\""@) {
        NumberTypeView::Mobile
    } else if contains(attr, "type=\"work\""@) {
        NumberTypeView::Work
    } else if contains(attr, "type=\"fax\""@) {
        NumberTypeView::Fax
    } else if contains(attr, "type=\"intern\""@) {
        NumberTypeView::Intern
    } else if contains(attr, "type=\"vanity\""@) {
        NumberTypeView::Vanity
    } else {
        NumberTypeView::Home
    }
}

/// The priority a `<number>` tag's attributes give: 1 for `prio="1"`, else 2.
pub open spec fn phonebook_priority(attr: Seq<char>) -> u8 {
    if contains(attr, "prio=\"1\""@) {
        1
    } else {
        2
    }
}

/// The numbers of a contact element from `from` on: each `<number …>` tag
/// up to its `>`, then its text up to `</number>`, trimmed. Blank numbers
/// are skipped; an unterminated tag ends the list.
pub open spec fn numbers_from(c: Seq<char>, from: int) -> Seq<(Seq<char>, NumberTypeView, u8)>
    decreases c.len() - from,
{
    if from < 0 || from > c.len() {
        Seq::empty()
    } else {
        match find_from(c, "<number"@, from) {
            None => Seq::empty(),
            Some(ns) => match next_char(c, '>', ns) {
                None => Seq::empty(),
                Some(tc) => match find_from(c, "</number>"@, tc + 1) {
                    None => Seq::empty(),
                    Some(ve) => if from <= ns <= tc < ve && ve + 9 <= c.len() {
                        let attr = c.subrange(ns, tc);
                        let value = trim(c.subrange(tc + 1, ve));
                        let rest = numbers_from(c, ve + 9);
                        if value.len() == 0 {
                            rest
                        } else {
                            seq![(value, phonebook_number_type(attr), phonebook_priority(attr))]
                                + rest
                        }
                    } else {
                        Seq::empty()
                    },
                },
            },
        }
    }
}

fn phonebook_number(attr: &[char], value: Vec<char>) -> (n: PhoneNumber)
    ensures
        n@ == (value@, phonebook_number_type(attr@), phonebook_priority(attr@)),
{
    let number_type = if contains_exec(attr, &chars_of("type=\"mobile\"")) {
        NumberType::Mobile
    } else if contains_exec(attr, &chars_of("type=\"work\"")) {
        NumberType::Work
    } else if contains_exec(attr, &chars_of("type=\"fax\"")) {
        NumberType::Fax
    } else if contains_exec(attr, &chars_of("type=\"intern\"")) {
        NumberType::Intern
    } else if contains_exec(attr, &chars_of("type=\"vanity\"")) {
        NumberType::Vanity
    } else {
        NumberType::Home
    };
    let priority: u8 = if contains_exec(attr, &chars_of("prio=\"1\"")) {
        1
    } else {
        2
    };
    PhoneNumber { number: string_of(&value), number_type, priority }
}

fn phonebook_numbers(c: &[char]) -> (out: Vec<PhoneNumber>)
    ensures
        out@.map_values(|n: PhoneNumber| n@) == numbers_from(c@, 0),
{
    let open = chars_of("<number");
    let close = chars_of("</number>");
    proof {
        reveal_strlit("</number>");
    }
    let mut out: Vec<PhoneNumber> = Vec::new();
    let mut rest: usize = 0;
    loop
        invariant
            rest <= c.len(),
            open@ == "<number"@,
            close@ == "</number>"@,
            close@.len() == 9,
            numbers_from(c@, 0) == out@.map_values(|n: PhoneNumber| n@) + numbers_from(
                c@,
                rest as int,
            ),
        decreases c.len() - rest,
    {
        let ghost before = out@.map_values(|n: PhoneNumber| n@);
        let ns = match find_from_exec(c, &open, rest) {
            Some(i) => i,
            None => {
                assert(before + Seq::<(Seq<char>, NumberTypeView, u8)>::empty() == before);
                return out;
            },
        };
        proof {
            lemma_find_from_bounds(c@, open@, rest as int);
        }
        let tc = match next_char_exec(c, '>', ns) {
            Some(i) => i,
            None => {
                assert(before + Seq::<(Seq<char>, NumberTypeView, u8)>::empty() == before);
                return out;
            },
        };
        let ve = match find_from_exec(c, &close, tc + 1) {
            Some(i) => i,
            None => {
                assert(before + Seq::<(Seq<char>, NumberTypeView, u8)>::empty() == before);
                return out;
            },
        };
        proof {
            lemma_find_from_bounds(c@, close@, tc + 1);
        }
        let attr = slice_chars(c, ns, tc);
        let value = trim_chars(&slice_chars(c, tc + 1, ve));
        if value.len() > 0 {
            let n = phonebook_number(&attr, value);
            out.push(n);
            assert(out@.map_values(|n: PhoneNumber| n@) =~= before.push(n@));
            assert(before + numbers_from(c@, rest as int) =~= before.push(n@) + numbers_from(
                c@,
                ve + 9,
            ));
        }
        rest = ve + 9;
    }
}

/// The `<contact>` elements of a phonebook.
pub open spec fn contact_chunks(xml: Seq<char>) -> Seq<Seq<char>> {
    chunks_from(xml, "<contact>"@, "</contact>"@, 0)
}

/// A contact element's name.
pub open spec fn contact_name(chunk: Seq<char>) -> Seq<char> {
    trim(tag_or_empty(chunk, "realName"@))
}

/// The contact elements that carry a name, in order.
pub open spec fn named_chunks(chunks: Seq<Seq<char>>) -> Seq<Seq<char>>
    decreases chunks.len(),
{
    if chunks.len() == 0 {
        Seq::empty()
    } else if contact_name(chunks.last()).len() == 0 {
        named_chunks(chunks.drop_last())
    } else {
        named_chunks(chunks.drop_last()).push(chunks.last())
    }
}

/// Whether `c` is the contact a phonebook element describes: its name, its
/// numbers, and the id `fritzbox-<book>-<uniqueid>`, a random UUID standing
/// in for a missing `uniqueid`.
pub open spec fn is_phonebook_contact(c: Contact, chunk: Seq<char>, pbid: u32, pb_name: Seq<char>) -> bool {
    let prefix = "fritzbox-"@ + dec(pbid as nat) + "-"@;
    &&& c.name@ == contact_name(chunk)
    &&& c.numbers@.map_values(|n: PhoneNumber| n@) == numbers_from(chunk, 0)
    &&& c.emails@.len() == 0
    &&& c.source matches RecordSource::FritzBox { phonebook_id, phonebook_name }
    &&& phonebook_id == pbid && phonebook_name@ == pb_name
    &&& match tag_value(chunk, "uniqueid"@) {
        Some(uid) => c.id@ == prefix + uid,
        None => exists|bits: u128| is_v4_uuid(bits) && c.id@ == prefix + uuid_text(bits),
    }
}

fn phonebook_contact(chunk: &[char], name: Vec<char>, pbid: u32, pb_name: &str) -> (c: Contact)
    requires
        name@ == contact_name(chunk@),
    ensures
        is_phonebook_contact(c, chunk@, pbid, pb_name@),
{
    let ghost mut witness: u128 = 0x4000_8000_0000_0000_0000u128;
    let uid = match tag_chars(chunk, "uniqueid") {
        Some(u) => u,
        None => {
            let bits = random_uuid_bits();
            proof {
                witness = bits;
            }
            let text = uuid_string(bits);
            chars_of(text.as_str())
        },
    };
    assert(tag_value(chunk@, "uniqueid"@) is None ==> uid@ == uuid_text(witness));
    let mut id: Vec<char> = Vec::new();
    append_str(&mut id, "fritzbox-");
    push_dec(&mut id, pbid as u64);
    id.push('-');
    append(&mut id, &uid);
    proof {
        reveal_strlit("-");
    }
    let ghost prefix = "fritzbox-"@ + dec(pbid as nat) + "-"@;
    assert(id@ == prefix + uid@);
    let numbers = phonebook_numbers(chunk);
    let c = Contact {
        id: string_of(&id),
        name: string_of(&name),
        numbers,
        emails: Vec::new(),
        source: RecordSource::FritzBox { phonebook_id: pbid, phonebook_name: pb_name.to_string() },
    };
    assert(tag_value(chunk@, "uniqueid"@) is None ==> c.id@ == prefix + uuid_text(witness));
    c
}

/// Parses FRITZ!Box phonebook XML: one contact per `<contact>` element that
/// has a name, in document order.
pub fn parse_phonebook_xml(xml: &str, pbid: u32, pb_name: &str) -> (contacts: Vec<Contact>)
    ensures
        contacts@.len() == named_chunks(contact_chunks(xml@)).len(),
        forall|i: int|
            0 <= i < contacts@.len() ==> is_phonebook_contact(
                #[trigger] contacts@[i],
                named_chunks(contact_chunks(xml@))[i],
                pbid,
                pb_name@,
            ),
{
    let s = chars_of(xml);
    let chunks = chunks_exec(&s, &chars_of("<contact>"), &chars_of("</contact>"));
    let ghost cv = chunks@.map_values(|c: Vec<char>| c@);
    let mut contacts: Vec<Contact> = Vec::new();
    let mut i: usize = 0;
    while i < chunks.len()
        invariant
            i <= chunks.len(),
            cv == chunks@.map_values(|c: Vec<char>| c@),
            cv == contact_chunks(xml@),
            contacts@.len() == named_chunks(cv.take(i as int)).len(),
            forall|k: int|
                0 <= k < contacts@.len() ==> is_phonebook_contact(
                    #[trigger] contacts@[k],
                    named_chunks(cv.take(i as int))[k],
                    pbid,
                    pb_name@,
                ),
        decreases chunks.len() - i,
    {
        assert(cv[i as int] == chunks@[i as int]@);
        assert(cv.take(i + 1).drop_last() == cv.take(i as int));
        assert(cv.take(i + 1).last() == cv[i as int]);
        let name = trim_chars(&tag_or_empty_exec(&chunks[i], "realName"));
        if name.len() > 0 {
            let c = phonebook_contact(&chunks[i], name, pbid, pb_name);
            contacts.push(c);
        }
        i = i + 1;
    }
    assert(cv.take(chunks.len() as int) == cv);
    contacts
}

// ─────────────────────────────── the law ───────────────────────────────

/// Escaping distributes over a first character.
pub proof fn lemma_escaped_front(c: char, t: Seq<char>)
    ensures
        escaped(seq![c] + t) == escape_char(c) + escaped(t),
    decreases t.len(),
{
    let s = seq![c] + t;
    if t.len() == 0 {
        assert(s.drop_last() =~= Seq::<char>::empty());
        assert(escaped(Seq::<char>::empty()) == Seq::<char>::empty());
        assert(escape_char(c) + Seq::<char>::empty() =~= escape_char(c));
        assert(t =~= Seq::<char>::empty());
    } else {
        lemma_escaped_front(c, t.drop_last());
        assert(s.drop_last() =~= seq![c] + t.drop_last());
        assert(s.last() == t.last());
        assert(escaped(s) == escaped(seq![c] + t.drop_last()) + escape_char(t.last()));
        assert(escaped(t) == escaped(t.drop_last()) + escape_char(t.last()));
        assert(escaped(s) =~= escape_char(c) + escaped(t));
    }
}

/// A run without `&` comes through decoding unchanged.
#[verifier::rlimit(40)]
pub proof fn lemma_unescaped_plain_prefix(x: Seq<char>, u: Seq<char>)
    requires
        forall|i: int| 0 <= i < x.len() ==> x[i] != '&',
    ensures
        unescaped(x + u) == x + unescaped(u),
{
    let s = x + u;
    let k = x.len() as int;
    assert(s.skip(k) =~= u);
    lemma_next_char_skip(s, '&', k, 0);
    lemma_next_char_facts(s, '&', 0);
    lemma_next_char_facts(u, '&', 0);
    match next_char(u, '&', 0) {
        None => {
            assert(next_char(s, '&', 0) is None) by {
                if next_char(s, '&', 0) is Some {
                    let i = next_char(s, '&', 0)->0;
                    if i >= k {
                        assert(u[i - k] == s[i]);
                    } else {
                        assert(x[i] == s[i]);
                    }
                }
            }
        },
        Some(b) => {
            let a = k + b;
            assert(s[a] == '&') by {
                assert(s[a] == u[b]);
            }
            assert forall|j: int| 0 <= j < a implies s[j] != '&' by {
                if j < k {
                    assert(s[j] == x[j]);
                } else {
                    assert(s[j] == u[j - k]);
                }
            }
            crate::text::lemma_next_char_some(s, '&', 0, a);
            assert(s.skip(a) =~= u.skip(b));
            assert(s.take(a) =~= x + u.take(b));
            let step = entity_step(u.skip(b));
            assert(unescaped(s) == s.take(a) + step.0 + unescaped(s.skip(a).skip(step.1)));
            assert(unescaped(u) == u.take(b) + step.0 + unescaped(u.skip(b).skip(step.1)));
            assert(unescaped(s) =~= x + unescaped(u));
        },
    }
}

/// Characters that UTF-8 stores in one byte each.
pub proof fn lemma_utf8_len_ascii(s: Seq<char>)
    requires
        forall|i: int| 0 <= i < s.len() ==> (s[i] as u32) < 0x80,
    ensures
        utf8_len(s) == s.len(),
    decreases s.len(),
{
    if s.len() > 0 {
        lemma_utf8_len_ascii(s.drop_last());
    }
}

/// A known entity followed by anything decodes to its character.
pub proof fn lemma_unescaped_entity(e: Seq<char>, ch: char, u: Seq<char>)
    requires
        forall|i: int| 0 <= i < e.len() ==> e[i] != ';' && (e[i] as u32) < 0x80,
        e.len() <= 9,
        entity_char(e) == Some(ch),
    ensures
        unescaped(seq!['&'] + e + seq![';'] + u) == seq![ch] + unescaped(u),
{
    let s = seq!['&'] + e + seq![';'] + u;
    let semi: int = e.len() as int + 1;
    crate::text::lemma_next_char_some(s, '&', 0, 0);
    assert forall|j: int| 0 <= j < semi implies s[j] != ';' by {
        if j > 0 {
            assert(s[j] == e[j - 1]);
        }
    }
    crate::text::lemma_next_char_some(s, ';', 0, semi);
    assert(s.skip(0) == s);
    assert(s.take(semi) =~= seq!['&'] + e);
    lemma_utf8_len_ascii(seq!['&'] + e);
    assert(s.subrange(1, semi) =~= e);
    assert(s.skip(semi + 1) =~= u);
    assert(s.take(0) =~= Seq::<char>::empty());
    assert(unescaped(s) =~= seq![ch] + unescaped(u));
}

/// Decoding undoes escaping: `unescape_xml(&escape_xml(s)) == s` for every
/// `s`. Values go into the SOAP envelope escaped, and the router's answers
/// come back decoded, so text survives the trip.
pub proof fn law_unescape_undoes_escape(s: Seq<char>)
    ensures
        unescaped(escaped(s)) == s,
    decreases s.len(),
{
    if s.len() == 0 {
        assert(next_char(Seq::<char>::empty(), '&', 0) is None);
    } else {
        let c = s[0];
        let t = s.drop_first();
        assert(s =~= seq![c] + t);
        lemma_escaped_front(c, t);
        law_unescape_undoes_escape(t);
        let u = escaped(t);
        reveal_strlit("&amp;");
        reveal_strlit("&lt;");
        reveal_strlit("&gt;");
        reveal_strlit("&quot;");
        reveal_strlit("&apos;");
        reveal_strlit("amp");
        reveal_strlit("lt");
        reveal_strlit("gt");
        reveal_strlit("quot");
        reveal_strlit("apos");
        if c == '&' {
            assert(escape_char(c) + u =~= seq!['&'] + "amp"@ + seq![';'] + u);
            lemma_unescaped_entity("amp"@, '&', u);
        } else if c == '<' {
            assert(escape_char(c) + u =~= seq!['&'] + "lt"@ + seq![';'] + u);
            lemma_unescaped_entity("lt"@, '<', u);
        } else if c == '>' {
            assert(escape_char(c) + u =~= seq!['&'] + "gt"@ + seq![';'] + u);
            assert("gt"@[0] != "lt"@[0]);
            lemma_unescaped_entity("gt"@, '>', u);
        } else if c == '"' {
            assert(escape_char(c) + u =~= seq!['&'] + "quot"@ + seq![';'] + u);
            assert("quot"@ != "amp"@ && "quot"@ != "lt"@ && "quot"@ != "gt"@);
            lemma_unescaped_entity("quot"@, '"', u);
        } else if c == '\'' {
            assert(escape_char(c) + u =~= seq!['&'] + "apos"@ + seq![';'] + u);
            assert("apos"@[0] != "quot"@[0] && "apos"@ != "amp"@ && "apos"@ != "lt"@ && "apos"@ != "gt"@);
            lemma_unescaped_entity("apos"@, '\'', u);
        } else {
            lemma_unescaped_plain_prefix(seq![c], u);
        }
    }
}

} // verus!