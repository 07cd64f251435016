//! vCard parsing, shared by every provider that speaks it.
//!
//! `CardDAV` responses, `vdir` directories and KDE's directory address books
//! are all the same format, so they share one parser. It handles what real
//! files rely on:
//!
//! - **Line unfolding.** RFC 6350 lets a long property wrap onto the next line
//!   with a leading space or tab.
//! - **`UID`.** Contacts are keyed by it, so two people called "J. Smith" stay
//!   two entries.
//! - **vCard 4.0 `tel:` URIs.** `TEL;VALUE=uri:tel:+49301234` yields the
//!   dialable `+49301234`.
use vstd::prelude::*;

use crate::model::{
    Contact, NumberType, NumberTypeView, PhoneNumber, RecordSource,
};
use crate::text::{
    append, chars_of, contains, lemma_find_from_bounds, contains_exec, eq_chars, find_from, find_from_exec, next_char, next_char_exec, slice_chars, starts_with, starts_with_exec, string_of, trim, trim_chars, upper_seq, upper_vec,
};

verus! {

broadcast use vstd::string::group_string_axioms;

// ───────────────────────────── card splitting ─────────────────────────────

/// The cards of `s` from index `from` on: each runs from a `BEGIN:VCARD` to
/// the first `END:VCARD` after it, inclusive.
pub open spec fn cards_from(s: Seq<char>, from: int) -> Seq<Seq<char>>
    decreases s.len() - from,
{
    if from < 0 || from > s.len() {
        Seq::empty()
    } else {
        match find_from(s, "BEGIN:VCARD"@, from) {
            None => Seq::empty(),
            Some(start) => match find_from(s, "END:VCARD"@, start) {
                None => Seq::empty(),
                Some(end) => if from <= start <= end && end + 9 <= s.len() {
                    seq![s.subrange(start, end + 9)] + cards_from(s, end + 9)
                } else {
                    Seq::empty()
                },
            },
        }
    }
}

pub open spec fn string_views(v: Seq<String>) -> Seq<Seq<char>> {
    v.map_values(|s: String| s@)
}

/// Splits a stream that may hold many vCards into individual card texts.
pub fn split_cards(text: &str) -> (cards: Vec<String>)
    ensures
        string_views(cards@) == cards_from(text@, 0),
{
    let s = chars_of(text);
    let begin = chars_of("BEGIN:VCARD");
    let end_marker = chars_of("END:VCARD");
    proof {
        reveal_strlit("END:VCARD");
    }
    let mut cards: Vec<String> = Vec::new();
    let mut rest: usize = 0;
    while rest <= s.len()
        invariant
            rest <= s.len() + 1,
            s@ == text@,
            begin@ == "BEGIN:VCARD"@,
            end_marker@ == "END:VCARD"@,
            end_marker@.len() == 9,
            rest <= s.len() ==> cards_from(s@, 0) == string_views(cards@) + cards_from(s@, rest as int),
            rest > s.len() ==> cards_from(s@, 0) == string_views(cards@),
        decreases s.len() + 1 - rest,
    {
        let start = match find_from_exec(&s, &begin, rest) {
            Some(i) => i,
            None => {
                assert(string_views(cards@) + Seq::<Seq<char>>::empty() == string_views(cards@));
                return cards;
            },
        };
        proof { lemma_find_from_bounds(s@, begin@, rest as int); }
        let end = match find_from_exec(&s, &end_marker, start) {
            Some(i) => i,
            None => {
                assert(string_views(cards@) + Seq::<Seq<char>>::empty() == string_views(cards@));
                return cards;
            },
        };
        proof { lemma_find_from_bounds(s@, end_marker@, start as int); }
        assert(start <= end && end + 9 <= s.len());
        let card = slice_chars(&s, start, end + 9);
        let ghost before = cards@;
        cards.push(string_of(&card));
        assert(string_views(cards@) == string_views(before).push(card@));
        assert(cards_from(s@, rest as int) == seq![card@] + cards_from(s@, end + 9));
        assert(string_views(before) + (seq![card@] + cards_from(s@, end + 9)) == string_views(
            before,
        ).push(card@) + cards_from(s@, end + 9));
        rest = end + 9;
    }
    cards
}

// ─────────────────────────────── line folding ───────────────────────────────

/// `x` without one trailing carriage return.
pub open spec fn strip_cr(x: Seq<char>) -> Seq<char> {
    if x.len() > 0 && x.last() == '\r' {
        x.drop_last()
    } else {
        x
    }
}

/// The lines of `s` from index `from` on, as `str::lines` splits them (at
/// `\n`, a `\r` before it dropped, no empty line after a final `\n`), each
/// then without one more trailing `\r`.
pub open spec fn lines_from(s: Seq<char>, from: int) -> Seq<Seq<char>>
    decreases s.len() - from,
{
    if from < 0 || from >= s.len() {
        Seq::empty()
    } else {
        match next_char(s, '\n', from) {
            Some(i) => if from <= i < s.len() {
                seq![strip_cr(strip_cr(s.subrange(from, i)))] + lines_from(s, i + 1)
            } else {
                Seq::empty()
            },
            None => seq![strip_cr(s.subrange(from, s.len() as int))],
        }
    }
}

/// Whether a line continues the one before it (RFC 6350 §3.2).
pub open spec fn is_fold(line: Seq<char>) -> bool {
    line.len() > 0 && (line[0] == ' ' || line[0] == '\t')
}

/// The lines with each fold joined onto the line before it, its leading
/// space or tab dropped. A fold with no line before it stands alone.
pub open spec fn unfold_lines(ls: Seq<Seq<char>>) -> Seq<Seq<char>>
    decreases ls.len(),
{
    if ls.len() == 0 {
        Seq::empty()
    } else {
        let prev = unfold_lines(ls.drop_last());
        let line = ls.last();
        if is_fold(line) && prev.len() > 0 {
            prev.update(prev.len() - 1, prev.last() + line.drop_first())
        } else {
            prev.push(line)
        }
    }
}

/// The unfolded lines of a card.
pub open spec fn card_lines(card: Seq<char>) -> Seq<Seq<char>> {
    unfold_lines(lines_from(card, 0))
}

fn strip_cr_exec(x: Vec<char>) -> (out: Vec<char>)
    ensures
        out@ == strip_cr(x@),
{
    let mut x = x;
    if x.len() > 0 && x[x.len() - 1] == '\r' {
        x.pop();
    }
    x
}

pub fn split_lines(s: &[char]) -> (out: Vec<Vec<char>>)
    ensures
        out@.map_values(|l: Vec<char>| l@) == lines_from(s@, 0),
{
    let mut out: Vec<Vec<char>> = Vec::new();
    let mut from: usize = 0;
    while from < s.len()
        invariant
            from <= s.len(),
            lines_from(s@, 0) == out@.map_values(|l: Vec<char>| l@) + lines_from(s@, from as int),
        decreases s.len() - from,
    {
        let ghost before = out@.map_values(|l: Vec<char>| l@);
        match next_char_exec(s, '\n', from) {
            Some(i) => {
                let piece = strip_cr_exec(strip_cr_exec(slice_chars(s, from, i)));
                out.push(piece);
                assert(out@.map_values(|l: Vec<char>| l@) == before.push(piece@));
                assert(before + lines_from(s@, from as int) == before.push(piece@) + lines_from(
                    s@,
                    i + 1,
                ));
                from = i + 1;
            },
            None => {
                let piece = strip_cr_exec(slice_chars(s, from, s.len()));
                out.push(piece);
                assert(out@.map_values(|l: Vec<char>| l@) == before.push(piece@));
                assert(lines_from(s@, s.len() as int) == Seq::<Seq<char>>::empty());
                assert(before + lines_from(s@, from as int) == before.push(piece@) + lines_from(
                    s@,
                    s.len() as int,
                ));
                from = s.len();
            },
        }
    }
    assert(lines_from(s@, from as int) == Seq::<Seq<char>>::empty());
    assert(out@.map_values(|l: Vec<char>| l@) + Seq::<Seq<char>>::empty() == out@.map_values(
        |l: Vec<char>| l@,
    ));
    out
}

/// Joins folded continuation lines back onto the property they belong to.
///
/// RFC 6350 §3.2: a line break followed by a single space or tab is a fold,
/// not a new property.
pub fn unfold(card: &str) -> (lines: Vec<String>)
    ensures
        string_views(lines@) == card_lines(card@),
{
    let s = chars_of(card);
    let acc = unfold_chars(&s);
    let mut lines: Vec<String> = Vec::new();
    let mut j: usize = 0;
    while j < acc.len()
        invariant
            j <= acc.len(),
            acc@.map_values(|l: Vec<char>| l@) == card_lines(card@),
            string_views(lines@) == acc@.map_values(|l: Vec<char>| l@).take(j as int),
        decreases acc.len() - j,
    {
        let ghost before = lines@;
        let ghost av = acc@.map_values(|l: Vec<char>| l@);
        let line = string_of(&acc[j]);
        lines.push(line);
        assert(string_views(lines@) =~= string_views(before).push(line@));
        assert(av.take(j + 1) =~= av.take(j as int).push(av[j as int]));
        j = j + 1;
    }
    assert(acc@.map_values(|l: Vec<char>| l@).take(acc.len() as int) == acc@.map_values(
        |l: Vec<char>| l@,
    ));
    lines
}

fn unfold_chars(s: &[char]) -> (acc: Vec<Vec<char>>)
    ensures
        acc@.map_values(|l: Vec<char>| l@) == card_lines(s@),
{
    let raw = split_lines(s);
    let ghost ls = raw@.map_values(|l: Vec<char>| l@);
    let mut acc: Vec<Vec<char>> = Vec::new();
    let mut k: usize = 0;
    while k < raw.len()
        invariant
            k <= raw.len(),
            ls == raw@.map_values(|l: Vec<char>| l@),
            acc@.map_values(|l: Vec<char>| l@) == unfold_lines(ls.take(k as int)),
        decreases raw.len() - k,
    {
        assert(ls.take(k + 1).drop_last() == ls.take(k as int));
        let line = &raw[k];
        assert(ls.take(k + 1).last() == line@);
        let ghost prev = acc@.map_values(|l: Vec<char>| l@);
        if line.len() > 0 && (line[0] == ' ' || line[0] == '\t') && acc.len() > 0 {
            let mut last = acc.pop().unwrap();
            let cont = slice_chars(line, 1, line.len());
            append(&mut last, &cont);
            acc.push(last);
            assert(acc@.map_values(|l: Vec<char>| l@) =~= prev.update(
                prev.len() - 1,
                prev.last() + line@.drop_first(),
            ));
        } else {
            acc.push(slice_chars(line, 0, line.len()));
            assert(line@.subrange(0, line@.len() as int) == line@);
            assert(acc@.map_values(|l: Vec<char>| l@) =~= prev.push(line@));
        }
        k = k + 1;
    }
    assert(ls.take(raw.len() as int) == ls);
    acc
}

// ───────────────────────────── property lines ─────────────────────────────

/// The first `:` at or after `from` outside a quoted parameter, `in_quotes`
/// telling whether `from` is inside one.
pub open spec fn unquoted_colon(s: Seq<char>, from: int, in_quotes: bool) -> Option<int>
    decreases s.len() - from,
{
    if from < 0 || from >= s.len() {
        None
    } else if s[from] == '"' {
        unquoted_colon(s, from + 1, !in_quotes)
    } else if s[from] == ':' && !in_quotes {
        Some(from)
    } else {
        unquoted_colon(s, from + 1, in_quotes)
    }
}

/// `NAME;PARAMS:value` split into its trimmed name, its parameters and its
/// trimmed value.
pub open spec fn property_parts(line: Seq<char>) -> Option<(Seq<char>, Seq<char>, Seq<char>)> {
    match unquoted_colon(line, 0, false) {
        None => None,
        Some(c) => {
            let head = line.take(c);
            let value = trim(line.skip(c + 1));
            match next_char(head, ';', 0) {
                Some(k) => Some((trim(head.take(k)), head.skip(k + 1), value)),
                None => Some((trim(head), Seq::empty(), value)),
            }
        },
    }
}

/// Splits `NAME;PARAMS:value` into its parts.
fn split_property(line: &[char]) -> (r: Option<(Vec<char>, Vec<char>, Vec<char>)>)
    ensures
        match r {
            Some((n, p, v)) => property_parts(line@) == Some((n@, p@, v@)),
            None => property_parts(line@) is None,
        },
{
    let mut in_quotes = false;
    let mut i: usize = 0;
    let mut colon: Option<usize> = None;
    while i < line.len() && colon.is_none()
        invariant
            i <= line.len(),
            colon matches Some(c) ==> c < line.len() && unquoted_colon(line@, 0, false) == Some(c as int),
            colon is None ==> unquoted_colon(line@, 0, false) == unquoted_colon(line@, i as int, in_quotes),
        decreases line.len() - i,
    {
        if line[i] == '"' {
            in_quotes = !in_quotes;
        } else if line[i] == ':' && !in_quotes {
            colon = Some(i);
        }
        i = i + 1;
    }
    let c = match colon {
        Some(c) => c,
        None => {
            return None;
        },
    };
    let head = slice_chars(line, 0, c);
    let value = trim_chars(&slice_chars(line, c + 1, line.len()));
    assert(head@ == line@.take(c as int));
    match next_char_exec(&head, ';', 0) {
        Some(k) => {
            let name = trim_chars(&slice_chars(&head, 0, k));
            let params = slice_chars(&head, k + 1, head.len());
            assert(params@ == head@.skip(k + 1));
            Some((name, params, value))
        },
        None => {
            let empty: Vec<char> = Vec::new();
            assert(empty@ =~= Seq::<char>::empty());
            Some((trim_chars(&head), empty, value))
        },
    }
}

/// A value without the `tel:` / `mailto:` scheme vCard 4.0 wraps it in.
pub open spec fn strip_uri_scheme(v: Seq<char>) -> Seq<char> {
    if starts_with(v, "tel:"@) {
        v.skip(4)
    } else if starts_with(v, "mailto:"@) {
        v.skip(7)
    } else {
        v
    }
}

fn strip_uri_scheme_exec(v: &[char]) -> (out: Vec<char>)
    ensures
        out@ == strip_uri_scheme(v@),
{
    proof {
        reveal_strlit("tel:");
        reveal_strlit("mailto:");
    }
    if starts_with_exec(v, &chars_of("tel:")) {
        slice_chars(v, 4, v.len())
    } else if starts_with_exec(v, &chars_of("mailto:")) {
        slice_chars(v, 7, v.len())
    } else {
        assert(v@.subrange(0, v@.len() as int) == v@);
        slice_chars(v, 0, v.len())
    }
}

/// The number type the `TYPE` parameters name.
pub open spec fn number_type_of(params: Seq<char>) -> NumberTypeView {
    let upper = upper_seq(params);
    if contains(upper, "CELL"@) || contains(upper, "MOBILE"@) {
        NumberTypeView::Mobile
    } else if contains(upper, "FAX"@) {
        NumberTypeView::Fax
    } else if contains(upper, "WORK"@) {
        NumberTypeView::Work
    } else if contains(upper, "HOME"@) {
        NumberTypeView::Home
    } else {
        NumberTypeView::Other("other"@)
    }
}

fn number_type(params: &[char]) -> (t: NumberType)
    ensures
        t@ == number_type_of(params@),
{
    let upper = upper_vec(params);
    if contains_exec(&upper, &chars_of("CELL")) || contains_exec(&upper, &chars_of("MOBILE")) {
        NumberType::Mobile
    } else if contains_exec(&upper, &chars_of("FAX")) {
        NumberType::Fax
    } else if contains_exec(&upper, &chars_of("WORK")) {
        NumberType::Work
    } else if contains_exec(&upper, &chars_of("HOME")) {
        NumberType::Home
    } else {
        NumberType::Other("other".to_string())
    }
}

/// The text before the first `;` (all of it when there is none).
pub open spec fn first_field(s: Seq<char>) -> Seq<char> {
    match next_char(s, ';', 0) {
        Some(k) => s.take(k),
        None => s,
    }
}

/// The text between the first and second `;` (empty when there is no `;`).
pub open spec fn second_field(s: Seq<char>) -> Seq<char> {
    match next_char(s, ';', 0) {
        Some(k) => first_field(s.skip(k + 1)),
        None => Seq::empty(),
    }
}

/// The display name an `N` value (Family;Given;Middle;Prefix;Suffix) gives:
/// given name, a space, family name, trimmed.
pub open spec fn structured_name(value: Seq<char>) -> Seq<char> {
    trim(trim(second_field(value)) + " "@ + trim(first_field(value)))
}

fn first_field_exec(s: &[char]) -> (out: Vec<char>)
    ensures
        out@ == first_field(s@),
{
    match next_char_exec(s, ';', 0) {
        Some(k) => slice_chars(s, 0, k),
        None => {
            assert(s@.subrange(0, s@.len() as int) == s@);
            slice_chars(s, 0, s.len())
        },
    }
}

fn structured_name_exec(value: &[char]) -> (out: Vec<char>)
    ensures
        out@ == structured_name(value@),
{
    let family = trim_chars(&first_field_exec(value));
    let given = match next_char_exec(value, ';', 0) {
        Some(k) => {
            let rest = slice_chars(value, k + 1, value.len());
            assert(rest@ == value@.skip(k + 1));
            trim_chars(&first_field_exec(&rest))
        },
        None => {
            let empty: Vec<char> = Vec::new();
            assert(empty@ =~= Seq::<char>::empty());
            trim_chars(&empty)
        },
    };
    assert(given@ == trim(second_field(value@)));
    let mut joined = given;
    joined.push(' ');
    append(&mut joined, &family);
    proof {
        reveal_strlit(" ");
    }
    assert(joined@ == trim(second_field(value@)) + " "@ + trim(first_field(value@)));
    trim_chars(&joined)
}

/// What the lines of a card read so far say.
pub struct CardScan {
    pub formatted: Option<Seq<char>>,
    pub structured: Option<Seq<char>>,
    pub uid: Option<Seq<char>>,
    pub numbers: Seq<(Seq<char>, NumberTypeView, u8)>,
    pub emails: Seq<Seq<char>>,
}

/// What one line adds: `FN` sets the name, the first usable `N` the
/// fallback name, `UID` the id, and each `TEL` and `EMAIL` is collected. A
/// line that is no property, or has an empty value, says nothing.
pub open spec fn scan_line(st: CardScan, line: Seq<char>) -> CardScan {
    match property_parts(line) {
        None => st,
        Some(parts) => {
            let name = upper_seq(parts.0);
            let params = parts.1;
            let value = parts.2;
            if value.len() == 0 {
                st
            } else if name == "FN"@ {
                CardScan { formatted: Some(value), ..st }
            } else if name == "N"@ && st.structured is None {
                let joined = structured_name(value);
                if joined.len() > 0 {
                    CardScan { structured: Some(joined), ..st }
                } else {
                    st
                }
            } else if name == "UID"@ {
                CardScan { uid: Some(strip_uri_scheme(value)), ..st }
            } else if name == "TEL"@ {
                let number = trim(strip_uri_scheme(value));
                if number.len() > 0 {
                    let priority: u8 = if contains(upper_seq(params), "PREF"@) {
                        1
                    } else {
                        2
                    };
                    CardScan {
                        numbers: st.numbers.push((number, number_type_of(params), priority)),
                        ..st
                    }
                } else {
                    st
                }
            } else if name == "EMAIL"@ {
                CardScan { emails: st.emails.push(trim(strip_uri_scheme(value))), ..st }
            } else {
                st
            }
        },
    }
}

pub open spec fn scan_lines(lines: Seq<Seq<char>>) -> CardScan
    decreases lines.len(),
{
    if lines.len() == 0 {
        CardScan {
            formatted: None,
            structured: None,
            uid: None,
            numbers: Seq::empty(),
            emails: Seq::empty(),
        }
    } else {
        scan_line(scan_lines(lines.drop_last()), lines.last())
    }
}

pub open spec fn opt_chars(o: Option<Vec<char>>) -> Option<Seq<char>> {
    match o {
        Some(v) => Some(v@),
        None => None,
    }
}

/// The fields of a card as they are collected.
pub struct CardFields {
    pub formatted: Option<Vec<char>>,
    pub structured: Option<Vec<char>>,
    pub uid: Option<Vec<char>>,
    pub numbers: Vec<PhoneNumber>,
    pub emails: Vec<String>,
}

impl View for CardFields {
    type V = CardScan;

    open spec fn view(&self) -> CardScan {
        CardScan {
            formatted: opt_chars(self.formatted),
            structured: opt_chars(self.structured),
            uid: opt_chars(self.uid),
            numbers: self.numbers@.map_values(|n: PhoneNumber| n@),
            emails: string_views(self.emails@),
        }
    }
}

fn eq_lit(s: &[char], lit: &str) -> (b: bool)
    ensures
        b == (s@ == lit@),
{
    eq_chars(s, &chars_of(lit))
}

fn scan_line_exec(fields: &mut CardFields, line: &[char])
    ensures
        final(fields)@ == scan_line(old(fields)@, line@),
{
    let (name, params, value) = match split_property(line) {
        Some(parts) => parts,
        None => {
            return;
        },
    };
    if value.len() == 0 {
        return;
    }
    let upper = upper_vec(&name);
    if eq_lit(&upper, "FN") {
        fields.formatted = Some(value);
    } else if eq_lit(&upper, "N") && fields.structured.is_none() {
        let joined = structured_name_exec(&value);
        if joined.len() > 0 {
            fields.structured = Some(joined);
        }
    } else if eq_lit(&upper, "UID") {
        fields.uid = Some(strip_uri_scheme_exec(&value));
    } else if eq_lit(&upper, "TEL") {
        let number = trim_chars(&strip_uri_scheme_exec(&value));
        if number.len() > 0 {
            let pref = contains_exec(&upper_vec(&params), &chars_of("PREF"));
            let priority: u8 = if pref {
                1
            } else {
                2
            };
            let ghost before = fields.numbers@;
            let entry = PhoneNumber {
                number: string_of(&number),
                number_type: number_type(&params),
                priority,
            };
            fields.numbers.push(entry);
            assert(fields.numbers@.map_values(|n: PhoneNumber| n@) =~= before.map_values(
                |n: PhoneNumber| n@,
            ).push(entry@));
        }
    } else if eq_lit(&upper, "EMAIL") {
        let ghost before = fields.emails@;
        let email = string_of(&trim_chars(&strip_uri_scheme_exec(&value)));
        fields.emails.push(email);
        assert(string_views(fields.emails@) =~= string_views(before).push(email@));
    }
}

/// `s` with each space replaced by an underscore.
pub open spec fn underscored(s: Seq<char>) -> Seq<char> {
    s.map_values(|c: char| if c == ' ' { '_' } else { c })
}

pub fn underscored_exec(s: &[char]) -> (out: Vec<char>)
    ensures
        out@ == underscored(s@),
{
    let mut out: Vec<char> = Vec::new();
    let mut i: usize = 0;
    while i < s.len()
        invariant
            i <= s.len(),
            out@ == underscored(s@.take(i as int)),
        decreases s.len() - i,
    {
        let c = s[i];
        out.push(if c == ' ' { '_' } else { c });
        assert(underscored(s@.take(i + 1)) =~= underscored(s@.take(i as int)).push(
            if c == ' ' { '_' } else { c },
        ));
        i = i + 1;
    }
    assert(s@.take(s.len() as int) == s@);
    out
}

/// The name a card is listed under: its `FN`, else the name its `N` gives.
pub open spec fn card_name(st: CardScan) -> Option<Seq<char>> {
    if st.formatted is Some {
        st.formatted
    } else {
        st.structured
    }
}

/// The id of a card's contact: its `UID`, else its name with spaces made
/// underscores, after the provider's prefix and a hyphen.
pub open spec fn card_id(prefix: Seq<char>, st: CardScan, name: Seq<char>) -> Seq<char> {
    prefix + "-"@ + match st.uid {
        Some(u) => u,
        None => underscored(name),
    }
}

/// Whether `c` is what a card says: its name, the id built from the
/// prefix and its `UID` or name, its numbers and its addresses.
pub open spec fn is_card_contact(c: Contact, card: Seq<char>, prefix: Seq<char>) -> bool {
    let st = scan_lines(card_lines(card));
    &&& card_name(st) is Some
    &&& c.name@ == card_name(st)->0
    &&& c.id@ == card_id(prefix, st, card_name(st)->0)
    &&& c.numbers@.map_values(|n: PhoneNumber| n@) == st.numbers
    &&& string_views(c.emails@) == st.emails
}

/// The value of a line that is an `FN` property (in any case) with a
/// non-empty value.
pub open spec fn fn_value(line: Seq<char>) -> Option<Seq<char>> {
    match property_parts(line) {
        Some(parts) => if upper_seq(parts.0) == "FN"@ && parts.2.len() > 0 {
            Some(parts.2)
        } else {
            None
        },
        None => None,
    }
}

/// Reading lines keeps the last non-empty `FN` value as the formatted name.
pub proof fn lemma_last_fn_is_the_formatted_name(ls: Seq<Seq<char>>, i: int, v: Seq<char>)
    requires
        0 <= i < ls.len(),
        fn_value(ls[i]) == Some(v),
        forall|j: int| i < j < ls.len() ==> fn_value(#[trigger] ls[j]) is None,
    ensures
        scan_lines(ls).formatted == Some(v),
    decreases ls.len(),
{
    let p = ls.drop_last();
    if i < ls.len() - 1 {
        assert forall|j: int| i < j < p.len() implies fn_value(#[trigger] p[j]) is None by {
            assert(p[j] == ls[j]);
        }
        assert(p[i] == ls[i]);
        lemma_last_fn_is_the_formatted_name(p, i, v);
        assert(fn_value(ls.last()) is None) by {
            assert(ls.last() == ls[ls.len() - 1]);
        }
        assert(scan_lines(ls) == scan_line(scan_lines(p), ls.last()));
    } else {
        assert(ls.last() == ls[i]);
        assert(scan_lines(ls) == scan_line(scan_lines(p), ls.last()));
    }
}

/// A card's formatted name wins: when the card has a non-empty `FN`
/// property, the contact is named by it (the last one, when there are
/// several), whatever its `N` says; `N` only stands in for a missing `FN`.
pub proof fn law_the_formatted_name_wins(c: Contact, card: Seq<char>, prefix: Seq<char>, i: int, v: Seq<char>)
    requires
        is_card_contact(c, card, prefix),
        0 <= i < card_lines(card).len(),
        fn_value(card_lines(card)[i]) == Some(v),
        forall|j: int| i < j < card_lines(card).len() ==> fn_value(#[trigger] card_lines(card)[j]) is None,
    ensures
        c.name@ == v,
{
    lemma_last_fn_is_the_formatted_name(card_lines(card), i, v);
}

/// The cards that have a name, in order.
pub open spec fn named_cards(cards: Seq<Seq<char>>) -> Seq<Seq<char>>
    decreases cards.len(),
{
    if cards.len() == 0 {
        Seq::empty()
    } else if card_name(scan_lines(card_lines(cards.last()))) is None {
        named_cards(cards.drop_last())
    } else {
        named_cards(cards.drop_last()).push(cards.last())
    }
}

/// Parses one vCard into a [`Contact`].
///
/// `id_prefix` namespaces the id so two providers cannot collide, and
/// `source` records where it came from.
///
/// Returns `None` when the card has no usable name, which is the one field
/// the contact list cannot render without.
pub fn parse(card: &str, id_prefix: &str, source: RecordSource) -> (r: Option<Contact>)
    ensures
        card_name(scan_lines(card_lines(card@))) is None <==> r is None,
        r matches Some(c) ==> is_card_contact(c, card@, id_prefix@) && c.source == source,
{
    let s = chars_of(card);
    let lines = unfold_chars(&s);
    let ghost ls = lines@.map_values(|l: Vec<char>| l@);
    let mut fields = CardFields {
        formatted: None,
        structured: None,
        uid: None,
        numbers: Vec::new(),
        emails: Vec::new(),
    };
    proof {
        assert(fields@.numbers =~= Seq::<(Seq<char>, NumberTypeView, u8)>::empty());
        assert(fields@.emails =~= Seq::<Seq<char>>::empty());
        assert(ls.take(0) =~= Seq::<Seq<char>>::empty());
    }
    let mut k: usize = 0;
    while k < lines.len()
        invariant
            k <= lines.len(),
            ls == lines@.map_values(|l: Vec<char>| l@),
            ls == card_lines(card@),
            fields@ == scan_lines(ls.take(k as int)),
        decreases lines.len() - k,
    {
        assert(ls.take(k + 1).drop_last() == ls.take(k as int));
        scan_line_exec(&mut fields, &lines[k]);
        k = k + 1;
    }
    assert(ls.take(lines.len() as int) == ls);
    let name = match fields.formatted {
        Some(n) => n,
        None => match fields.structured {
            Some(n) => n,
            None => {
                return None;
            },
        },
    };
    let ghost st = scan_lines(card_lines(card@));
    assert(fields@ == st);
    assert(card_name(st) == Some(name@));
    let mut id = chars_of(id_prefix);
    id.push('-');
    match fields.uid {
        Some(u) => append(&mut id, &u),
        None => append(&mut id, &underscored_exec(&name)),
    }
    proof {
        reveal_strlit("-");
    }
    assert(id@ == card_id(id_prefix@, st, name@));
    Some(
        Contact {
            id: string_of(&id),
            name: string_of(&name),
            numbers: fields.numbers,
            emails: fields.emails,
            source,
        },
    )
}

} // verus!