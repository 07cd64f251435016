//! Character-level string helpers shared by every parser in the crate.
//!
//! Strings are handled as sequences of `char`s: a `&str` is turned into a
//! `Vec<char>` once, worked on by index, and turned back into a `String`.
//! Each helper states its result over `Seq<char>` so the parsers built on
//! top of it can be specified the same way.
use vstd::prelude::*;
use vstd::std_specs::iter::IteratorSpec;

verus! {

broadcast use vstd::string::group_string_axioms;

// ───────────────────────────── specifications ─────────────────────────────

/// Unicode `White_Space`, the set `str::trim` removes.
pub open spec fn is_ws(c: char) -> bool {
    let u = c as u32;
    ||| 0x09 <= u <= 0x0D
    ||| u == 0x20
    ||| u == 0x85
    ||| u == 0xA0
    ||| u == 0x1680
    ||| 0x2000 <= u <= 0x200A
    ||| u == 0x2028
    ||| u == 0x2029
    ||| u == 0x202F
    ||| u == 0x205F
    ||| u == 0x3000
}

/// `s` without its leading whitespace.
pub open spec fn trim_start(s: Seq<char>) -> Seq<char>
    decreases s.len(),
{
    if s.len() > 0 && is_ws(s[0]) {
        trim_start(s.drop_first())
    } else {
        s
    }
}

/// `s` without its trailing whitespace.
pub open spec fn trim_end(s: Seq<char>) -> Seq<char>
    decreases s.len(),
{
    if s.len() > 0 && is_ws(s.last()) {
        trim_end(s.drop_last())
    } else {
        s
    }
}

/// `s` without leading and trailing whitespace, as `str::trim` gives it.
pub open spec fn trim(s: Seq<char>) -> Seq<char> {
    trim_end(trim_start(s))
}

pub open spec fn is_digit(c: char) -> bool {
    '0' <= c <= '9'
}

pub open spec fn digit_val(c: char) -> nat {
    (c as u32 - '0' as u32) as nat
}

pub open spec fn is_hex(c: char) -> bool {
    ||| '0' <= c <= '9'
    ||| 'a' <= c <= 'f'
    ||| 'A' <= c <= 'F'
}

pub open spec fn hex_val(c: char) -> nat {
    if '0' <= c <= '9' {
        (c as u32 - '0' as u32) as nat
    } else if 'a' <= c <= 'f' {
        (c as u32 - 'a' as u32 + 10) as nat
    } else {
        (c as u32 - 'A' as u32 + 10) as nat
    }
}

/// ASCII lower-casing of one character; everything else is unchanged.
pub open spec fn lower(c: char) -> char {
    if 'A' <= c <= 'Z' {
        ((c as u32) + 32) as char
    } else {
        c
    }
}

/// ASCII upper-casing of one character; everything else is unchanged.
pub open spec fn upper(c: char) -> char {
    if 'a' <= c <= 'z' {
        ((c as u32) - 32) as char
    } else {
        c
    }
}

pub open spec fn lower_seq(s: Seq<char>) -> Seq<char> {
    s.map_values(|c: char| lower(c))
}

pub open spec fn upper_seq(s: Seq<char>) -> Seq<char> {
    s.map_values(|c: char| upper(c))
}

/// Whether `p` occurs in `s` starting at index `i`.
pub open spec fn occurs_at(s: Seq<char>, i: int, p: Seq<char>) -> bool {
    0 <= i && i + p.len() <= s.len() && s.subrange(i, i + p.len()) == p
}

pub open spec fn starts_with(s: Seq<char>, p: Seq<char>) -> bool {
    occurs_at(s, 0, p)
}

pub open spec fn ends_with(s: Seq<char>, p: Seq<char>) -> bool {
    occurs_at(s, s.len() - p.len(), p)
}

/// The first index at or after `from` where `p` occurs.
pub open spec fn find_from(s: Seq<char>, p: Seq<char>, from: int) -> Option<int>
    decreases s.len() + 1 - from,
{
    if from < 0 || from + p.len() > s.len() {
        None
    } else if occurs_at(s, from, p) {
        Some(from)
    } else {
        find_from(s, p, from + 1)
    }
}

/// The first index where `p` occurs, as `str::find` gives it.
pub open spec fn find(s: Seq<char>, p: Seq<char>) -> Option<int> {
    find_from(s, p, 0)
}

pub open spec fn contains(s: Seq<char>, p: Seq<char>) -> bool {
    find(s, p) is Some
}

/// The last index holding `c`.
pub open spec fn rfind_char(s: Seq<char>, c: char) -> Option<int>
    decreases s.len(),
{
    if s.len() == 0 {
        None
    } else if s.last() == c {
        Some(s.len() - 1)
    } else {
        rfind_char(s.drop_last(), c)
    }
}

/// The decimal rendering of `n`, as `{}` formats an unsigned integer.
pub open spec fn dec(n: nat) -> Seq<char>
    decreases n,
{
    if n < 10 {
        seq![(('0' as u32) + n) as char]
    } else {
        dec(n / 10).push((('0' as u32) + (n % 10)) as char)
    }
}

pub open spec fn all_digits(s: Seq<char>) -> bool {
    forall|i: int| 0 <= i < s.len() ==> is_digit(#[trigger] s[i])
}

/// The value of a run of decimal digits.
pub open spec fn digits_value(s: Seq<char>) -> nat
    decreases s.len(),
{
    if s.len() == 0 {
        0
    } else {
        digits_value(s.drop_last()) * 10 + digit_val(s.last())
    }
}

/// The digits of an unsigned number: everything after an optional `+`.
pub open spec fn unsigned_digits(s: Seq<char>) -> Seq<char> {
    if s.len() > 0 && s[0] == '+' {
        s.drop_first()
    } else {
        s
    }
}

/// What `str::parse::<u32>` accepts: an optional `+`, then at least one
/// ASCII digit, with a value that fits.
pub open spec fn parse_u32(s: Seq<char>) -> Option<u32> {
    let d = unsigned_digits(s);
    if d.len() > 0 && all_digits(d) && digits_value(d) <= u32::MAX {
        Some(digits_value(d) as u32)
    } else {
        None
    }
}

/// The characters of an optional string.
pub open spec fn opt_view(o: Option<&str>) -> Option<Seq<char>> {
    match o {
        Some(s) => Some(s@),
        None => None,
    }
}

// ─────────────────────────────── lemmas ────────────────────────────────

pub proof fn lemma_trim_start_skip(s: Seq<char>, i: int)
    requires
        0 <= i <= s.len(),
        forall|j: int| 0 <= j < i ==> is_ws(#[trigger] s[j]),
    ensures
        trim_start(s) == trim_start(s.subrange(i, s.len() as int)),
    decreases i,
{
    if i > 0 {
        assert(s.drop_first() == s.subrange(1, s.len() as int));
        let t = s.drop_first();
        assert(is_ws(s[0]));
        assert(trim_start(s) == trim_start(t));
        assert forall|j: int| 0 <= j < i - 1 implies is_ws(#[trigger] t[j]) by {
            assert(t[j] == s[j + 1]);
        }
        lemma_trim_start_skip(t, i - 1);
        assert(t.subrange(i - 1, t.len() as int) == s.subrange(i, s.len() as int));
    } else {
        assert(s.subrange(0, s.len() as int) == s);
    }
}

pub proof fn lemma_trim_end_take(s: Seq<char>, e: int)
    requires
        0 <= e <= s.len(),
        forall|j: int| e <= j < s.len() ==> is_ws(#[trigger] s[j]),
    ensures
        trim_end(s) == trim_end(s.subrange(0, e)),
    decreases s.len() - e,
{
    if e < s.len() {
        let t = s.drop_last();
        assert(is_ws(s[s.len() - 1]));
        assert(trim_end(s) == trim_end(t));
        assert forall|j: int| e <= j < t.len() implies is_ws(#[trigger] t[j]) by {
            assert(t[j] == s[j]);
        }
        lemma_trim_end_take(t, e);
        assert(t.subrange(0, e) == s.subrange(0, e));
    } else {
        assert(s.subrange(0, e) == s);
    }
}

pub proof fn lemma_digits_value_push(s: Seq<char>, c: char)
    ensures
        digits_value(s.push(c)) == digits_value(s) * 10 + digit_val(c),
{
    assert(s.push(c).drop_last() == s);
}

// ───────────────────────────── executable ──────────────────────────────

/// `String::push`: appends one character, as its documentation says.
#[verifier::external_body]
pub(crate) fn push_char(s: &mut String, c: char)
    ensures
        final(s)@ == old(s)@.push(c),
{
    s.push(c);
}

/// The characters of a string, in order.
pub fn chars_of(s: &str) -> (out: Vec<char>)
    ensures
        out@ == s@,
{
    let mut out: Vec<char> = Vec::new();
    for c in it: s.chars()
        invariant
            it.seq() == s@,
            out@ == s@.take(it.index() as int),
    {
        out.push(c);
    }
    out
}

/// Builds a `String` holding exactly the given characters.
pub fn string_of(cs: &[char]) -> (out: String)
    ensures
        out@ == cs@,
{
    let mut out = String::new();
    let mut i: usize = 0;
    while i < cs.len()
        invariant
            i <= cs.len(),
            out@ == cs@.take(i as int),
        decreases cs.len() - i,
    {
        push_char(&mut out, cs[i]);
        i = i + 1;
        assert(out@ == cs@.take(i as int));
    }
    assert(cs@.take(cs.len() as int) == cs@);
    out
}

/// Copies `s[a..b]`.
pub fn slice_chars(s: &[char], a: usize, b: usize) -> (out: Vec<char>)
    requires
        a <= b <= s.len(),
    ensures
        out@ == s@.subrange(a as int, b as int),
{
    let mut out: Vec<char> = Vec::new();
    let mut i = a;
    while i < b
        invariant
            a <= i <= b <= s.len(),
            out@ == s@.subrange(a as int, i as int),
        decreases b - i,
    {
        out.push(s[i]);
        i = i + 1;
        assert(out@ == s@.subrange(a as int, i as int));
    }
    out
}

/// Appends all of `extra` to `out`.
pub fn append(out: &mut Vec<char>, extra: &[char])
    ensures
        final(out)@ == old(out)@ + extra@,
{
    let mut i: usize = 0;
    while i < extra.len()
        invariant
            i <= extra.len(),
            out@ == old(out)@ + extra@.take(i as int),
        decreases extra.len() - i,
    {
        out.push(extra[i]);
        i = i + 1;
        assert(out@ == old(out)@ + extra@.take(i as int));
    }
    assert(extra@.take(extra.len() as int) == extra@);
}

/// Appends the characters of a string literal or slice to `out`.
pub fn append_str(out: &mut Vec<char>, extra: &str)
    ensures
        final(out)@ == old(out)@ + extra@,
{
    let cs = chars_of(extra);
    append(out, &cs);
}

/// `Unicode White_Space` test on one character.
pub fn is_ws_char(c: char) -> (b: bool)
    ensures
        b == is_ws(c),
{
    let u = c as u32;
    (0x09 <= u && u <= 0x0D) || u == 0x20 || u == 0x85 || u == 0xA0 || u == 0x1680 || (0x2000
        <= u && u <= 0x200A) || u == 0x2028 || u == 0x2029 || u == 0x202F || u == 0x205F || u
        == 0x3000
}

/// The bounds of `s` with surrounding whitespace removed.
pub fn trim_bounds(s: &[char]) -> (r: (usize, usize))
    ensures
        r.0 <= r.1 <= s.len(),
        trim(s@) == s@.subrange(r.0 as int, r.1 as int),
{
    let mut a: usize = 0;
    while a < s.len() && is_ws_char(s[a])
        invariant
            a <= s.len(),
            forall|j: int| 0 <= j < a ==> is_ws(#[trigger] s@[j]),
        decreases s.len() - a,
    {
        a = a + 1;
    }
    proof {
        lemma_trim_start_skip(s@, a as int);
    }
    let ghost rest = s@.subrange(a as int, s.len() as int);
    assert(trim_start(rest) == rest);
    let mut b: usize = s.len();
    while b > a && is_ws_char(s[b - 1])
        invariant
            a <= b <= s.len(),
            rest == s@.subrange(a as int, s.len() as int),
            forall|j: int| b <= j < s.len() ==> is_ws(#[trigger] s@[j]),
        decreases b,
    {
        b = b - 1;
    }
    proof {
        let k = b - a;
        assert forall|j: int| k <= j < rest.len() implies is_ws(#[trigger] rest[j]) by {
            assert(rest[j] == s@[j + a]);
        }
        lemma_trim_end_take(rest, k as int);
        assert(rest.subrange(0, k as int) == s@.subrange(a as int, b as int));
        let t = s@.subrange(a as int, b as int);
        if t.len() > 0 {
            assert(t.last() == s@[b - 1]);
        }
    }
    (a, b)
}

/// `s` with surrounding whitespace removed.
pub fn trim_chars(s: &[char]) -> (out: Vec<char>)
    ensures
        out@ == trim(s@),
{
    let (a, b) = trim_bounds(s);
    slice_chars(s, a, b)
}

/// Whether `p` occurs in `s` at index `i`.
pub fn occurs_at_exec(s: &[char], i: usize, p: &[char]) -> (b: bool)
    ensures
        b == occurs_at(s@, i as int, p@),
{
    if i > s.len() || p.len() > s.len() - i {
        return false;
    }
    let mut k: usize = 0;
    while k < p.len()
        invariant
            i + p.len() <= s.len(),
            k <= p.len(),
            forall|j: int| 0 <= j < k ==> s@[i + j] == p@[j],
        decreases p.len() - k,
    {
        if s[i + k] != p[k] {
            assert(s@.subrange(i as int, i + p.len())[k as int] != p@[k as int]);
            return false;
        }
        k = k + 1;
    }
    assert(s@.subrange(i as int, i + p.len()) == p@);
    true
}

pub fn starts_with_exec(s: &[char], p: &[char]) -> (b: bool)
    ensures
        b == starts_with(s@, p@),
{
    occurs_at_exec(s, 0, p)
}

pub fn ends_with_exec(s: &[char], p: &[char]) -> (b: bool)
    ensures
        b == ends_with(s@, p@),
{
    if p.len() > s.len() {
        return false;
    }
    occurs_at_exec(s, s.len() - p.len(), p)
}

/// The first index at or after `from` where `p` occurs.
pub fn find_from_exec(s: &[char], p: &[char], from: usize) -> (r: Option<usize>)
    ensures
        r matches Some(i) ==> find_from(s@, p@, from as int) == Some(i as int),
        r is None ==> find_from(s@, p@, from as int) is None,
{
    if p.len() == 0 {
        if from <= s.len() {
            assert(s@.subrange(from as int, from as int) =~= p@);
            return Some(from);
        }
        return None;
    }
    let mut i = from;
    while i <= s.len() && p.len() <= s.len() - i
        invariant
            from <= i,
            p.len() > 0,
            find_from(s@, p@, from as int) == find_from(s@, p@, i as int),
        decreases s.len() + 1 - i,
    {
        if occurs_at_exec(s, i, p) {
            return Some(i);
        }
        i = i + 1;
    }
    None
}

pub fn find_exec(s: &[char], p: &[char]) -> (r: Option<usize>)
    ensures
        r matches Some(i) ==> find(s@, p@) == Some(i as int),
        r is None ==> find(s@, p@) is None,
{
    find_from_exec(s, p, 0)
}

pub fn contains_exec(s: &[char], p: &[char]) -> (b: bool)
    ensures
        b == contains(s@, p@),
{
    find_exec(s, p).is_some()
}

/// The first index at or after `from` holding `c`.
pub fn find_char_from(s: &[char], c: char, from: usize) -> (r: Option<usize>)
    ensures
        r matches Some(i) ==> from <= i < s.len() && s@[i as int] == c && forall|j: int|
            from <= j < i ==> s@[j] != c,
        r is None ==> forall|j: int| from <= j < s.len() ==> s@[j] != c,
{
    let mut i = from;
    while i < s.len()
        invariant
            from <= i,
            forall|j: int| from <= j < i ==> s@[j] != c,
        decreases s.len() - i,
    {
        if s[i] == c {
            return Some(i);
        }
        i = i + 1;
    }
    None
}

/// The first index at or after `from` holding `c`.
pub open spec fn next_char(s: Seq<char>, c: char, from: int) -> Option<int>
    decreases s.len() - from,
{
    if from < 0 || from >= s.len() {
        None
    } else if s[from] == c {
        Some(from)
    } else {
        next_char(s, c, from + 1)
    }
}

pub proof fn lemma_next_char_none(s: Seq<char>, c: char, from: int)
    requires
        0 <= from,
        forall|j: int| from <= j < s.len() ==> s[j] != c,
    ensures
        next_char(s, c, from) is None,
    decreases s.len() - from,
{
    if from < s.len() {
        lemma_next_char_none(s, c, from + 1);
    }
}

pub proof fn lemma_next_char_some(s: Seq<char>, c: char, from: int, i: int)
    requires
        0 <= from <= i < s.len(),
        s[i] == c,
        forall|j: int| from <= j < i ==> s[j] != c,
    ensures
        next_char(s, c, from) == Some(i),
    decreases i - from,
{
    if from < i {
        lemma_next_char_some(s, c, from + 1, i);
    }
}

/// What `next_char` finds: the first `c` at or after `from`.
pub proof fn lemma_next_char_facts(s: Seq<char>, c: char, from: int)
    requires
        0 <= from,
    ensures
        next_char(s, c, from) matches Some(i) ==> from <= i < s.len() && s[i] == c && forall|j: int|
            from <= j < i ==> s[j] != c,
        next_char(s, c, from) is None ==> forall|j: int| from <= j < s.len() ==> s[j] != c,
    decreases s.len() - from,
{
    if from < s.len() {
        lemma_next_char_facts(s, c, from + 1);
    }
}

/// `find_char_from`, stated by `next_char`.
pub fn next_char_exec(s: &[char], c: char, from: usize) -> (r: Option<usize>)
    ensures
        r matches Some(i) ==> next_char(s@, c, from as int) == Some(i as int) && from <= i < s.len(),
        r is None ==> next_char(s@, c, from as int) is None,
{
    let r = find_char_from(s, c, from);
    proof {
        match r {
            Some(i) => lemma_next_char_some(s@, c, from as int, i as int),
            None => lemma_next_char_none(s@, c, from as int),
        }
    }
    r
}

/// Whether `c` occurs in `s`.
pub fn has_char(s: &[char], c: char) -> (b: bool)
    ensures
        b == s@.contains(c),
{
    match find_char_from(s, c, 0) {
        Some(i) => {
            assert(s@[i as int] == c);
            true
        },
        None => false,
    }
}

/// The last index holding `c`.
pub fn rfind_char_exec(s: &[char], c: char) -> (r: Option<usize>)
    ensures
        r matches Some(i) ==> rfind_char(s@, c) == Some(i as int) && i < s.len() && s@[i as int]
            == c,
        r is None ==> rfind_char(s@, c) is None,
{
    let mut e: usize = s.len();
    assert(s@.subrange(0, s.len() as int) == s@);
    while e > 0 && s[e - 1] != c
        invariant
            e <= s.len(),
            rfind_char(s@, c) == rfind_char(s@.subrange(0, e as int), c),
        decreases e,
    {
        assert(s@.subrange(0, e as int).drop_last() == s@.subrange(0, e - 1));
        e = e - 1;
    }
    if e == 0 {
        None
    } else {
        Some(e - 1)
    }
}

pub fn eq_chars(a: &[char], b: &[char]) -> (r: bool)
    ensures
        r == (a@ == b@),
{
    if a.len() != b.len() {
        return false;
    }
    let r = occurs_at_exec(a, 0, b);
    assert(a@.subrange(0, a@.len() as int) == a@);
    r
}

pub fn lower_char(c: char) -> (r: char)
    ensures
        r == lower(c),
{
    if 'A' <= c && c <= 'Z' {
        ((c as u8) + 32) as char
    } else {
        c
    }
}

pub fn upper_char(c: char) -> (r: char)
    ensures
        r == upper(c),
{
    if 'a' <= c && c <= 'z' {
        ((c as u8) - 32) as char
    } else {
        c
    }
}

/// ASCII lower-casing, as `str::to_ascii_lowercase` gives it.
pub fn lower_vec(s: &[char]) -> (out: Vec<char>)
    ensures
        out@ == lower_seq(s@),
{
    let mut out: Vec<char> = Vec::new();
    let mut i: usize = 0;
    while i < s.len()
        invariant
            i <= s.len(),
            out@ == lower_seq(s@.take(i as int)),
        decreases s.len() - i,
    {
        out.push(lower_char(s[i]));
        i = i + 1;
        assert(out@ == lower_seq(s@.take(i as int)));
    }
    assert(s@.take(s.len() as int) == s@);
    out
}

/// ASCII upper-casing, as `str::to_ascii_uppercase` gives it.
pub fn upper_vec(s: &[char]) -> (out: Vec<char>)
    ensures
        out@ == upper_seq(s@),
{
    let mut out: Vec<char> = Vec::new();
    let mut i: usize = 0;
    while i < s.len()
        invariant
            i <= s.len(),
            out@ == upper_seq(s@.take(i as int)),
        decreases s.len() - i,
    {
        out.push(upper_char(s[i]));
        i = i + 1;
        assert(out@ == upper_seq(s@.take(i as int)));
    }
    assert(s@.take(s.len() as int) == s@);
    out
}

/// Appends the decimal rendering of `n` to `out`.
pub fn push_dec(out: &mut Vec<char>, n: u64)
    ensures
        final(out)@ == old(out)@ + dec(n as nat),
    decreases n,
{
    if n < 10 {
        out.push(((48u8 + (n as u8)) as char));
        assert(dec(n as nat) == seq![(('0' as u32) + n) as char]);
    } else {
        push_dec(out, n / 10);
        out.push(((48u8 + ((n % 10) as u8)) as char));
        assert(dec(n as nat) == dec((n / 10) as nat).push((('0' as u32) + (n % 10)) as char));
    }
}

/// `str::parse::<u32>` on a run of characters.
pub fn parse_u32_exec(s: &[char]) -> (r: Option<u32>)
    ensures
        r == parse_u32(s@),
{
    let start: usize = if s.len() > 0 && s[0] == '+' {
        1
    } else {
        0
    };
    let ghost d = s@.subrange(start as int, s.len() as int);
    assert(d == unsigned_digits(s@));
    if start >= s.len() {
        return None;
    }
    let mut v: u64 = 0;
    let mut i = start;
    while i < s.len()
        invariant
            start <= i <= s.len(),
            d == s@.subrange(start as int, s.len() as int),
            d == unsigned_digits(s@),
            all_digits(s@.subrange(start as int, i as int)),
            v == digits_value(s@.subrange(start as int, i as int)),
            v <= u32::MAX,
        decreases s.len() - i,
    {
        let c = s[i];
        if !('0' <= c && c <= '9') {
            assert(d[i - start] == c);
            assert(!is_digit(d[i - start]));
            assert(!all_digits(d));
            return None;
        }
        let ghost pre = s@.subrange(start as int, i as int);
        assert(s@.subrange(start as int, i + 1) == pre.push(c));
        proof {
            lemma_digits_value_push(pre, c);
        }
        let nv = v * 10 + ((c as u32) - ('0' as u32)) as u64;
        i = i + 1;
        if nv > 0xFFFF_FFFF {
            proof {
                assert(d.take(i - start) == s@.subrange(start as int, i as int));
                lemma_digits_value_prefix_mono(d, (i - start) as int);
            }
            return None;
        }
        v = nv;
    }
    assert(s@.subrange(start as int, s.len() as int) == d);
    Some(v as u32)
}

/// A digit run's value is at least that of any of its prefixes.
pub proof fn lemma_digits_value_prefix_mono(d: Seq<char>, k: int)
    requires
        0 <= k <= d.len(),
    ensures
        digits_value(d.take(k)) <= digits_value(d),
    decreases d.len() - k,
{
    if k < d.len() {
        lemma_digits_value_prefix_mono(d, k + 1);
        assert(d.take(k + 1).drop_last() == d.take(k));
    } else {
        assert(d.take(k) == d);
    }
}

/// The value of a run of hex digits.
pub open spec fn hex_digits_value(s: Seq<char>) -> nat
    decreases s.len(),
{
    if s.len() == 0 {
        0
    } else {
        hex_digits_value(s.drop_last()) * 16 + hex_val(s.last())
    }
}

pub open spec fn all_hex(s: Seq<char>) -> bool {
    forall|i: int| 0 <= i < s.len() ==> is_hex(#[trigger] s[i])
}

/// `u32::from_str_radix(s, 16)`: an optional `+`, then at least one hex
/// digit, the value fitting in 32 bits.
pub open spec fn parse_hex_u32(s: Seq<char>) -> Option<u32> {
    let d = unsigned_digits(s);
    if d.len() > 0 && all_hex(d) && hex_digits_value(d) <= u32::MAX {
        Some(hex_digits_value(d) as u32)
    } else {
        None
    }
}

pub proof fn lemma_hex_digits_value_prefix_mono(d: Seq<char>, k: int)
    requires
        0 <= k <= d.len(),
    ensures
        hex_digits_value(d.take(k)) <= hex_digits_value(d),
    decreases d.len() - k,
{
    if k < d.len() {
        lemma_hex_digits_value_prefix_mono(d, k + 1);
        assert(d.take(k + 1).drop_last() == d.take(k));
    } else {
        assert(d.take(k) == d);
    }
}

fn hex_val_exec(c: char) -> (v: u64)
    requires
        is_hex(c),
    ensures
        v == hex_val(c),
{
    if '0' <= c && c <= '9' {
        ((c as u32) - ('0' as u32)) as u64
    } else if 'a' <= c && c <= 'f' {
        ((c as u32) - ('a' as u32) + 10) as u64
    } else {
        ((c as u32) - ('A' as u32) + 10) as u64
    }
}

pub fn parse_hex_u32_exec(s: &[char]) -> (r: Option<u32>)
    ensures
        r == parse_hex_u32(s@),
{
    let start: usize = if s.len() > 0 && s[0] == '+' {
        1
    } else {
        0
    };
    let ghost d = s@.subrange(start as int, s.len() as int);
    assert(d == unsigned_digits(s@));
    if start >= s.len() {
        return None;
    }
    let mut v: u64 = 0;
    let mut i = start;
    while i < s.len()
        invariant
            start <= i <= s.len(),
            d == s@.subrange(start as int, s.len() as int),
            d == unsigned_digits(s@),
            all_hex(s@.subrange(start as int, i as int)),
            v == hex_digits_value(s@.subrange(start as int, i as int)),
            v <= u32::MAX,
        decreases s.len() - i,
    {
        let c = s[i];
        if !(('0' <= c && c <= '9') || ('a' <= c && c <= 'f') || ('A' <= c && c <= 'F')) {
            assert(d[i - start] == c);
            assert(!is_hex(d[i - start]));
            assert(!all_hex(d));
            return None;
        }
        let ghost pre = s@.subrange(start as int, i as int);
        assert(s@.subrange(start as int, i + 1) == pre.push(c));
        assert(s@.subrange(start as int, i + 1).drop_last() == pre);
        let nv = v * 16 + hex_val_exec(c);
        i = i + 1;
        if nv > 0xFFFF_FFFF {
            proof {
                assert(d.take(i - start) == s@.subrange(start as int, i as int));
                lemma_hex_digits_value_prefix_mono(d, (i - start) as int);
            }
            return None;
        }
        v = nv;
    }
    assert(s@.subrange(start as int, s.len() as int) == d);
    Some(v as u32)
}

/// Where `find_from` lands: at or after `from`, with room for the pattern.
pub proof fn lemma_find_from_bounds(s: Seq<char>, p: Seq<char>, from: int)
    ensures
        find_from(s, p, from) matches Some(i) ==> from <= i && i + p.len() <= s.len(),
    decreases s.len() + 1 - from,
{
    if !(from < 0 || from + p.len() > s.len()) {
        lemma_find_from_bounds(s, p, from + 1);
    }
}

/// The lowercase hex digit for `d` (below 16).
pub open spec fn hex_digit(d: nat) -> char {
    if d < 10 {
        ((('0' as u32) + d) as char)
    } else {
        ((('a' as u32) + d - 10) as char)
    }
}

/// The last `n` hex digits of `v`, most significant first, zero-padded.
pub open spec fn hex_fixed(v: nat, n: nat) -> Seq<char>
    decreases n,
{
    if n == 0 {
        Seq::empty()
    } else {
        hex_fixed(v / 16, (n - 1) as nat).push(hex_digit(v % 16))
    }
}

fn hex_digit_exec(d: u8) -> (c: char)
    requires
        d < 16,
    ensures
        c == hex_digit(d as nat),
{
    if d < 10 {
        (48u8 + d) as char
    } else {
        (87u8 + d) as char
    }
}

/// Appends the last `n` hex digits of `v`, zero-padded.
pub fn push_hex_fixed(out: &mut Vec<char>, v: u128, n: usize)
    ensures
        final(out)@ == old(out)@ + hex_fixed(v as nat, n as nat),
        hex_fixed(v as nat, n as nat).len() == n,
    decreases n,
{
    if n == 0 {
        assert(old(out)@ + Seq::<char>::empty() == old(out)@);
        return;
    }
    push_hex_fixed(out, v / 16, n - 1);
    out.push(hex_digit_exec((v % 16) as u8));
}

/// `s` with every leading copy of the non-empty `p` removed, as
/// `str::trim_start_matches` does.
pub open spec fn strip_all_prefix(s: Seq<char>, p: Seq<char>) -> Seq<char>
    decreases s.len(),
{
    if p.len() > 0 && starts_with(s, p) {
        strip_all_prefix(s.skip(p.len() as int), p)
    } else {
        s
    }
}

/// `s` without its trailing `c`s.
pub open spec fn strip_trailing(s: Seq<char>, c: char) -> Seq<char>
    decreases s.len(),
{
    if s.len() > 0 && s.last() == c {
        strip_trailing(s.drop_last(), c)
    } else {
        s
    }
}

/// `s` without its leading `c`s.
pub open spec fn strip_leading_char(s: Seq<char>, c: char) -> Seq<char>
    decreases s.len(),
{
    if s.len() > 0 && s[0] == c {
        strip_leading_char(s.drop_first(), c)
    } else {
        s
    }
}

/// `str::trim_matches(c)`: `s` without its leading and trailing `c`s.
pub open spec fn trim_matches(s: Seq<char>, c: char) -> Seq<char> {
    strip_trailing(strip_leading_char(s, c), c)
}

/// `s` with every leading copy of `p` removed (`trim_start_matches(p)`).
pub fn strip_all_prefix_exec(s: &[char], p: &[char]) -> (out: Vec<char>)
    ensures
        out@ == strip_all_prefix(s@, p@),
{
    let mut i: usize = 0;
    assert(s@.skip(0) == s@);
    while p.len() > 0 && i <= s.len() && occurs_at_exec(s, i, p)
        invariant
            i <= s.len(),
            strip_all_prefix(s@, p@) == strip_all_prefix(s@.skip(i as int), p@),
        decreases s.len() - i,
    {
        assert(s@.skip(i as int).subrange(0, p@.len() as int) == s@.subrange(i as int, i + p@.len()));
        assert(starts_with(s@.skip(i as int), p@));
        assert(s@.skip(i as int).skip(p@.len() as int) == s@.skip(i + p@.len()));
        i = i + p.len();
    }
    proof {
        if p.len() > 0 {
            if starts_with(s@.skip(i as int), p@) {
                assert(s@.skip(i as int).subrange(0, p@.len() as int) == s@.subrange(i as int, i + p@.len()));
                assert(occurs_at(s@, i as int, p@));
            }
        }
    }
    slice_chars(s, i, s.len())
}

/// `s` without its leading and trailing `c`s.
pub fn trim_matches_exec(s: &[char], c: char) -> (out: Vec<char>)
    ensures
        out@ == trim_matches(s@, c),
{
    let mut a: usize = 0;
    assert(s@.skip(0) == s@);
    while a < s.len() && s[a] == c
        invariant
            a <= s.len(),
            strip_leading_char(s@, c) == strip_leading_char(s@.skip(a as int), c),
        decreases s.len() - a,
    {
        assert(s@.skip(a as int).drop_first() == s@.skip(a + 1));
        a = a + 1;
    }
    let mut b: usize = s.len();
    assert(s@.skip(a as int) == s@.subrange(a as int, s.len() as int));
    while b > a && s[b - 1] == c
        invariant
            a <= b <= s.len(),
            strip_trailing(s@.skip(a as int), c) == strip_trailing(s@.subrange(a as int, b as int), c),
        decreases b,
    {
        assert(s@.subrange(a as int, b as int).drop_last() == s@.subrange(a as int, b - 1));
        b = b - 1;
    }
    slice_chars(s, a, b)
}

/// The texts of `parts`, one after another.
pub fn joined(parts: &[&str]) -> (s: String)
    ensures
        s@ == concat_views(parts@),
{
    let mut out: Vec<char> = Vec::new();
    let mut i: usize = 0;
    while i < parts.len()
        invariant
            i <= parts.len(),
            out@ == concat_views(parts@.take(i as int)),
        decreases parts.len() - i,
    {
        assert(parts@.take(i + 1).drop_last() == parts@.take(i as int));
        append_str(&mut out, parts[i]);
        i = i + 1;
    }
    assert(parts@.take(parts.len() as int) == parts@);
    string_of(&out)
}

/// The texts of a list, one after another.
pub open spec fn concat_views(parts: Seq<&str>) -> Seq<char>
    decreases parts.len(),
{
    if parts.len() == 0 {
        Seq::empty()
    } else {
        concat_views(parts.drop_last()) + parts.last()@
    }
}

/// Every character of a hex rendering is a hex digit.
pub proof fn lemma_hex_fixed_is_hex(v: nat, n: nat)
    ensures
        forall|i: int| 0 <= i < hex_fixed(v, n).len() ==> is_hex(#[trigger] hex_fixed(v, n)[i]),
    decreases n,
{
    if n > 0 {
        lemma_hex_fixed_is_hex(v / 16, (n - 1) as nat);
        let d = v % 16;
        assert(is_hex(hex_digit(d)));
        let prev = hex_fixed(v / 16, (n - 1) as nat);
        assert(hex_fixed(v, n) == prev.push(hex_digit(d)));
        assert forall|i: int| 0 <= i < hex_fixed(v, n).len() implies is_hex(
            #[trigger] hex_fixed(v, n)[i],
        ) by {
            if i < prev.len() {
                assert(hex_fixed(v, n)[i] == prev[i]);
            }
        }
    }
}

/// A hex rendering has the length asked for.
pub proof fn lemma_hex_fixed_len(v: nat, n: nat)
    ensures
        hex_fixed(v, n).len() == n,
    decreases n,
{
    if n > 0 {
        lemma_hex_fixed_len(v / 16, (n - 1) as nat);
    }
}

/// Trimming keeps only characters the text had.
pub proof fn lemma_trim_keeps_chars(s: Seq<char>, c: char)
    requires
        forall|j: int| 0 <= j < s.len() ==> s[j] != c,
    ensures
        forall|j: int| 0 <= j < trim(s).len() ==> #[trigger] trim(s)[j] != c,
{
    lemma_trim_start_keeps(s, c);
    lemma_trim_end_keeps(trim_start(s), c);
}

proof fn lemma_trim_start_keeps(s: Seq<char>, c: char)
    requires
        forall|j: int| 0 <= j < s.len() ==> s[j] != c,
    ensures
        forall|j: int| 0 <= j < trim_start(s).len() ==> #[trigger] trim_start(s)[j] != c,
    decreases s.len(),
{
    if s.len() > 0 && is_ws(s[0]) {
        let t = s.drop_first();
        assert forall|j: int| 0 <= j < t.len() implies t[j] != c by {
            assert(t[j] == s[j + 1]);
        }
        lemma_trim_start_keeps(t, c);
        assert(trim_start(s) == trim_start(t));
    } else {
        assert(trim_start(s) == s);
    }
}

proof fn lemma_trim_end_keeps(s: Seq<char>, c: char)
    requires
        forall|j: int| 0 <= j < s.len() ==> s[j] != c,
    ensures
        forall|j: int| 0 <= j < trim_end(s).len() ==> #[trigger] trim_end(s)[j] != c,
    decreases s.len(),
{
    if s.len() > 0 && is_ws(s.last()) {
        let t = s.drop_last();
        assert forall|j: int| 0 <= j < t.len() implies t[j] != c by {
            assert(t[j] == s[j]);
        }
        lemma_trim_end_keeps(t, c);
        assert(trim_end(s) == trim_end(t));
    } else {
        assert(trim_end(s) == s);
    }
}

/// A lowercase hex digit.
pub open spec fn is_lower_hex(c: char) -> bool {
    ('0' <= c <= '9') || ('a' <= c <= 'f')
}

/// Every character of a hex rendering is a lowercase hex digit.
pub proof fn lemma_hex_fixed_is_lower_hex(v: nat, n: nat)
    ensures
        forall|i: int| 0 <= i < hex_fixed(v, n).len() ==> is_lower_hex(#[trigger] hex_fixed(v, n)[i]),
    decreases n,
{
    if n > 0 {
        lemma_hex_fixed_is_lower_hex(v / 16, (n - 1) as nat);
        let d = v % 16;
        assert(is_lower_hex(hex_digit(d)));
        let prev = hex_fixed(v / 16, (n - 1) as nat);
        assert(hex_fixed(v, n) == prev.push(hex_digit(d)));
        assert forall|i: int| 0 <= i < hex_fixed(v, n).len() implies is_lower_hex(
            #[trigger] hex_fixed(v, n)[i],
        ) by {
            if i < prev.len() {
                assert(hex_fixed(v, n)[i] == prev[i]);
            }
        }
    }
}

} // verus!