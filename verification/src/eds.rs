//! Contacts from Evolution Data Server.
//!
//! EDS is the contact store behind GNOME Contacts and Evolution. It has no
//! file to read: everything goes through the session bus, which is the
//! caller's. What the conversation decides lives here: which sources are
//! address books and what they are called, which address book factory to
//! talk to, the order books are listed in, and the contacts a book's vCards
//! hold.
use vstd::prelude::*;

use crate::audio::{
    device_views, sort_devices, sorted_devices, Device, DeviceOrder,
};

use crate::model::{
    Contact, RecordSource,
};
use crate::text::{
    all_digits, append_str, chars_of, contains, contains_exec, parse_u32, parse_u32_exec, slice_chars, starts_with, starts_with_exec, string_of, trim, trim_chars,
};
use crate::vcard::{
    is_card_contact, lines_from, named_cards, parse, split_lines, string_views,
};

verus! {

broadcast use vstd::string::group_string_axioms;

/// The source registry's bus name.
pub const SOURCES: &'static str = "org.gnome.evolution.dataserver.Sources5";

/// The source registry's object path.
pub const SOURCE_MANAGER_PATH: &'static str = "/org/gnome/evolution/dataserver/SourceManager";

/// The address book factory's bus names start with this, followed by the
/// interface generation.
pub const FACTORY_PREFIX: &'static str = "org.gnome.evolution.dataserver.AddressBook";

pub const FACTORY_PATH: &'static str = "/org/gnome/evolution/dataserver/AddressBookFactory";

pub const FACTORY_IFACE: &'static str = "org.gnome.evolution.dataserver.AddressBookFactory";

pub const BOOK_IFACE: &'static str = "org.gnome.evolution.dataserver.AddressBook";

/// An S-expression matching every contact.
///
/// The documented-looking `(contains "x" "")` returns nothing — "x" is not a
/// field, and a `contains` against an absent field matches no card however
/// empty the needle. `#t` is the literal true the query evaluator accepts.
pub const MATCH_ALL: &'static str = "#t";

/// Marks a source as an address book rather than a calendar or mail account.
pub const ADDRESS_BOOK_SECTION: &'static str = "[Address Book]";

/// One address book EDS knows about.
#[derive(Debug, Clone, PartialEq, Eq)]
pub struct Book {
    pub uid: String,
    pub name: String,
}

/// Whether a source's key file switches it off.
pub open spec fn disabled_in(lines: Seq<Seq<char>>) -> bool {
    exists|i: int|
        0 <= i < lines.len() && (trim(#[trigger] lines[i]) == "Enabled=false"@ || trim(lines[i])
            == "Enabled=FALSE"@)
}

/// The first non-empty bare `DisplayName=` value among trimmed lines from
/// `k` on. Translated `DisplayName[xx]=` keys are not it.
pub open spec fn display_name_from(lines: Seq<Seq<char>>, k: int) -> Option<Seq<char>>
    decreases lines.len() - k,
{
    if k < 0 || k >= lines.len() {
        None
    } else {
        let line = trim(lines[k]);
        if starts_with(line, "DisplayName="@) {
            let name = line.skip(12);
            if name.len() > 0 {
                Some(name)
            } else {
                None
            }
        } else {
            display_name_from(lines, k + 1)
        }
    }
}

/// What a source's key file makes of it: nothing unless it is an enabled
/// address book; named by its bare `DisplayName`, else by its uid.
pub open spec fn source_book(uid: Seq<char>, data: Seq<char>) -> Option<(Seq<char>, Seq<char>)> {
    let lines = lines_from(data, 0);
    if !contains(data, ADDRESS_BOOK_SECTION@) || disabled_in(lines) {
        None
    } else {
        match display_name_from(lines, 0) {
            Some(name) => Some((uid, name)),
            None => Some((uid, uid)),
        }
    }
}

fn eq_lit(s: &[char], lit: &str) -> (b: bool)
    ensures
        b == (s@ == lit@),
{
    crate::text::eq_chars(s, &chars_of(lit))
}

/// Turns a source's key file into a [`Book`], or `None` if it is not an
/// enabled address book.
pub fn describe_source(uid: &str, data: &str) -> (r: Option<Book>)
    ensures
        match r {
            Some(b) => source_book(uid@, data@) == Some((b.uid@, b.name@)),
            None => source_book(uid@, data@) is None,
        },
{
    let d = chars_of(data);
    if !contains_exec(&d, &chars_of(ADDRESS_BOOK_SECTION)) {
        return None;
    }
    let lines = split_lines(&d);
    let ghost ls = lines@.map_values(|l: Vec<char>| l@);
    let mut i: usize = 0;
    while i < lines.len()
        invariant
            i <= lines.len(),
            ls == lines@.map_values(|l: Vec<char>| l@),
            ls == lines_from(data@, 0),
            contains(data@, ADDRESS_BOOK_SECTION@),
            forall|j: int|
                0 <= j < i ==> !(trim(#[trigger] ls[j]) == "Enabled=false"@ || trim(ls[j])
                    == "Enabled=FALSE"@),
        decreases lines.len() - i,
    {
        let t = trim_chars(&lines[i]);
        assert(ls[i as int] == lines@[i as int]@);
        if eq_lit(&t, "Enabled=false") || eq_lit(&t, "Enabled=FALSE") {
            assert(trim(ls[i as int]) == "Enabled=false"@ || trim(ls[i as int]) == "Enabled=FALSE"@);
            assert(disabled_in(ls));
            return None;
        }
        i = i + 1;
    }
    assert(!disabled_in(ls));
    let mut k: usize = 0;
    while k < lines.len()
        invariant
            k <= lines.len(),
            ls == lines@.map_values(|l: Vec<char>| l@),
            ls == lines_from(data@, 0),
            contains(data@, ADDRESS_BOOK_SECTION@),
            !disabled_in(ls),
            display_name_from(ls, 0) == display_name_from(ls, k as int),
        decreases lines.len() - k,
    {
        let t = trim_chars(&lines[k]);
        assert(ls[k as int] == lines@[k as int]@);
        proof {
            reveal_strlit("DisplayName=");
        }
        if starts_with_exec(&t, &chars_of("DisplayName=")) {
            let name = slice_chars(&t, 12, t.len());
            assert(name@ == t@.skip(12));
            if name.len() > 0 {
                return Some(Book { uid: uid.to_string(), name: string_of(&name) });
            }
            return Some(Book { uid: uid.to_string(), name: uid.to_string() });
        }
        k = k + 1;
    }
    Some(Book { uid: uid.to_string(), name: uid.to_string() })
}

/// The interface generation of a factory bus name: what follows the prefix,
/// when that is a non-empty run of digits.
pub open spec fn factory_generation(name: Seq<char>) -> Option<Seq<char>> {
    if starts_with(name, FACTORY_PREFIX@) {
        let rest = name.skip(FACTORY_PREFIX@.len() as int);
        if rest.len() > 0 && all_digits(rest) {
            Some(rest)
        } else {
            None
        }
    } else {
        None
    }
}

/// The number a generation reads as; one too large to read counts as 0.
pub open spec fn generation_value(rest: Seq<char>) -> u32 {
    match parse_u32(rest) {
        Some(v) => v,
        None => 0,
    }
}

/// The factory to talk to among `names[..k]`: of those with a generation,
/// the highest, the last of equals winning.
pub open spec fn best_factory(names: Seq<Seq<char>>, k: int) -> Option<int>
    decreases k,
{
    if k <= 0 || k > names.len() {
        None
    } else {
        let prev = best_factory(names, k - 1);
        match factory_generation(names[k - 1]) {
            None => prev,
            Some(g) => match prev {
                None => Some(k - 1),
                Some(p) => if generation_value(g) >= generation_value(
                    factory_generation(names[p])->0,
                ) {
                    Some(k - 1)
                } else {
                    prev
                },
            },
        }
    }
}

fn factory_generation_exec(name: &[char]) -> (r: Option<u32>)
    ensures
        match factory_generation(name@) {
            Some(g) => r == Some(generation_value(g)),
            None => r is None,
        },
{
    let prefix = chars_of(FACTORY_PREFIX);
    if !starts_with_exec(name, &prefix) {
        return None;
    }
    let rest = slice_chars(name, prefix.len(), name.len());
    assert(rest@ == name@.skip(FACTORY_PREFIX@.len() as int));
    if rest.len() == 0 {
        return None;
    }
    let mut i: usize = 0;
    while i < rest.len()
        invariant
            i <= rest.len(),
            rest@.len() > 0,
            rest@ == name@.skip(FACTORY_PREFIX@.len() as int),
            starts_with(name@, FACTORY_PREFIX@),
            forall|j: int| 0 <= j < i ==> crate::text::is_digit(#[trigger] rest@[j]),
        decreases rest.len() - i,
    {
        if !('0' <= rest[i] && rest[i] <= '9') {
            assert(!crate::text::is_digit(rest@[i as int]));
            assert(!all_digits(rest@));
            return None;
        }
        i = i + 1;
    }
    match parse_u32_exec(&rest) {
        Some(v) => Some(v),
        None => Some(0),
    }
}

/// The current address book factory's bus name among the activatable
/// names: the highest interface generation, found by matching the prefix so
/// the generation does not have to be pinned.
pub fn factory_name(names: &[String]) -> (r: Result<String, String>)
    ensures
        ({
            let views = string_views(names@);
            match best_factory(views, views.len() as int) {
                Some(i) => r matches Ok(n) && n@ == views[i],
                None => r matches Err(m) && m@
                    == "Evolution Data Server is not available on the session bus"@,
            }
        }),
{
    let ghost views = string_views(names@);
    let mut best: Option<usize> = None;
    let mut best_gen: u32 = 0;
    let mut k: usize = 0;
    while k < names.len()
        invariant
            k <= names.len(),
            views == string_views(names@),
            views.len() == names.len(),
            best_factory(views, k as int) is None <==> best is None,
            best matches Some(b) ==> best_factory(views, k as int) == Some(b as int) && b < k
                && factory_generation(views[b as int]) is Some && best_gen == generation_value(
                factory_generation(views[b as int])->0,
            ),
        decreases names.len() - k,
    {
        let name = chars_of(names[k].as_str());
        assert(views[k as int] == names@[k as int]@);
        match factory_generation_exec(&name) {
            Some(g) => {
                match best {
                    None => {
                        best = Some(k);
                        best_gen = g;
                    },
                    Some(_) => {
                        if g >= best_gen {
                            best = Some(k);
                            best_gen = g;
                        }
                    },
                }
            },
            None => {},
        }
        k = k + 1;
    }
    assert(k == names.len() && views.len() == names.len());
    match best {
        Some(i) => Ok(names[i].clone()),
        None => Err("Evolution Data Server is not available on the session bus".to_string()),
    }
}

/// Books as `(uid, name)` pairs.
pub open spec fn book_views(s: Seq<Book>) -> Seq<(Seq<char>, Seq<char>)> {
    s.map_values(|b: Book| (b.uid@, b.name@))
}

/// Sorts books by name, then uid: the registry hands them back in hash
/// order, and a stable list keeps the contact list from reshuffling.
pub fn sort_books(books: Vec<Book>) -> (out: Vec<Book>)
    ensures
        book_views(out@) == sorted_devices(DeviceOrder::NameThenId, book_views(books@)),
{
    let mut pairs: Vec<Device> = Vec::new();
    let mut i: usize = 0;
    while i < books.len()
        invariant
            i <= books.len(),
            device_views(pairs@) == book_views(books@).take(i as int),
        decreases books.len() - i,
    {
        let ghost before = pairs@;
        let b = &books[i];
        let entry = (b.uid.clone(), b.name.clone());
        pairs.push(entry);
        assert(device_views(pairs@) =~= device_views(before).push((entry.0@, entry.1@)));
        assert(book_views(books@).take(i + 1) =~= book_views(books@).take(i as int).push(
            (books@[i as int].uid@, books@[i as int].name@),
        ));
        i = i + 1;
    }
    assert(book_views(books@).take(books.len() as int) == book_views(books@));
    let sorted = sort_devices(DeviceOrder::NameThenId, pairs);
    let mut out: Vec<Book> = Vec::new();
    let mut j: usize = 0;
    while j < sorted.len()
        invariant
            j <= sorted.len(),
            book_views(out@) == device_views(sorted@).take(j as int),
        decreases sorted.len() - j,
    {
        let ghost before = out@;
        let b = Book { uid: sorted[j].0.clone(), name: sorted[j].1.clone() };
        out.push(b);
        assert(book_views(out@) =~= book_views(before).push((b.uid@, b.name@)));
        assert(device_views(sorted@).take(j + 1) =~= device_views(sorted@).take(j as int).push(
            (sorted@[j as int].0@, sorted@[j as int].1@),
        ));
        j = j + 1;
    }
    assert(device_views(sorted@).take(sorted.len() as int) == device_views(sorted@));
    out
}

/// The source a book's contacts are recorded with: `Evolution (<name>)`.
pub open spec fn book_source_label(name: Seq<char>) -> Seq<char> {
    "Evolution ("@ + name + ")"@
}

/// The contacts of one address book: each of its vCards that has a name,
/// in order, with the `eds` prefix and the book as their source.
pub fn book_contacts(book: &Book, vcards: &[String]) -> (contacts: Vec<Contact>)
    ensures
        contacts@.len() == named_cards(string_views(vcards@)).len(),
        forall|i: int|
            0 <= i < contacts@.len() ==> is_card_contact(
                #[trigger] contacts@[i],
                named_cards(string_views(vcards@))[i],
                "eds"@,
            ) && (contacts@[i].source matches RecordSource::Other(label) && label@
                == book_source_label(book.name@)),
{
    let mut label: Vec<char> = Vec::new();
    append_str(&mut label, "Evolution (");
    append_str(&mut label, book.name.as_str());
    append_str(&mut label, ")");
    let source_text = string_of(&label);
    let ghost cv = string_views(vcards@);
    let mut contacts: Vec<Contact> = Vec::new();
    let mut i: usize = 0;
    while i < vcards.len()
        invariant
            i <= vcards.len(),
            cv == string_views(vcards@),
            source_text@ == book_source_label(book.name@),
            contacts@.len() == named_cards(cv.take(i as int)).len(),
            forall|k: int|
                0 <= k < contacts@.len() ==> is_card_contact(
                    #[trigger] contacts@[k],
                    named_cards(cv.take(i as int))[k],
                    "eds"@,
                ) && (contacts@[k].source matches RecordSource::Other(label) && label@
                    == book_source_label(book.name@)),
        decreases vcards.len() - i,
    {
        assert(cv.take(i + 1).drop_last() == cv.take(i as int));
        assert(cv.take(i + 1).last() == vcards@[i as int]@);
        let source = RecordSource::Other(source_text.clone());
        if let Some(c) = parse(vcards[i].as_str(), "eds", source) {
            contacts.push(c);
        }
        i = i + 1;
    }
    assert(cv.take(vcards.len() as int) == cv);
    contacts
}

} // verus!
