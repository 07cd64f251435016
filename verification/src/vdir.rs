//! Contacts from a directory of `.vcf` files.
//!
//! One vCard per file in a directory, collections nesting one level, is the
//! file convention `vdirsyncer`, Radicale, khard and KDE's directory-backed
//! address books share. Walking the directory is the caller's; which files
//! count and what a file's cards become is decided here.
use vstd::prelude::*;

use crate::model::{Contact, RecordSource};
use crate::text::{append_str, chars_of, lower_seq, lower_vec, rfind_char, rfind_char_exec, slice_chars, string_of};
use crate::vcard::{cards_from, is_card_contact, named_cards, parse, split_cards, string_views};

verus! {

broadcast use vstd::string::group_string_axioms;

/// Directories searched when none is configured, relative to `$HOME`, in
/// order of preference.
pub const DEFAULT_DIRS: [&'static str; 2] = [".local/share/contacts", ".contacts"];

/// A directory of vCards.
#[derive(Debug, Clone)]
pub struct VdirStore {
    root: String,
}

impl VdirStore {
    pub closed spec fn spec_root(&self) -> Seq<char> {
        self.root@
    }

    pub fn new(root: String) -> (s: Self)
        ensures
            s.spec_root() == root@,
    {
        VdirStore { root }
    }

    pub fn root(&self) -> (r: &str)
        ensures
            r@ == self.spec_root(),
    {
        self.root.as_str()
    }
}

/// A file name's extension, as `Path::extension` finds it: after the last
/// `.`, unless that dot starts the name.
pub open spec fn extension(name: Seq<char>) -> Option<Seq<char>> {
    match rfind_char(name, '.') {
        Some(i) => if i > 0 {
            Some(name.skip(i + 1))
        } else {
            None
        },
        None => None,
    }
}

/// Whether a file holds vCards: its extension is `vcf` in any case.
pub fn is_vcard_file(name: &str) -> (b: bool)
    ensures
        b == (extension(name@) matches Some(e) && lower_seq(e) == "vcf"@),
{
    let n = chars_of(name);
    match rfind_char_exec(&n, '.') {
        Some(i) => {
            if i == 0 {
                return false;
            }
            let ext = slice_chars(&n, i + 1, n.len());
            assert(ext@ == n@.skip(i + 1));
            crate::text::eq_chars(&lower_vec(&ext), &chars_of("vcf"))
        },
        None => false,
    }
}

/// The source a collection's contacts are recorded with.
pub open spec fn collection_label(book: Seq<char>) -> Seq<char> {
    "Local vCards ("@ + book + ")"@
}

/// The contacts in one file of the collection `book`: each of its cards
/// that has a name, in order, with the `vdir` prefix and the collection as
/// their source.
pub fn file_contacts(text: &str, book: &str) -> (contacts: Vec<Contact>)
    ensures
        contacts@.len() == named_cards(cards_from(text@, 0)).len(),
        forall|i: int|
            0 <= i < contacts@.len() ==> is_card_contact(
                #[trigger] contacts@[i],
                named_cards(cards_from(text@, 0))[i],
                "vdir"@,
            ) && (contacts@[i].source matches RecordSource::Other(label) && label@
                == collection_label(book@)),
{
    let mut label: Vec<char> = Vec::new();
    append_str(&mut label, "Local vCards (");
    append_str(&mut label, book);
    append_str(&mut label, ")");
    let source_text = string_of(&label);
    let cards = split_cards(text);
    let ghost cv = string_views(cards@);
    let mut contacts: Vec<Contact> = Vec::new();
    let mut i: usize = 0;
    while i < cards.len()
        invariant
            i <= cards.len(),
            cv == string_views(cards@),
            cv == cards_from(text@, 0),
            source_text@ == collection_label(book@),
            contacts@.len() == named_cards(cv.take(i as int)).len(),
            forall|k: int|
                0 <= k < contacts@.len() ==> is_card_contact(
                    #[trigger] contacts@[k],
                    named_cards(cv.take(i as int))[k],
                    "vdir"@,
                ) && (contacts@[k].source matches RecordSource::Other(label) && label@
                    == collection_label(book@)),
        decreases cards.len() - i,
    {
        assert(cv.take(i + 1).drop_last() == cv.take(i as int));
        assert(cv.take(i + 1).last() == cards@[i as int]@);
        let source = RecordSource::Other(source_text.clone());
        if let Some(c) = parse(cards[i].as_str(), "vdir", source) {
            contacts.push(c);
        }
        i = i + 1;
    }
    assert(cv.take(cards.len() as int) == cv);
    contacts
}

} // verus!
