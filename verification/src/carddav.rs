//! `CardDAV` and vCard contact synchronization provider.
//!
//! What a `CardDAV` exchange decides lives here: the `Authorization` header
//! it sends, and the contacts a response body holds, read by the vCard
//! parser every provider shares. Sending the request is left to the caller.
use vstd::prelude::*;
use vstd::utf8::encode_utf8;

use crate::model::{Contact, RecordSource};
use crate::text::{append_str, chars_of, string_of, trim, trim_chars};
use crate::vcard::{
    card_lines, card_name, cards_from, is_card_contact, named_cards, parse, scan_lines,
    split_cards, string_views,
};

verus! {

broadcast use vstd::string::group_string_axioms;

/// Configuration for connecting to a `CardDAV` address book.
#[derive(Debug, Clone)]
pub struct CardDavConfig {
    pub url: String,
    pub username: String,
    pub password: String,
}

/// A `CardDAV` client: its configuration, and the vCard parsing its
/// responses need.
#[derive(Debug, Clone)]
pub struct CardDavClient {
    pub config: CardDavConfig,
}

/// The id prefix of a `CardDAV` account's contacts: `carddav-<account>`.
pub open spec fn carddav_prefix(label: Seq<char>) -> Seq<char> {
    "carddav-"@ + label
}

/// Whether `c` is the contact a vCard describes, as the shared vCard
/// parser reads it (folded lines joined, `tel:` URIs made dialable), with
/// ids under the account's prefix and the account as its source.
pub open spec fn is_vcard_contact(c: Contact, card: Seq<char>, label: Seq<char>) -> bool {
    &&& is_card_contact(c, card, carddav_prefix(label))
    &&& c.source matches RecordSource::CardDav { account }
    &&& account@ == label
}

/// The base64 alphabet.
pub open spec fn b64_char(i: int) -> char {
    if i < 26 {
        (('A' as int) + i) as char
    } else if i < 52 {
        (('a' as int) + i - 26) as char
    } else if i < 62 {
        (('0' as int) + i - 52) as char
    } else if i == 62 {
        '+'
    } else {
        '/'
    }
}

/// Standard base64 with `=` padding.
pub open spec fn base64_of(b: Seq<u8>) -> Seq<char>
    decreases b.len(),
{
    if b.len() == 0 {
        Seq::empty()
    } else {
        let b0 = b[0] as int;
        let b1 = if b.len() > 1 { b[1] as int } else { 0 };
        let b2 = if b.len() > 2 { b[2] as int } else { 0 };
        let c0 = b64_char(b0 / 4);
        let c1 = b64_char((b0 % 4) * 16 + b1 / 16);
        if b.len() == 1 {
            seq![c0, c1, '=', '=']
        } else if b.len() == 2 {
            seq![c0, c1, b64_char((b1 % 16) * 4), '=']
        } else {
            seq![c0, c1, b64_char((b1 % 16) * 4 + b2 / 64), b64_char(b2 % 64)] + base64_of(b.skip(3))
        }
    }
}

fn b64_char_exec(i: u8) -> (c: char)
    requires
        i < 64,
    ensures
        c == b64_char(i as int),
{
    if i < 26 {
        (65u8 + i) as char
    } else if i < 52 {
        (71u8 + i) as char
    } else if i < 62 {
        (i - 4) as char
    } else if i == 62 {
        '+'
    } else {
        '/'
    }
}

/// Standard base64 of a text's UTF-8 bytes.
pub fn urlencoding_base64(input: &str) -> (s: String)
    ensures
        s@ == base64_of(encode_utf8(input@)),
{
    let bytes = input.as_bytes();
    let ghost all = bytes@;
    let mut out: Vec<char> = Vec::new();
    let len = bytes.len();
    let mut i: usize = 0;
    assert(all.skip(0) == all);
    while i < len
        invariant
            len == bytes.len(),
            all == bytes@,
            all == encode_utf8(input@),
            i <= len,
            base64_of(all) == out@ + base64_of(all.skip(i as int)),
        decreases len - i,
    {
        let ghost rest = all.skip(i as int);
        let b0 = bytes[i];
        let b1 = if len - i > 1 { bytes[i + 1] } else { 0 };
        let b2 = if len - i > 2 { bytes[i + 2] } else { 0 };
        assert(rest[0] == b0);
        out.push(b64_char_exec(b0 / 4));
        out.push(b64_char_exec((b0 % 4) * 16 + b1 / 16));
        if len - i > 1 {
            assert(rest[1] == b1);
            out.push(b64_char_exec((b1 % 16) * 4 + b2 / 64));
        } else {
            out.push('=');
        }
        if len - i > 2 {
            assert(rest[2] == b2);
            out.push(b64_char_exec(b2 % 64));
        } else {
            out.push('=');
        }
        if len - i >= 3 {
            assert(rest.skip(3) == all.skip(i + 3));
            i = i + 3;
        } else {
            assert(all.skip(len as int) =~= Seq::<u8>::empty());
            i = len;
        }
    }
    assert(all.skip(len as int) =~= Seq::<u8>::empty());
    assert(out@ + Seq::<char>::empty() == out@);
    string_of(&out)
}

impl CardDavClient {
    pub fn new(config: CardDavConfig) -> (c: Self)
        ensures
            c.config == config,
    {
        CardDavClient { config }
    }

    /// Whether there is anything to fetch: a blank URL means no address book.
    pub fn has_url(&self) -> (b: bool)
        ensures
            b == (trim(self.config.url@).len() > 0),
    {
        trim_chars(&chars_of(self.config.url.as_str())).len() > 0
    }

    /// The `Authorization` header a request carries: HTTP basic
    /// authentication when a username is set, none otherwise.
    pub fn authorization(&self) -> (h: Option<String>)
        ensures
            self.config.username@.len() == 0 <==> h is None,
            h matches Some(v) ==> v@ == "Basic "@ + base64_of(
                encode_utf8(self.config.username@ + ":"@ + self.config.password@),
            ),
    {
        if self.config.username.as_str().is_empty() {
            return None;
        }
        let mut auth: Vec<char> = Vec::new();
        append_str(&mut auth, self.config.username.as_str());
        auth.push(':');
        append_str(&mut auth, self.config.password.as_str());
        proof {
            reveal_strlit(":");
        }
        let text = string_of(&auth);
        assert(text@ == self.config.username@ + ":"@ + self.config.password@);
        let b64 = urlencoding_base64(text.as_str());
        let mut out: Vec<char> = Vec::new();
        append_str(&mut out, "Basic ");
        append_str(&mut out, b64.as_str());
        let h = string_of(&out);
        assert(h@ == "Basic "@ + b64@);
        Some(h)
    }

    /// The contacts a response body holds: each vCard in it, from a
    /// `BEGIN:VCARD` to the next `END:VCARD`, that has a name.
    pub fn contacts_from_body(&self, body: &str) -> (contacts: Vec<Contact>)
        ensures
            contacts@.len() == named_cards(cards_from(body@, 0)).len(),
            forall|i: int|
                0 <= i < contacts@.len() ==> is_vcard_contact(
                    #[trigger] contacts@[i],
                    named_cards(cards_from(body@, 0))[i],
                    self.config.url@,
                ),
    {
        let cards = split_cards(body);
        let ghost cv = string_views(cards@);
        let mut contacts: Vec<Contact> = Vec::new();
        let mut i: usize = 0;
        while i < cards.len()
            invariant
                i <= cards.len(),
                cv == string_views(cards@),
                cv == cards_from(body@, 0),
                contacts@.len() == named_cards(cv.take(i as int)).len(),
                forall|k: int|
                    0 <= k < contacts@.len() ==> is_vcard_contact(
                        #[trigger] contacts@[k],
                        named_cards(cv.take(i as int))[k],
                        self.config.url@,
                    ),
            decreases cards.len() - i,
        {
            assert(cv.take(i + 1).drop_last() == cv.take(i as int));
            assert(cv.take(i + 1).last() == cards@[i as int]@);
            if let Some(c) = CardDavClient::parse_vcard(cards[i].as_str(), self.config.url.as_str()) {
                contacts.push(c);
            }
            i = i + 1;
        }
        assert(cv.take(cards.len() as int) == cv);
        contacts
    }

    /// Parses a single vCard (vCard 3.0 or 4.0) into a unified `Contact`
    /// with the shared vCard parser: `None` when it has no usable name.
    pub fn parse_vcard(vcard_data: &str, account_label: &str) -> (r: Option<Contact>)
        ensures
            card_name(scan_lines(card_lines(vcard_data@))) is None <==> r is None,
            r matches Some(c) ==> is_vcard_contact(c, vcard_data@, account_label@),
    {
        let mut prefix: Vec<char> = Vec::new();
        append_str(&mut prefix, "carddav-");
        append_str(&mut prefix, account_label);
        let prefix = string_of(&prefix);
        parse(
            vcard_data,
            prefix.as_str(),
            RecordSource::CardDav { account: account_label.to_string() },
        )
    }
}

} // verus!
