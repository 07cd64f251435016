//! Google Contacts OAuth 2.0 and People API integration.
//!
//! What the OAuth flow and the People API exchange decide lives here: the
//! consent URL, the token request forms, the code in the browser's
//! redirect, the contacts a People API page holds, and which sign-in attempt
//! is the live one. The HTTP requests and the local listener are the
//! caller's.
use vstd::prelude::*;
use vstd::utf8::encode_utf8;

use crate::model::{
    Contact, NumberType, NumberTypeView, PhoneNumber, RecordSource,
};
use crate::text::{
    append_str, chars_of, contains, contains_exec, dec, find, find_exec, push_dec, lemma_find_from_bounds, find_from, next_char, next_char_exec, slice_chars, string_of, trim, trim_chars,
};
use crate::config::account::{
    debug_quoted, debug_str,
};
use crate::sync::{to_lowercase, unicode_lower};
use crate::vcard::string_views;

verus! {

broadcast use vstd::string::group_string_axioms;

/// A token response from Google OAuth 2.0.
#[derive(Clone)]
pub struct GoogleTokenResponse {
    pub access_token: String,
    pub refresh_token: Option<String>,
    pub expires_in: Option<u64>,
    pub token_type: Option<String>,
}

/// Information about the authorized Google user.
#[derive(Debug, Clone)]
pub struct GoogleUserInfo {
    pub email: Option<String>,
}

/// Client for communicating with Google People API v1.
#[derive(Clone)]
pub struct GoogleContactsClient {
    pub account_id: String,
    pub email: String,
    pub refresh_token: String,
    pub client_id: String,
    pub client_secret: String,
}

/// The bytes a URL may carry as they are: letters, digits and `-_.~`.
pub open spec fn is_unreserved(b: u8) -> bool {
    ||| 0x61 <= b <= 0x7A
    ||| 0x41 <= b <= 0x5A
    ||| 0x30 <= b <= 0x39
    ||| b == 0x2D || b == 0x5F || b == 0x2E || b == 0x7E
}

/// An uppercase hex digit.
pub open spec fn upper_hex_digit(d: int) -> char {
    if d < 10 {
        (('0' as int) + d) as char
    } else {
        (('A' as int) + d - 10) as char
    }
}

/// Percent-encoding of bytes: unreserved bytes as themselves, every other
/// byte as `%XX` in uppercase hex.
pub open spec fn percent_encoded(b: Seq<u8>) -> Seq<char>
    decreases b.len(),
{
    if b.len() == 0 {
        Seq::empty()
    } else {
        let x = b.last();
        percent_encoded(b.drop_last()) + if is_unreserved(x) {
            seq![x as char]
        } else {
            seq!['%', upper_hex_digit(x as int / 16), upper_hex_digit(x as int % 16)]
        }
    }
}

fn upper_hex_digit_exec(d: u8) -> (c: char)
    requires
        d < 16,
    ensures
        c == upper_hex_digit(d as int),
{
    if d < 10 {
        (48u8 + d) as char
    } else {
        (55u8 + d) as char
    }
}

/// Percent-encodes a text's UTF-8 bytes.
pub fn urlencoding_simple(input: &str) -> (s: String)
    ensures
        s@ == percent_encoded(encode_utf8(input@)),
{
    let bytes = input.as_bytes();
    let mut out: Vec<char> = Vec::new();
    let mut i: usize = 0;
    while i < bytes.len()
        invariant
            i <= bytes.len(),
            bytes@ == encode_utf8(input@),
            out@ == percent_encoded(bytes@.take(i as int)),
        decreases bytes.len() - i,
    {
        assert(bytes@.take(i + 1).drop_last() == bytes@.take(i as int));
        let b = bytes[i];
        if (0x61 <= b && b <= 0x7A) || (0x41 <= b && b <= 0x5A) || (0x30 <= b && b <= 0x39) || b
            == 0x2D || b == 0x5F || b == 0x2E || b == 0x7E {
            out.push(b as char);
        } else {
            out.push('%');
            out.push(upper_hex_digit_exec(b / 16));
            out.push(upper_hex_digit_exec(b % 16));
        }
        i = i + 1;
    }
    assert(bytes@.take(bytes.len() as int) == bytes@);
    string_of(&out)
}

/// The scopes Sipster asks for: read contacts, and the account's address.
pub const SCOPE: &'static str =
    "https://www.googleapis.com/auth/contacts.readonly https://www.googleapis.com/auth/userinfo.email";

/// The consent page's URL.
pub open spec fn auth_url_text(client_id: Seq<char>, redirect_uri: Seq<char>) -> Seq<char> {
    "https://accounts.google.com/o/oauth2/v2/auth?response_type=code&client_id="@ + client_id
        + "&redirect_uri="@ + percent_encoded(encode_utf8(redirect_uri)) + "&scope="@
        + percent_encoded(encode_utf8(SCOPE@)) + "&access_type=offline&prompt=consent"@
}

/// Whether all of a client's OAuth credentials are there.
pub open spec fn google_configured(c: GoogleContactsClient) -> bool {
    &&& trim(c.client_id@).len() > 0
    &&& trim(c.client_secret@).len() > 0
    &&& trim(c.refresh_token@).len() > 0
}

fn is_blank(s: &String) -> (b: bool)
    ensures
        b == (trim(s@).len() == 0),
{
    trim_chars(&chars_of(s.as_str())).len() == 0
}

/// A People API phone number as the API delivers it.
#[derive(Debug, Clone)]
pub struct PersonPhone {
    pub value: Option<String>,
    pub kind: Option<String>,
}

/// The part of a People API person the contact list uses.
#[derive(Debug, Clone)]
pub struct Person {
    /// `names[0].displayName`.
    pub display_name: Option<String>,
    /// `resourceName`.
    pub resource_name: Option<String>,
    /// `phoneNumbers[*]`.
    pub phones: Vec<PersonPhone>,
    /// `emailAddresses[*].value`, where there is one.
    pub emails: Vec<Option<String>>,
}

pub open spec fn opt_text(o: Option<String>) -> Seq<char> {
    match o {
        Some(s) => s@,
        None => Seq::empty(),
    }
}

/// The number type a People API phone type names, compared in its Unicode
/// lowercase form; a missing type reads as `other`.
pub open spec fn google_number_type(kind: Seq<char>) -> NumberTypeView {
    let k = unicode_lower(kind);
    if k == "mobile"@ || k == "cell"@ {
        NumberTypeView::Mobile
    } else if k == "work"@ {
        NumberTypeView::Work
    } else if k == "home"@ {
        NumberTypeView::Home
    } else if k == "fax"@ {
        NumberTypeView::Fax
    } else {
        NumberTypeView::Other(k)
    }
}

/// The numbers of a person: each phone with a non-blank value, trimmed,
/// the first of them with priority 1 and the rest 2.
pub open spec fn person_numbers(phones: Seq<PersonPhone>) -> Seq<(Seq<char>, NumberTypeView, u8)>
    decreases phones.len(),
{
    if phones.len() == 0 {
        Seq::empty()
    } else {
        let rest = person_numbers(phones.drop_last());
        let p = phones.last();
        match p.value {
            Some(v) => if trim(v@).len() > 0 {
                let kind = match p.kind {
                    Some(k) => k@,
                    None => "other"@,
                };
                let priority: u8 = if rest.len() == 0 {
                    1
                } else {
                    2
                };
                rest.push((trim(v@), google_number_type(kind), priority))
            } else {
                rest
            },
            None => rest,
        }
    }
}

/// The addresses of a person: each value there is, trimmed.
pub open spec fn person_emails(emails: Seq<Option<String>>) -> Seq<Seq<char>>
    decreases emails.len(),
{
    if emails.len() == 0 {
        Seq::empty()
    } else {
        let rest = person_emails(emails.drop_last());
        match emails.last() {
            Some(e) => rest.push(trim(e@)),
            None => rest,
        }
    }
}

/// The generation a new sign-in attempt gets after `current`.
pub open spec fn next_generation(current: u64) -> u64 {
    current.wrapping_add(1) as u64
}

/// Whether the attempt of `generation` is stale once `current` is.
pub open spec fn is_cancelled(current: u64, generation: u64) -> bool {
    current != generation
}

/// The Google sign-in attempts: each new one makes every earlier one stale,
/// and cancelling makes the current one stale too. The counter wraps, as an
/// atomic counter does.
#[derive(Debug, Clone, Copy)]
pub struct AuthGeneration {
    pub current: u64,
}

impl AuthGeneration {
    pub fn new() -> (g: Self)
        ensures
            g.current == 0,
    {
        AuthGeneration { current: 0 }
    }

    /// Starts a new attempt and returns its generation.
    pub fn begin(&mut self) -> (generation: u64)
        ensures
            final(self).current == next_generation(old(self).current),
            generation == final(self).current,
    {
        self.current = self.current.wrapping_add(1);
        self.current
    }

    /// Asks any attempt in flight to give up.
    pub fn cancel(&mut self)
        ensures
            final(self).current == next_generation(old(self).current),
    {
        self.current = self.current.wrapping_add(1);
    }

    /// Whether the attempt of `generation` has been given up.
    pub fn cancelled(&self, generation: u64) -> (b: bool)
        ensures
            b == is_cancelled(self.current, generation),
    {
        self.current != generation
    }
}

/// Starting a second sign-in abandons the first: from any state, two
/// attempts in a row get different generations, the first then reads as
/// cancelled and the second as live.
pub proof fn law_a_second_flow_invalidates_the_first(start: u64)
    ensures
        next_generation(start) != next_generation(next_generation(start)),
        is_cancelled(next_generation(next_generation(start)), next_generation(start)),
        !is_cancelled(next_generation(next_generation(start)), next_generation(next_generation(start))),
{
}

/// Cancelling makes the attempt in flight stale.
pub proof fn law_cancelling_stops_the_current_flow(current: u64)
    ensures
        is_cancelled(next_generation(current), current),
{
}

impl GoogleContactsClient {
    pub fn new(
        account_id: String,
        email: String,
        refresh_token: String,
        client_id: Option<String>,
        client_secret: Option<String>,
    ) -> (c: Self)
        ensures
            c.account_id == account_id,
            c.email == email,
            c.refresh_token == refresh_token,
            c.client_id@ == opt_text(client_id),
            c.client_secret@ == opt_text(client_secret),
    {
        GoogleContactsClient {
            account_id,
            email,
            refresh_token,
            client_id: match client_id {
                Some(s) => s,
                None => String::new(),
            },
            client_secret: match client_secret {
                Some(s) => s,
                None => String::new(),
            },
        }
    }

    /// Whether this account has the OAuth credentials it needs.
    ///
    /// Checked before any request so a missing client id reports "not
    /// configured" instead of an opaque `invalid_client` from Google.
    pub fn is_configured(&self) -> (b: bool)
        ensures
            b == google_configured(*self),
    {
        !is_blank(&self.client_id) && !is_blank(&self.client_secret) && !is_blank(&self.refresh_token)
    }

    /// The form of a token refresh, or the error an unconfigured account
    /// reports instead of asking.
    pub fn refresh_form(&self) -> (r: Result<Vec<(&str, &str)>, String>)
        ensures
            google_configured(*self) <==> r is Ok,
            r matches Err(m) ==> m@ == "Google account "@ + self.email@
                + " has no OAuth client id/secret \u{2014} add them in Settings"@,
            r matches Ok(form) ==> form@.len() == 4 && form@[0].0@ == "client_id"@ && form@[0].1@
                == self.client_id@ && form@[1].0@ == "client_secret"@ && form@[1].1@
                == self.client_secret@ && form@[2].0@ == "refresh_token"@ && form@[2].1@
                == self.refresh_token@ && form@[3].0@ == "grant_type"@ && form@[3].1@
                == "refresh_token"@,
    {
        if !self.is_configured() {
            let mut m: Vec<char> = Vec::new();
            append_str(&mut m, "Google account ");
            append_str(&mut m, self.email.as_str());
            append_str(&mut m, " has no OAuth client id/secret \u{2014} add them in Settings");
            return Err(string_of(&m));
        }
        let mut form: Vec<(&str, &str)> = Vec::new();
        form.push(("client_id", self.client_id.as_str()));
        form.push(("client_secret", self.client_secret.as_str()));
        form.push(("refresh_token", self.refresh_token.as_str()));
        form.push(("grant_type", "refresh_token"));
        Ok(form)
    }

    /// The form that exchanges an authorization code for tokens.
    pub fn exchange_form<'a>(
        code: &'a str,
        redirect_uri: &'a str,
        client_id: &'a str,
        client_secret: &'a str,
    ) -> (form: Vec<(&'a str, &'a str)>)
        ensures
            form@.len() == 5,
            form@[0].0@ == "code"@ && form@[0].1@ == code@,
            form@[1].0@ == "client_id"@ && form@[1].1@ == client_id@,
            form@[2].0@ == "client_secret"@ && form@[2].1@ == client_secret@,
            form@[3].0@ == "redirect_uri"@ && form@[3].1@ == redirect_uri@,
            form@[4].0@ == "grant_type"@ && form@[4].1@ == "authorization_code"@,
    {
        let mut form: Vec<(&'a str, &'a str)> = Vec::new();
        form.push(("code", code));
        form.push(("client_id", client_id));
        form.push(("client_secret", client_secret));
        form.push(("redirect_uri", redirect_uri));
        form.push(("grant_type", "authorization_code"));
        form
    }

    /// The address a user-info answer carries, or the error its absence is.
    pub fn email_from(info: GoogleUserInfo) -> (r: Result<String, String>)
        ensures
            match info.email {
                Some(e) => r matches Ok(x) && x == e,
                None => r matches Err(m) && m@ == "no email found in user profile"@,
            },
    {
        match info.email {
            Some(e) => Ok(e),
            None => Err("no email found in user profile".to_string()),
        }
    }

    /// Builds the Google OAuth 2.0 authorization URL for the user to open in
    /// their browser.
    pub fn build_auth_url(client_id: &str, redirect_uri: &str) -> (u: String)
        ensures
            u@ == auth_url_text(client_id@, redirect_uri@),
    {
        let mut out: Vec<char> = Vec::new();
        append_str(
            &mut out,
            "https://accounts.google.com/o/oauth2/v2/auth?response_type=code&client_id=",
        );
        append_str(&mut out, client_id);
        append_str(&mut out, "&redirect_uri=");
        append_str(&mut out, urlencoding_simple(redirect_uri).as_str());
        append_str(&mut out, "&scope=");
        append_str(&mut out, urlencoding_simple(SCOPE).as_str());
        append_str(&mut out, "&access_type=offline&prompt=consent");
        string_of(&out)
    }

    /// The contact a People API person is, or nothing when it has no name.
    pub fn parse_person(&self, person: &Person) -> (r: Option<Contact>)
        ensures
            trim(opt_text(person.display_name)).len() == 0 <==> r is None,
            r matches Some(c) ==> {
                &&& c.name@ == trim(opt_text(person.display_name))
                &&& c.id@ == "google-"@ + self.account_id@ + "-"@ + opt_text(person.resource_name)
                &&& c.numbers@.map_values(|n: PhoneNumber| n@) == person_numbers(person.phones@)
                &&& string_views(c.emails@) == person_emails(person.emails@)
                &&& c.source matches RecordSource::Google { email }
                &&& email == self.email
            },
    {
        let name = match &person.display_name {
            Some(n) => trim_chars(&chars_of(n.as_str())),
            None => Vec::new(),
        };
        if name.len() == 0 {
            return None;
        }
        let mut numbers: Vec<PhoneNumber> = Vec::new();
        let mut i: usize = 0;
        proof {
            assert(person.phones@.take(0) =~= Seq::<PersonPhone>::empty());
            assert(numbers@.map_values(|n: PhoneNumber| n@) =~= Seq::<(Seq<char>, NumberTypeView, u8)>::empty());
        }
        while i < person.phones.len()
            invariant
                i <= person.phones.len(),
                numbers@.map_values(|n: PhoneNumber| n@) == person_numbers(person.phones@.take(i as int)),
            decreases person.phones.len() - i,
        {
            assert(person.phones@.take(i + 1).drop_last() == person.phones@.take(i as int));
            assert(person.phones@.take(i + 1).last() == person.phones@[i as int]);
            let phone = &person.phones[i];
            if let Some(v) = &phone.value {
                let val = trim_chars(&chars_of(v.as_str()));
                if val.len() > 0 {
                    let kind: &str = match &phone.kind {
                        Some(k) => k.as_str(),
                        None => "other",
                    };
                    let entry = PhoneNumber {
                        number: string_of(&val),
                        number_type: google_number_type_exec(&kind),
                        priority: if numbers.len() == 0 { 1 } else { 2 },
                    };
                    let ghost before = numbers@;
                    numbers.push(entry);
                    assert(numbers@.map_values(|n: PhoneNumber| n@) =~= before.map_values(
                        |n: PhoneNumber| n@,
                    ).push(entry@));
                }
            }
            i = i + 1;
        }
        assert(person.phones@.take(person.phones.len() as int) == person.phones@);
        let mut emails: Vec<String> = Vec::new();
        let mut j: usize = 0;
        proof {
            assert(person.emails@.take(0) =~= Seq::<Option<String>>::empty());
            assert(string_views(emails@) =~= Seq::<Seq<char>>::empty());
        }
        while j < person.emails.len()
            invariant
                j <= person.emails.len(),
                string_views(emails@) == person_emails(person.emails@.take(j as int)),
            decreases person.emails.len() - j,
        {
            assert(person.emails@.take(j + 1).drop_last() == person.emails@.take(j as int));
            assert(person.emails@.take(j + 1).last() == person.emails@[j as int]);
            if let Some(e) = &person.emails[j] {
                let t = string_of(&trim_chars(&chars_of(e.as_str())));
                let ghost before = emails@;
                emails.push(t);
                assert(string_views(emails@) =~= string_views(before).push(t@));
            }
            j = j + 1;
        }
        assert(person.emails@.take(person.emails.len() as int) == person.emails@);
        let mut id: Vec<char> = Vec::new();
        append_str(&mut id, "google-");
        append_str(&mut id, self.account_id.as_str());
        id.push('-');
        match &person.resource_name {
            Some(r) => append_str(&mut id, r.as_str()),
            None => {},
        }
        proof {
            reveal_strlit("-");
        }
        assert(id@ == "google-"@ + self.account_id@ + "-"@ + opt_text(person.resource_name));
        Some(
            Contact {
                id: string_of(&id),
                name: string_of(&name),
                numbers,
                emails,
                source: RecordSource::Google { email: self.email.clone() },
            },
        )
    }
}

fn google_number_type_exec(kind: &str) -> (t: NumberType)
    ensures
        t@ == google_number_type(kind@),
{
    let k = chars_of(to_lowercase(kind).as_str());
    if eq_lit(&k, "mobile") || eq_lit(&k, "cell") {
        NumberType::Mobile
    } else if eq_lit(&k, "work") {
        NumberType::Work
    } else if eq_lit(&k, "home") {
        NumberType::Home
    } else if eq_lit(&k, "fax") {
        NumberType::Fax
    } else {
        NumberType::Other(string_of(&k))
    }
}

fn eq_lit(s: &[char], lit: &str) -> (b: bool)
    ensures
        b == (s@ == lit@),
{
    crate::text::eq_chars(s, &chars_of(lit))
}

/// The People API page URL, with the page token when there is one.
pub open spec fn people_url_text(page_token: Option<Seq<char>>) -> Seq<char> {
    let base = "https://people.googleapis.com/v1/people/me/connections?personFields=names,phoneNumbers,emailAddresses&pageSize=100"@;
    match page_token {
        Some(t) => base + "&pageToken="@ + percent_encoded(encode_utf8(t)),
        None => base,
    }
}

/// The URL of a People API page.
pub fn people_url(page_token: Option<&str>) -> (u: String)
    ensures
        u@ == people_url_text(match page_token {
            Some(t) => Some(t@),
            None => None,
        }),
{
    let mut out: Vec<char> = Vec::new();
    append_str(
        &mut out,
        "https://people.googleapis.com/v1/people/me/connections?personFields=names,phoneNumbers,emailAddresses&pageSize=100",
    );
    if let Some(t) = page_token {
        append_str(&mut out, "&pageToken=");
        append_str(&mut out, urlencoding_simple(t).as_str());
    }
    string_of(&out)
}

/// The page to ask for next: the answer's `nextPageToken`, unless it is
/// missing or empty.
pub fn next_page_token(token: Option<String>) -> (r: Option<String>)
    ensures
        match token {
            Some(t) => if t@.len() > 0 {
                r == Some(t)
            } else {
                r is None
            },
            None => r is None,
        },
{
    match token {
        Some(t) => if t.as_str().is_empty() {
            None
        } else {
            Some(t)
        },
        None => None,
    }
}

/// The authorization code in the browser's redirect request line, e.g.
/// `GET /?code=4/0Afge… HTTP/1.1`: after the first `code=`, up to the first
/// `&` after it, else the first space, else the end.
pub open spec fn redirect_code(line: Seq<char>) -> Option<Seq<char>> {
    match find(line, "code="@) {
        None => None,
        Some(st) => {
            let rest = line.skip(st + 5);
            let end = match next_char(rest, '&', 0) {
                Some(e) => e,
                None => match next_char(rest, ' ', 0) {
                    Some(e) => e,
                    None => rest.len() as int,
                },
            };
            Some(rest.take(end))
        },
    }
}

/// What the browser's redirect says: the code, or why there is none. A
/// redirect without a code, or one that reports an `error=`, is refused.
pub fn code_from_request_line(line: &str) -> (r: Result<String, String>)
    ensures
        match redirect_code(line@) {
            None => r matches Err(m) && m@ == "no authorization code found in redirect URL"@,
            Some(code) => if crate::text::contains(line@, "error="@) {
                r matches Err(m) && m@ == "Google sign-in was denied or cancelled"@
            } else {
                r matches Ok(c) && c@ == code
            },
        },
{
    let s = chars_of(line);
    let key = chars_of("code=");
    proof {
        reveal_strlit("code=");
    }
    let st = match find_exec(&s, &key) {
        Some(i) => i,
        None => {
            return Err("no authorization code found in redirect URL".to_string());
        },
    };
    proof {
        lemma_find_from_bounds(s@, key@, 0);
        assert(find(s@, key@) == find_from(s@, key@, 0));
        assert(find_from(s@, key@, 0) == Some(st as int));
        assert(st + key@.len() <= s@.len());
        assert(key@.len() == key.len() && s@.len() == s.len());
    }
    let rest = slice_chars(&s, st + 5, s.len());
    assert(rest@ == s@.skip(st + 5));
    let end = match next_char_exec(&rest, '&', 0) {
        Some(e) => e,
        None => match next_char_exec(&rest, ' ', 0) {
            Some(e) => e,
            None => rest.len(),
        },
    };
    proof {
        crate::text::lemma_next_char_facts(rest@, '&', 0);
        crate::text::lemma_next_char_facts(rest@, ' ', 0);
    }
    let code = slice_chars(&rest, 0, end);
    if contains_exec(&s, &chars_of("error=")) {
        return Err("Google sign-in was denied or cancelled".to_string());
    }
    Ok(string_of(&code))
}

impl GoogleContactsClient {
    /// The client as `Debug` shows it: the refresh token and client secret,
    /// which grant access to the user's contacts on their own, redacted.
    pub fn debug_text(&self) -> (s: String)
        ensures
            s@ == "GoogleContactsClient { account_id: "@ + debug_quoted(self.account_id@)
                + ", email: "@ + debug_quoted(self.email@)
                + ", refresh_token: \"<redacted>\", client_id: "@ + debug_quoted(self.client_id@)
                + ", client_secret: \"<redacted>\" }"@,
    {
        let mut out: Vec<char> = Vec::new();
        append_str(&mut out, "GoogleContactsClient { account_id: ");
        append_str(&mut out, debug_str(self.account_id.as_str()).as_str());
        append_str(&mut out, ", email: ");
        append_str(&mut out, debug_str(self.email.as_str()).as_str());
        append_str(&mut out, ", refresh_token: \"<redacted>\", client_id: ");
        append_str(&mut out, debug_str(self.client_id.as_str()).as_str());
        append_str(&mut out, ", client_secret: \"<redacted>\" }");
        string_of(&out)
    }
}

impl GoogleTokenResponse {
    /// The response as `Debug` shows it: the live access token, and the
    /// refresh token when there is one, redacted.
    pub fn debug_text(&self) -> (s: String)
        ensures
            s@ == "GoogleTokenResponse { access_token: \"<redacted>\", refresh_token: "@ + (
            if self.refresh_token is Some {
                "Some(\"<redacted>\")"@
            } else {
                "None"@
            }) + ", expires_in: "@ + match self.expires_in {
                Some(n) => "Some("@ + dec(n as nat) + ")"@,
                None => "None"@,
            } + ", token_type: "@ + match self.token_type {
                Some(t) => "Some("@ + debug_quoted(t@) + ")"@,
                None => "None"@,
            } + " }"@,
    {
        let mut out: Vec<char> = Vec::new();
        append_str(&mut out, "GoogleTokenResponse { access_token: \"<redacted>\", refresh_token: ");
        append_str(&mut out, if self.refresh_token.is_some() { "Some(\"<redacted>\")" } else { "None" });
        append_str(&mut out, ", expires_in: ");
        match self.expires_in {
            Some(n) => {
                append_str(&mut out, "Some(");
                push_dec(&mut out, n);
                append_str(&mut out, ")");
            },
            None => append_str(&mut out, "None"),
        }
        append_str(&mut out, ", token_type: ");
        match &self.token_type {
            Some(t) => {
                append_str(&mut out, "Some(");
                append_str(&mut out, debug_str(t.as_str()).as_str());
                append_str(&mut out, ")");
            },
            None => append_str(&mut out, "None"),
        }
        append_str(&mut out, " }");
        string_of(&out)
    }
}

/// Checks the credentials a sign-in needs before anything is started.
pub fn authorize_precheck(client_id: &str, client_secret: &str) -> (r: Result<(), String>)
    ensures
        (trim(client_id@).len() > 0 && trim(client_secret@).len() > 0) <==> r is Ok,
        r matches Err(m) ==> m@ == "enter your Google OAuth client id and secret first"@,
{
    if trim_chars(&chars_of(client_id)).len() == 0 || trim_chars(&chars_of(client_secret)).len() == 0 {
        return Err("enter your Google OAuth client id and secret first".to_string());
    }
    Ok(())
}

/// The redirect address Google sends the browser back to. Desktop clients
/// register `http://localhost` and accept any port on it.
pub fn redirect_uri(port: u16) -> (u: String)
    ensures
        u@ == "http://localhost:"@ + crate::text::dec(port as nat),
{
    let mut out: Vec<char> = Vec::new();
    append_str(&mut out, "http://localhost:");
    push_dec(&mut out, port as u64);
    string_of(&out)
}

/// The refresh token of a completed sign-in, or the error its absence is.
pub fn refresh_token_of(token: &GoogleTokenResponse) -> (r: Result<String, String>)
    ensures
        match token.refresh_token {
            Some(t) => r matches Ok(x) && x@ == t@,
            None => r matches Err(m) && m@
                == "Google returned no refresh token; remove Sipster from your account's third-party access and try again"@,
        },
{
    match &token.refresh_token {
        Some(t) => Ok(t.clone()),
        None => Err(
            "Google returned no refresh token; remove Sipster from your account's third-party access and try again".to_string(),
        ),
    }
}

/// What waiting for the browser does when nobody has connected yet: give up
/// when the attempt was cancelled or the deadline passed, else keep waiting.
pub fn on_no_connection(cancelled: bool, past_deadline: bool) -> (r: Option<String>)
    ensures
        cancelled ==> (r matches Some(m) && m@ == "sign-in cancelled"@),
        !cancelled && past_deadline ==> (r matches Some(m) && m@
            == "timed out waiting for the Google sign-in to finish"@),
        !cancelled && !past_deadline ==> r is None,
{
    if cancelled {
        Some("sign-in cancelled".to_string())
    } else if past_deadline {
        Some("timed out waiting for the Google sign-in to finish".to_string())
    } else {
        None
    }
}

} // verus!
