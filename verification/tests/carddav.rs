use base64::Engine;
use sipster::carddav::{urlencoding_base64, CardDavClient, CardDavConfig};
use sipster::model::{NumberType, RecordSource};

fn client(url: &str, username: &str) -> CardDavClient {
    CardDavClient::new(CardDavConfig {
        url: url.into(),
        username: username.into(),
        password: "secret".into(),
    })
}

#[test]
fn a_vcard_becomes_a_contact_keyed_by_account_and_name() {
    let card = "BEGIN:VCARD\r\nFN: Alice Smith \r\nTEL;TYPE=WORK,PREF:  0301 \r\nTEL;TYPE=FAX:0302\r\nEMAIL;TYPE=HOME:a@x.org\r\nEND:VCARD";
    let contact = CardDavClient::parse_vcard(card, "dav.example").unwrap();
    assert_eq!(contact.name, "Alice Smith");
    assert_eq!(contact.id, "carddav-dav.example-Alice_Smith");
    assert_eq!(contact.numbers[0].number, "0301");
    assert_eq!(contact.numbers[0].number_type, NumberType::Work);
    assert_eq!(contact.numbers[0].priority, 1);
    assert_eq!(contact.numbers[1].number_type, NumberType::Fax);
    assert_eq!(contact.numbers[1].priority, 2);
    assert_eq!(contact.emails, vec!["a@x.org"]);
    assert_eq!(contact.source, RecordSource::CardDav { account: "dav.example".into() });
    assert!(CardDavClient::parse_vcard("BEGIN:VCARD\nTEL:1\nEND:VCARD", "x").is_none());
}

#[test]
fn a_response_body_yields_each_named_card() {
    let body = "BEGIN:VCARD\nFN:A\nEND:VCARD\nBEGIN:VCARD\nTEL:1\nEND:VCARD\nBEGIN:VCARD\nFN:B\nEND:VCARD";
    let contacts = client("https://dav", "").contacts_from_body(body);
    let names: Vec<&str> = contacts.iter().map(|c| c.name.as_str()).collect();
    assert_eq!(names, vec!["A", "B"]);
    assert_eq!(contacts[1].id, "carddav-https://dav-B");
}

#[test]
fn basic_authentication_is_sent_only_with_a_username() {
    assert_eq!(client("u", "").authorization(), None);
    assert_eq!(client("u", "bob").authorization().as_deref(), Some("Basic Ym9iOnNlY3JldA=="));
    assert!(client("  ", "bob").has_url() == false);
    assert!(client("https://dav", "bob").has_url());
}

#[test]
fn the_base64_is_the_standard_one() {
    for text in ["", "f", "fo", "foo", "foob", "fooba", "foobar", "bob:secret", "Müller:ß"] {
        assert_eq!(
            urlencoding_base64(text),
            base64::engine::general_purpose::STANDARD.encode(text.as_bytes())
        );
    }
}

#[test]
fn a_vcard_4_tel_uri_yields_a_dialable_number() {
    let d = "BEGIN:VCARD\r\nVERSION:4.0\r\nFN:Bob\r\nTEL;VALUE=uri:tel:+49301234\r\nEND:VCARD";
    let c = CardDavClient::parse_vcard(d, "acct").unwrap();
    assert_eq!(c.name, "Bob");
    assert_eq!(c.id, "carddav-acct-Bob");
    assert_eq!(c.numbers[0].number, "+49301234");
}

#[test]
fn folded_lines_and_uids_are_read_as_everywhere_else() {
    let d = "BEGIN:VCARD\r\nUID:u-1\r\nFN:Ann\r\nTEL:+4930\r\n 1234\r\nEND:VCARD";
    let c = CardDavClient::parse_vcard(d, "acct").unwrap();
    assert_eq!(c.id, "carddav-acct-u-1");
    assert_eq!(c.numbers[0].number, "+49301234");
}
