use sipster::eds::{
    book_contacts, describe_source, factory_name, sort_books, Book, ADDRESS_BOOK_SECTION,
    MATCH_ALL,
};
use sipster::model::RecordSource;

const BOOK: &str = "\
[Data Source]
DisplayName[de]=Persönlich
DisplayName=Personal
Enabled=true
Parent=local-stub

[Address Book]
BackendName=local
";

const CALENDAR: &str = "\
[Data Source]
DisplayName=Birthdays & Anniversaries
Enabled=true

[Calendar]
BackendName=contacts
";

#[test]
fn an_address_book_source_is_recognised_and_named() {
    let book = describe_source("system-address-book", BOOK).expect("an address book");
    assert_eq!(book.uid, "system-address-book");
    assert_eq!(book.name, "Personal", "the translated names must not win");
}

#[test]
fn only_address_books_are_kept() {
    assert_eq!(describe_source("birthdays", CALENDAR), None);
    assert_eq!(describe_source("proxy", "[Data Source]\nDisplayName=Proxy\n"), None);
    assert_eq!(describe_source("empty", ""), None);
}

#[test]
fn a_disabled_book_is_skipped() {
    let disabled = BOOK.replace("Enabled=true", "Enabled=false");
    assert_eq!(describe_source("system-address-book", &disabled), None);
}

#[test]
fn a_nameless_book_falls_back_to_its_uid() {
    let book = describe_source("abc-123", "[Address Book]\nBackendName=local\n").expect("book");
    assert_eq!(book.name, "abc-123");
}

#[test]
fn the_match_all_query_is_the_one_that_actually_matches() {
    assert_eq!(MATCH_ALL, "#t");
    assert!(ADDRESS_BOOK_SECTION.starts_with('['));
}

#[test]
fn the_newest_factory_generation_is_chosen() {
    let names: Vec<String> = [
        "org.freedesktop.DBus",
        "org.gnome.evolution.dataserver.AddressBook9",
        "org.gnome.evolution.dataserver.AddressBook10",
        "org.gnome.evolution.dataserver.AddressBookFactory",
        "org.gnome.evolution.dataserver.AddressBook",
    ]
    .iter()
    .map(|s| s.to_string())
    .collect();
    assert_eq!(factory_name(&names).unwrap(), "org.gnome.evolution.dataserver.AddressBook10");
    assert_eq!(
        factory_name(&["org.freedesktop.DBus".to_string()]).unwrap_err(),
        "Evolution Data Server is not available on the session bus"
    );
}

#[test]
fn books_are_listed_by_name_then_uid() {
    let book = |uid: &str, name: &str| Book { uid: uid.into(), name: name.into() };
    let sorted = sort_books(vec![book("b", "Work"), book("z", "Home"), book("a", "Home")]);
    assert_eq!(sorted, vec![book("a", "Home"), book("z", "Home"), book("b", "Work")]);
}

#[test]
fn a_book_yields_its_named_cards() {
    let book = Book { uid: "u".into(), name: "Personal".into() };
    let cards = vec![
        "BEGIN:VCARD\r\nFN:Ann\r\nUID:1\r\nEND:VCARD".to_string(),
        "BEGIN:VCARD\r\nTEL:1\r\nEND:VCARD".to_string(),
    ];
    let contacts = book_contacts(&book, &cards);
    assert_eq!(contacts.len(), 1);
    assert_eq!(contacts[0].id, "eds-1");
    assert_eq!(contacts[0].source, RecordSource::Other("Evolution (Personal)".into()));
}
