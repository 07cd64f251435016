use sipster::model::{CallType, Contact, NumberType, PhoneNumber, RecordSource};

fn number(n: &str, priority: u8) -> PhoneNumber {
    PhoneNumber { number: n.into(), number_type: NumberType::Home, priority }
}

#[test]
fn the_primary_number_is_the_first_with_the_lowest_priority() {
    let contact = Contact {
        id: "x".into(),
        name: "X".into(),
        numbers: vec![number("1", 3), number("2", 1), number("3", 1)],
        emails: Vec::new(),
        source: RecordSource::Local,
    };
    assert_eq!(contact.primary_number(), Some("2"));
    let empty = Contact { numbers: Vec::new(), ..contact };
    assert_eq!(empty.primary_number(), None);
}

#[test]
fn labels_read_as_shown() {
    assert_eq!(NumberType::Intern.label(), "Internal");
    assert_eq!(NumberType::Other("Pager".into()).label(), "Pager");
    assert_eq!(
        RecordSource::FritzBox { phonebook_id: 0, phonebook_name: "Telefonbuch".into() }.label(),
        "FRITZ!Box (Telefonbuch)"
    );
    assert_eq!(RecordSource::Google { email: "a@b".into() }.label(), "Google (a@b)");
    assert_eq!(RecordSource::CardDav { account: "me".into() }.label(), "CardDAV (me)");
    assert_eq!(RecordSource::Local.label(), "Local");
    assert_eq!(CallType::Missed.label(), "Missed");
}
