use sipster::model::{NumberType, RecordSource};
use sipster::vcard::{parse, split_cards, unfold};

fn card(body: &str) -> String {
    format!("BEGIN:VCARD\r\nVERSION:3.0\r\n{body}\r\nEND:VCARD")
}

#[test]
fn parses_a_basic_card() {
    let text = card("FN:Alice Smith\r\nTEL;TYPE=CELL:+4915112345\r\nEMAIL:a@example.com");
    let contact = parse(&text, "vdir", RecordSource::Local).expect("parsed");
    assert_eq!(contact.name, "Alice Smith");
    assert_eq!(contact.numbers[0].number, "+4915112345");
    assert_eq!(contact.numbers[0].number_type, NumberType::Mobile);
    assert_eq!(contact.emails, vec!["a@example.com"]);
}

#[test]
fn unfolds_wrapped_lines() {
    let text = "BEGIN:VCARD\r\nFN:Alice\r\nTEL:+4930123\r\n 4567890\r\nEND:VCARD";
    let contact = parse(text, "vdir", RecordSource::Local).expect("parsed");
    assert_eq!(contact.numbers[0].number, "+49301234567890");
}

#[test]
fn tab_folds_count_too() {
    let lines = unfold("FN:Alice\r\nNOTE:one\r\n\ttwo");
    assert_eq!(lines, vec!["FN:Alice", "NOTE:onetwo"]);
}

#[test]
fn strips_the_tel_uri_scheme() {
    let text = card("FN:Bob\r\nTEL;VALUE=uri:tel:+49301234\r\nEMAIL;VALUE=uri:mailto:b@x.com");
    let contact = parse(&text, "vdir", RecordSource::Local).expect("parsed");
    assert_eq!(contact.numbers[0].number, "+49301234");
    assert_eq!(contact.emails, vec!["b@x.com"]);
}

#[test]
fn uid_keeps_same_named_people_apart() {
    let one = parse(&card("UID:abc-1\r\nFN:J. Smith\r\nTEL:1"), "vdir", RecordSource::Local);
    let two = parse(&card("UID:abc-2\r\nFN:J. Smith\r\nTEL:2"), "vdir", RecordSource::Local);
    assert_ne!(one.unwrap().id, two.unwrap().id);
}

#[test]
fn falls_back_to_the_structured_name() {
    let text = card("N:Smith;Alice;;;\r\nTEL:123");
    assert_eq!(parse(&text, "vdir", RecordSource::Local).unwrap().name, "Alice Smith");
}

#[test]
fn a_card_without_a_name_is_skipped() {
    assert!(parse(&card("TEL:123"), "vdir", RecordSource::Local).is_none());
}

#[test]
fn quoted_parameters_do_not_confuse_the_split() {
    let tricky = card("FN:Alice\r\nTEL;TYPE=\"work:main\":+49301234");
    let contact = parse(&tricky, "vdir", RecordSource::Local).expect("parsed");
    assert_eq!(contact.numbers[0].number, "+49301234");
}

#[test]
fn pref_sorts_first() {
    let text = card("FN:Alice\r\nTEL;TYPE=WORK:111\r\nTEL;TYPE=HOME,PREF:222");
    let contact = parse(&text, "vdir", RecordSource::Local).expect("parsed");
    assert_eq!(contact.primary_number(), Some("222"));
}

#[test]
fn splits_a_stream_of_several_cards() {
    let text = format!("{}\r\n{}", card("FN:A\r\nTEL:1"), card("FN:B\r\nTEL:2"));
    assert_eq!(split_cards(&text).len(), 2);
}

#[test]
fn malformed_input_does_not_panic() {
    assert!(split_cards("BEGIN:VCARD no end").is_empty());
    assert!(parse("", "vdir", RecordSource::Local).is_none());
    assert!(parse("BEGIN:VCARD\r\nFN:\r\nEND:VCARD", "vdir", RecordSource::Local).is_none());
}

#[test]
fn ids_carry_the_prefix_and_fall_back_to_the_name() {
    let with_uid = parse(&card("UID:urn:x\r\nFN:Ann"), "dav", RecordSource::Local).unwrap();
    assert_eq!(with_uid.id, "dav-urn:x");
    let without = parse(&card("FN:Ann Lee"), "dav", RecordSource::Local).unwrap();
    assert_eq!(without.id, "dav-Ann_Lee");
}

#[test]
fn number_types_and_priorities_follow_the_parameters() {
    let text = card("FN:A\r\nTEL;TYPE=fax:1\r\nTEL;TYPE=work:2\r\nTEL;TYPE=home:3\r\nTEL:4\r\nTEL;TYPE=mobile,pref:5");
    let c = parse(&text, "v", RecordSource::Local).unwrap();
    let types: Vec<NumberType> = c.numbers.iter().map(|n| n.number_type.clone()).collect();
    assert_eq!(
        types,
        vec![
            NumberType::Fax,
            NumberType::Work,
            NumberType::Home,
            NumberType::Other("other".into()),
            NumberType::Mobile
        ]
    );
    let priorities: Vec<u8> = c.numbers.iter().map(|n| n.priority).collect();
    assert_eq!(priorities, vec![2, 2, 2, 2, 1]);
}

#[test]
fn the_first_card_between_markers_is_cut_out_whole() {
    let cards = split_cards("junk BEGIN:VCARD\nFN:A\nEND:VCARD trailing BEGIN:VCARD x END:VCARD");
    assert_eq!(cards, vec!["BEGIN:VCARD\nFN:A\nEND:VCARD", "BEGIN:VCARD x END:VCARD"]);
}

#[test]
fn a_leading_fold_stands_alone_and_bare_carriage_returns_go() {
    assert_eq!(unfold(" x\r\ny\r\r\n"), vec![" x", "y"]);
    assert_eq!(unfold(""), Vec::<String>::new());
}
