use sipster::model::{Contact, NumberType, PhoneNumber, RecordSource};
use sipster::sync::merge_contacts;

fn contact(id: &str, name: &str, number: Option<&str>) -> Contact {
    Contact {
        id: id.into(),
        name: name.into(),
        numbers: number
            .map(|n| vec![PhoneNumber { number: n.into(), number_type: NumberType::Home, priority: 1 }])
            .unwrap_or_default(),
        emails: vec![],
        source: RecordSource::Local,
    }
}

#[test]
fn merged_contacts_are_sorted_and_deduplicated() {
    let merged = merge_contacts(vec![
        contact("1", "bob", Some("2")),
        contact("2", "Alice", Some("1")),
        contact("3", "ALICE", Some("1")),
        contact("4", "alice", Some("9")),
        contact("5", "Émile", None),
    ]);
    let ids: Vec<&str> = merged.iter().map(|c| c.id.as_str()).collect();
    assert_eq!(ids, vec!["2", "4", "1", "5"]);
}

fn call(id: &str, at: &str, number: &str) -> sipster::model::CallRecord {
    sipster::model::CallRecord {
        id: id.into(),
        call_type: sipster::model::CallType::Incoming,
        remote_number: number.into(),
        remote_name: None,
        local_party: None,
        timestamp: at.into(),
        duration_seconds: 0,
        source: RecordSource::Local,
    }
}

#[test]
fn each_call_is_listed_once() {
    let merged = sipster::sync::merge_calls(vec![
        call("local-1", "01.01.26 10:00", "0301"),
        call("local-2", "01.01.26 11:00", "0302"),
        call("router-1", "01.01.26 10:00", "0301"),
        call("router-2", "01.01.26 10:00", "0303"),
    ]);
    let ids: Vec<&str> = merged.iter().map(|c| c.id.as_str()).collect();
    assert_eq!(ids, vec!["local-1", "local-2", "router-2"]);
}
