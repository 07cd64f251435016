use sipster::local::{LocalStore, MAX_HISTORY_RECORDS};
use sipster::model::{CallRecord, CallType, Contact, RecordSource};

fn record(id: &str) -> CallRecord {
    CallRecord {
        id: id.into(),
        call_type: CallType::Incoming,
        remote_number: "611".into(),
        remote_name: None,
        local_party: None,
        timestamp: "2026-09-04T10:00:00Z".into(),
        duration_seconds: 0,
        source: RecordSource::Local,
    }
}

fn contact(id: &str, name: &str) -> Contact {
    Contact { id: id.into(), name: name.into(), numbers: vec![], emails: vec![], source: RecordSource::Local }
}

#[test]
fn a_disabled_store_is_inert() {
    let store = LocalStore::disabled();
    assert!(!store.is_enabled());
    assert!(store.history_path().is_none());
    assert!(store.contacts_path().is_none());
}

#[test]
fn history_is_capped() {
    let mut calls = Vec::new();
    for i in 0..520 {
        calls = LocalStore::with_call(calls, record(&i.to_string()));
    }
    assert_eq!(calls.len(), MAX_HISTORY_RECORDS);
    assert_eq!(calls[0].id, "519");
}

#[test]
fn files_live_in_the_data_directory() {
    let store = LocalStore::with_directory("/home/me/.local/share/sipster".into());
    assert!(store.is_enabled());
    assert_eq!(store.history_path().as_deref(), Some("/home/me/.local/share/sipster/history.json"));
    assert_eq!(store.contacts_path().as_deref(), Some("/home/me/.local/share/sipster/contacts.json"));
}

#[test]
fn contacts_are_upserted_and_deleted_by_id() {
    let contacts = vec![contact("a", "A"), contact("b", "B")];
    let contacts = LocalStore::with_contact(contacts, contact("a", "A2"));
    assert_eq!(contacts.len(), 2);
    assert_eq!(contacts[0].name, "A2");
    let contacts = LocalStore::with_contact(contacts, contact("c", "C"));
    assert_eq!(contacts.len(), 3);
    let contacts = LocalStore::without_contact(contacts, "a");
    let ids: Vec<&str> = contacts.iter().map(|c| c.id.as_str()).collect();
    assert_eq!(ids, vec!["b", "c"]);
}
