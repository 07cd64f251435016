use sipster::model::RecordSource;
use sipster::vdir::{file_contacts, is_vcard_file, VdirStore};

#[test]
fn only_vcf_files_count() {
    assert!(is_vcard_file("alice.vcf"));
    assert!(is_vcard_file("BOB.VCF"));
    assert!(!is_vcard_file("notes.txt"));
    assert!(!is_vcard_file(".vcf"));
    assert!(!is_vcard_file("vcf"));
}

#[test]
fn several_cards_in_one_file_are_all_read() {
    let text = "BEGIN:VCARD\nFN:A\nEND:VCARD\nBEGIN:VCARD\nFN:B\nEND:VCARD\n";
    let contacts = file_contacts(text, "work");
    assert_eq!(contacts.len(), 2);
    assert_eq!(contacts[0].source, RecordSource::Other("Local vCards (work)".into()));
    assert_eq!(contacts[1].id, "vdir-B");
}

#[test]
fn a_store_keeps_its_root() {
    assert_eq!(VdirStore::new("/home/me/.contacts".into()).root(), "/home/me/.contacts");
}
