use sipster::akonadi::{configured_path, expand_home, is_resource_config};

const CONFIG: &str = "\
[General]
ReadOnly=false
Path=/home/blu/.local/share/contacts
AutoSync=true

[Akonadi]
Name=Personal Contacts
";

#[test]
fn reads_the_directory_out_of_a_resource_config() {
    assert_eq!(configured_path(CONFIG).as_deref(), Some("/home/blu/.local/share/contacts"));
}

#[test]
fn a_config_without_a_path_yields_nothing() {
    assert_eq!(configured_path("[General]\nAutoSync=true\n"), None);
    assert_eq!(configured_path("Path=\n"), None, "an empty path is not a path");
    assert_eq!(configured_path(""), None);
}

#[test]
fn a_tilde_path_expands_to_the_home_directory() {
    let home = "/home/blu";
    assert_eq!(expand_home("~/.local/share/contacts", home), "/home/blu/.local/share/contacts");
    assert_eq!(expand_home("/srv/contacts", home), "/srv/contacts");
}

#[test]
fn only_contact_resources_are_picked_up() {
    assert!(is_resource_config("akonadi_vcarddir_resource_0rc"));
    assert!(is_resource_config("akonadi_contacts_resource_12rc"));
    assert!(!is_resource_config("akonadi_maildir_resource_0rc"));
    assert!(!is_resource_config("akonadi_ical_resource_0rc"));
    assert!(!is_resource_config("kmail2rc"));
    assert!(!is_resource_config("akonadi_vcarddir_resource_0rc.bak"));
}
