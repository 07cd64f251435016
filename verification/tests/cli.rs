use sipster::cli::{flag_value, has_flag};

#[test]
fn reads_separated_and_joined_spellings() {
    assert_eq!(flag_value(&["--log-file", "/tmp/a.log"], &["--log-file"]).as_deref(), Some("/tmp/a.log"));
    assert_eq!(flag_value(&["--log-file=/tmp/a.log"], &["--log-file"]).as_deref(), Some("/tmp/a.log"));
}

#[test]
fn accepts_any_of_several_names() {
    let names = ["--socket", "-s"];
    assert_eq!(flag_value(&["-s", "/run/x.sock"], &names).as_deref(), Some("/run/x.sock"));
    assert_eq!(flag_value(&["--socket=/run/x.sock"], &names).as_deref(), Some("/run/x.sock"));
}

/// A flag whose value is missing or blank must read as absent.
#[test]
fn blank_and_missing_values_are_absent() {
    assert_eq!(flag_value(&["--log-file"], &["--log-file"]), None);
    assert_eq!(flag_value(&["--log-file", "  "], &["--log-file"]), None);
    assert_eq!(flag_value(&["--log-file="], &["--log-file"]), None);
}

#[test]
fn finds_the_flag_among_other_arguments() {
    let args = ["--call", "611", "--log-file", "/tmp/a.log", "--show"];
    assert_eq!(flag_value(&args, &["--log-file"]).as_deref(), Some("/tmp/a.log"));
    assert!(has_flag(&args, &["--show"]));
    assert!(!has_flag(&args, &["--quit"]));
}

/// `--log-file-name` must not be mistaken for `--log-file`.
#[test]
fn does_not_match_a_longer_flag_by_prefix() {
    assert_eq!(flag_value(&["--log-file-name", "x"], &["--log-file"]), None);
    assert!(!has_flag(&["--show-all"], &["--show"]));
}

#[test]
fn returns_the_first_occurrence() {
    assert_eq!(flag_value(&["--socket", "a", "--socket", "b"], &["--socket"]).as_deref(), Some("a"));
}

#[test]
fn a_flag_consumes_its_value_even_when_blank() {
    // The blank value after the first flag is skipped along with it.
    assert_eq!(flag_value(&["--socket", " ", "--socket", "b"], &["--socket"]).as_deref(), Some("b"));
    assert_eq!(flag_value(&["--socket=  x  "], &["--socket"]).as_deref(), Some("x"));
}
