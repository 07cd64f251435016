use std::path::Path;

use sipster::instance::{key_for, lock_path_for, socket_path_from};

#[test]
fn the_lock_lives_under_a_directory_of_our_own() {
    let lock = lock_path_for("/run/user/1000", "/tmp/sipster.toml");
    let path = Path::new(&lock);
    assert_eq!(path.parent().unwrap().file_name().unwrap(), "sipster");
    assert_eq!(path.extension().unwrap(), "lock");
}

#[test]
fn one_config_is_one_instance() {
    assert_eq!(
        lock_path_for("/run/user/1000", "/tmp/sipster.toml"),
        lock_path_for("/run/user/1000", "/tmp/sipster.toml")
    );
}

#[test]
fn a_different_config_is_a_different_instance() {
    assert_ne!(
        lock_path_for("/run/user/1000", "/tmp/one.toml"),
        lock_path_for("/run/user/1000", "/tmp/two.toml")
    );
}

#[test]
fn the_key_is_filename_safe() {
    let key = key_for("/tmp/a b/../sipster.toml");
    assert!(key.chars().all(|c| c.is_ascii_hexdigit()), "{key}");
}

#[test]
fn the_key_is_the_fnv1a_digest() {
    assert_eq!(key_for(""), "cbf29ce484222325");
    assert_eq!(key_for("a"), "af63dc4c8601ec8c");
    assert_eq!(lock_path_for("/run/", "a"), "/run/sipster/af63dc4c8601ec8c.lock");
}

#[test]
fn the_configured_socket_is_used_when_there_is_one() {
    assert_eq!(
        socket_path_from(Some("/from/config.sock".into()), "/run/user/1000", "/c.toml"),
        "/from/config.sock"
    );
}

#[test]
fn falls_back_to_a_runtime_directory() {
    let socket = socket_path_from(None, "/run/user/1000", "/home/me/.config/sipster/config.toml");
    let path = Path::new(&socket);
    assert!(path.is_absolute(), "socket path must be absolute: {}", path.display());
    let name = path.file_name().unwrap().to_string_lossy();
    assert!(name.starts_with("sipster-"), "{name}");
    assert!(name.ends_with(".sock"), "{name}");
}

#[test]
fn the_default_socket_name_is_short() {
    let socket = socket_path_from(None, "/run/user/1000", "/home/me/.config/sipster/config.toml");
    let name = Path::new(&socket).file_name().unwrap().to_string_lossy().to_string();
    assert!(name.len() < 40, "{name} is {} bytes", name.len());
}
