use sipster::engine::{registration_state, RegistrationStatus};
use sipster::{CallEvent, CallState, RegistrationState};
use sipster::engine::{is_dtmf_digit, transfer_target, Registry};
use sipster::CallId;

type TestRegistry = Registry<&'static str, ()>;

#[test]
fn engine_resolve_maps_rvoip_id_to_our_call_id() {
    let mut reg = TestRegistry::default();
    let id = reg.insert("rvoip-call-1".into(), "handle");
    assert_eq!(reg.resolve("rvoip-call-1"), Some(id));
    assert_eq!(reg.resolve("unknown"), None);
}

#[test]
fn mod_resolve_maps_rvoip_id_to_our_call_id() {
    let mut reg = TestRegistry::default();
    let id = reg.insert("rvoip-call-1".into(), "handle");
    assert_eq!(reg.resolve("rvoip-call-1"), Some(id));
    assert_eq!(reg.resolve("unknown"), None);
}

#[test]
fn engine_take_returns_the_handle_it_removes() {
    let mut reg = TestRegistry::default();
    let id = reg.insert("rvoip-call-1".into(), "handle");
    assert_eq!(reg.take(id), Some("handle"), "hangup needs the handle back");
}

#[test]
fn mod_take_returns_the_handle_it_removes() {
    let mut reg = TestRegistry::default();
    let id = reg.insert("rvoip-call-1".into(), "handle");
    assert_eq!(reg.take(id), Some("handle"), "hangup needs the handle back");
}

#[test]
fn engine_take_clears_every_index_for_the_call() {
    let mut reg = TestRegistry::default();
    let id = reg.insert("rvoip-call-1".into(), "handle");
    reg.take(id);
    assert_eq!(reg.resolve("rvoip-call-1"), None, "rvoip id must be forgotten");
    assert!(reg.calls.is_empty());
    assert!(reg.audio.is_empty());
}

#[test]
fn mod_take_clears_every_index_for_the_call() {
    let mut reg = TestRegistry::default();
    let id = reg.insert("rvoip-call-1".into(), "handle");
    reg.take(id);
    assert_eq!(reg.resolve("rvoip-call-1"), None, "rvoip id must be forgotten");
    assert!(reg.calls.is_empty());
    assert!(reg.audio.is_empty());
}

#[test]
fn engine_taking_an_unknown_call_is_not_an_error() {
    let mut reg = TestRegistry::default();
    assert_eq!(reg.take(CallId::new()), None);
}

#[test]
fn mod_taking_an_unknown_call_is_not_an_error() {
    let mut reg = TestRegistry::default();
    assert_eq!(reg.take(CallId::new()), None);
}

#[test]
fn engine_calls_are_tracked_independently() {
    let mut reg = TestRegistry::default();
    let first = reg.insert("rvoip-1".into(), "a");
    let second = reg.insert("rvoip-2".into(), "b");
    reg.take(first);
    assert_eq!(reg.resolve("rvoip-2"), Some(second), "unrelated call survives");
    assert_eq!(reg.take(second), Some("b"));
}

#[test]
fn mod_calls_are_tracked_independently() {
    let mut reg = TestRegistry::default();
    let first = reg.insert("rvoip-1".into(), "a");
    let second = reg.insert("rvoip-2".into(), "b");
    reg.take(first);
    assert_eq!(reg.resolve("rvoip-2"), Some(second), "unrelated call survives");
    assert_eq!(reg.take(second), Some("b"));
}

#[test]
fn reinserting_a_call_id_string_points_it_at_the_new_call() {
    let mut reg = TestRegistry::default();
    let first = reg.insert("rvoip-1".into(), "a");
    let second = reg.insert("rvoip-1".into(), "b");
    assert_eq!(reg.resolve("rvoip-1"), Some(second));
    assert_eq!(reg.by_rvoip.len(), 1);
    assert_eq!(reg.take(first), Some("a"));
    assert_eq!(reg.resolve("rvoip-1"), Some(second));
}

#[test]
fn taking_a_call_drops_its_audio_binding() {
    let mut reg: Registry<&'static str, u8> = Registry::new();
    let id = reg.insert("rvoip-1".into(), "a");
    reg.audio.insert(id.0, 7);
    assert_eq!(reg.take(id), Some("a"));
    assert!(reg.audio.is_empty());
}

#[test]
fn a_blank_transfer_target_is_refused() {
    assert!(transfer_target("").is_err());
    assert!(transfer_target("   ").is_err());
    assert!(transfer_target("\t\n").is_err());
}

#[test]
fn a_transfer_target_is_trimmed_but_otherwise_passed_through() {
    assert_eq!(transfer_target("  **610 ").expect("valid"), "**610");
    assert_eq!(transfer_target("sip:bob@example.com").expect("valid"), "sip:bob@example.com");
}

#[test]
fn the_twelve_phone_keys_and_the_abcd_tones_are_sendable() {
    for digit in "0123456789*#".chars() {
        assert!(is_dtmf_digit(digit), "{digit} is a phone key");
    }
    for digit in "ABCDabcd".chars() {
        assert!(is_dtmf_digit(digit), "{digit} is an RFC 4733 tone");
    }
}

#[test]
fn dial_string_characters_are_not_tones() {
    for digit in ['+', ' ', '-', '(', 'x', 'Z', '\n'] {
        assert!(!is_dtmf_digit(digit), "{digit:?} is not a DTMF event");
    }
}

#[test]
fn stack_events_become_call_events() {
    let mut reg = TestRegistry::default();
    let event = reg.on_incoming_call("inv-1".into(), "sip:bob@x".into(), "incoming");
    let CallEvent::IncomingCall { id, remote_uri, display_name } = event else { panic!("unexpected event") };
    assert_eq!(remote_uri, "sip:bob@x");
    assert_eq!(display_name, None);
    assert_eq!(reg.on_call_progress("inv-1"), Some(CallEvent::StateChanged { id, state: CallState::Ringing }));
    assert_eq!(reg.on_call_progress("other"), None);
    assert_eq!(
        reg.on_call_answered("inv-1", "active"),
        Some(CallEvent::StateChanged { id, state: CallState::Active })
    );
    let (ended, handle) = reg.on_call_ended("inv-1", "bye".into());
    assert_eq!(ended, Some(CallEvent::Terminated { id, reason: "bye".into() }));
    assert_eq!(handle, Some("active"));
    assert_eq!(reg.on_call_ended("inv-1", "bye".into()), (None, None));
    assert_eq!(
        registration_state(RegistrationStatus::Failed, None),
        RegistrationState::Failed("registration rejected".into())
    );
    assert_eq!(
        registration_state(RegistrationStatus::Failed, Some("401".into())),
        RegistrationState::Failed("401".into())
    );
    assert_eq!(registration_state(RegistrationStatus::Unregistering, None), RegistrationState::Registering);
}
