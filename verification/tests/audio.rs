use sipster::audio::pipewire::{is_node, node_from_props, node_name, Direction, PREFIX};
use sipster::audio::{friendly_name, usable_devices, Device};

fn raw(ids: &[&str]) -> Vec<Device> {
    ids.iter().map(|id| ((*id).to_string(), (*id).to_string())).collect()
}

#[test]
fn drops_the_alsa_plugin_noise() {
    let devices = usable_devices(raw(&[
        "hw:CARD=PCH,DEV=0",
        "plughw:CARD=PCH,DEV=0",
        "surround71:CARD=PCH,DEV=0",
        "dmix:CARD=HDMI,DEV=9",
        "dsnoop:CARD=PCH,DEV=2",
        "hdmi:CARD=HDMI,DEV=1",
        "front:CARD=PCH,DEV=0",
    ]));
    let ids: Vec<&str> = devices.iter().map(|(id, _)| id.as_str()).collect();
    assert_eq!(ids, vec!["plughw:CARD=PCH,DEV=0"]);
}

#[test]
fn exclusive_hw_devices_are_not_offered() {
    let devices = usable_devices(raw(&["hw:CARD=PCH,DEV=0"]));
    assert!(devices.is_empty());
}

#[test]
fn the_sound_server_comes_first() {
    let devices = usable_devices(raw(&[
        "plughw:CARD=PCH,DEV=0",
        "pipewire",
        "plughw:CARD=HDMI,DEV=3",
    ]));
    assert_eq!(devices[0].1, "PipeWire");
}

#[test]
fn names_are_readable() {
    assert_eq!(friendly_name("plughw:CARD=PCH,DEV=0"), "PCH");
    assert_eq!(friendly_name("plughw:CARD=HDMI,DEV=3"), "HDMI (device 3)");
    assert_eq!(friendly_name("pipewire"), "PipeWire");
    assert_eq!(friendly_name("pulse"), "PulseAudio");
    assert_eq!(friendly_name("default"), "ALSA default");
}

#[test]
fn duplicate_labels_are_collapsed() {
    let devices = usable_devices(raw(&["plughw:CARD=PCH,DEV=0", "sysdefault:CARD=PCH"]));
    let labels: Vec<&str> = devices.iter().map(|(_, n)| n.as_str()).collect();
    assert_eq!(labels, vec!["PCH"], "same card should appear once");
}

#[test]
fn an_empty_enumeration_is_not_an_error() {
    assert!(usable_devices(Vec::new()).is_empty());
}

#[test]
fn stream_and_device_classes_do_not_get_crossed() {
    assert_eq!(Direction::Capture.stream_class(), "Stream/Input/Audio");
    assert_eq!(Direction::Playback.stream_class(), "Stream/Output/Audio");
    assert!(Direction::Capture.device_class().contains(&"Audio/Source"));
    assert!(Direction::Playback.device_class().contains(&"Audio/Sink"));
}

#[test]
fn node_ids_are_told_apart_from_alsa_pcm_names() {
    assert!(is_node("pw:alsa_output.thing"));
    assert!(!is_node("plughw:CARD=PCH,DEV=0"));
    assert!(!is_node("pipewire"));
    assert_eq!(node_name("pw:thing").as_deref(), Some("thing"));
    assert_eq!(node_name("plughw:x"), None);
    assert_eq!(format!("{PREFIX}x"), "pw:x");
}

#[test]
fn a_nameless_device_falls_back_to_its_node_name() {
    let node = node_from_props(1, "bare_sink".into(), "Audio/Sink".into(), None, Some(7), Some(1 << 40)).unwrap();
    assert_eq!(node.description, "bare_sink");
    assert_eq!(node.pid, None);
    assert_eq!(node.serial, Some(7));
    assert!(node_from_props(1 << 33, "x".into(), "Audio/Sink".into(), Some("X".into()), None, None).is_none());
    let labelled = node_from_props(52, "alsa".into(), "Audio/Sink".into(), Some("WG2".into()), None, Some(4242)).unwrap();
    assert_eq!(labelled.description, "WG2");
    assert_eq!(labelled.pid, Some(4242));
}
