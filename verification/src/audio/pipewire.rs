//! Selecting a specific `PipeWire` sink or source for a call.
//!
//! ALSA publishes exactly one `PipeWire` PCM — `pipewire` — and nothing per
//! device, so the call opens that PCM and the stream it creates is then
//! moved onto the chosen device by setting `target.object` to the device's
//! `object.serial`. The node list comes from `pw-dump`, read outside the
//! library; what is decided here is which nodes are devices, which stream
//! is ours, and what a move needs.
//!
//! Two details fail *silently* if got wrong: the target must be the device's
//! serial, not its name, and our own stream cannot be found by process id
//! (`PipeWire` leaves that unset for ALSA-plugin clients), so it is matched
//! on the name the plugin gives it, `alsa_playback.<program>`.
use vstd::prelude::*;

use super::{
    dedup_device_list, device_views, dedup_devices, sort_devices, sorted_devices, Device, DeviceOrder,
};
use crate::text::{
    opt_view, append_str, chars_of, eq_chars, slice_chars, starts_with, starts_with_exec, string_of,
};

verus! {

broadcast use vstd::string::group_string_axioms;

/// Marks a device id as a `PipeWire` node rather than an ALSA PCM name.
pub const PREFIX: &'static str = "pw:";

/// The PCM cpal is asked for when the real target is a `PipeWire` node.
pub const SERVER_PCM: &'static str = "pipewire";

/// Whether `id` names a `PipeWire` node.
pub fn is_node(id: &str) -> (b: bool)
    ensures
        b == starts_with(id@, "pw:"@),
{
    starts_with_exec(&chars_of(id), &chars_of("pw:"))
}

/// The bare `node.name` behind a `pw:`-prefixed id.
pub fn node_name(id: &str) -> (r: Option<String>)
    ensures
        starts_with(id@, "pw:"@) ==> (r matches Some(n) && n@ == id@.skip(3)),
        !starts_with(id@, "pw:"@) ==> r is None,
{
    let cs = chars_of(id);
    proof {
        reveal_strlit("pw:");
    }
    if starts_with_exec(&cs, &chars_of("pw:")) {
        Some(string_of(&slice_chars(&cs, 3, cs.len())))
    } else {
        None
    }
}

/// Which side of a stream a device sits on.
#[derive(Debug, Clone, Copy, PartialEq, Eq, Structural)]
pub enum Direction {
    /// A microphone: `Audio/Source`.
    Capture,
    /// A speaker: `Audio/Sink`.
    Playback,
}

/// The `media.class`es a device of this direction carries.
pub open spec fn device_classes(d: Direction) -> Seq<Seq<char>> {
    match d {
        Direction::Capture => seq!["Audio/Source"@, "Audio/Source/Virtual"@],
        Direction::Playback => seq!["Audio/Sink"@],
    }
}

pub open spec fn stream_prefix_of(d: Direction) -> Seq<char> {
    match d {
        Direction::Capture => "alsa_capture"@,
        Direction::Playback => "alsa_playback"@,
    }
}

pub open spec fn stream_class_of(d: Direction) -> Seq<char> {
    match d {
        Direction::Capture => "Stream/Input/Audio"@,
        Direction::Playback => "Stream/Output/Audio"@,
    }
}

impl Direction {
    /// The `media.class` a *device* of this direction carries.
    pub fn device_class(self) -> (v: Vec<&'static str>)
        ensures
            v@.map_values(|s: &str| s@) == device_classes(self),
    {
        let mut v: Vec<&'static str> = Vec::new();
        match self {
            Direction::Capture => {
                v.push("Audio/Source");
                v.push("Audio/Source/Virtual");
            },
            Direction::Playback => {
                v.push("Audio/Sink");
            },
        }
        assert(v@.map_values(|s: &str| s@) =~= device_classes(self));
        v
    }

    /// How the ALSA plugin prefixes our stream's node name. Capture is an
    /// *input* stream, but the plugin calls the node `alsa_capture`.
    pub fn stream_prefix(self) -> (s: &'static str)
        ensures
            s@ == stream_prefix_of(self),
    {
        match self {
            Direction::Capture => "alsa_capture",
            Direction::Playback => "alsa_playback",
        }
    }

    /// The `media.class` our own *stream* carries for this direction. These
    /// read backwards on purpose: a stream that captures is an input to the
    /// application.
    pub fn stream_class(self) -> (s: &'static str)
        ensures
            s@ == stream_class_of(self),
    {
        match self {
            Direction::Capture => "Stream/Input/Audio",
            Direction::Playback => "Stream/Output/Audio",
        }
    }
}

/// One node as `pw-dump` reports it.
#[derive(Debug, Clone, PartialEq, Eq)]
pub struct Node {
    pub id: u32,
    pub name: String,
    pub description: String,
    pub class: String,
    /// `PipeWire`'s per-object serial. This, not the name, is what
    /// `target.object` has to be set to.
    pub serial: Option<u64>,
    /// Unset for ALSA-plugin clients, which is every stream we create.
    pub pid: Option<u32>,
}

/// A node of a `pw-dump` from what its entry carries: its id, which must
/// fit in 32 bits; its name; the label the dump gives it (its
/// `node.description`, else its `node.nick`), the name standing in when there
/// is none, so a device is never listed as nothing; its serial; and the
/// process id, kept only when it fits in 32 bits.
pub fn node_from_props(
    id: u64,
    name: String,
    class: String,
    label: Option<String>,
    serial: Option<u64>,
    pid: Option<u64>,
) -> (r: Option<Node>)
    ensures
        id > u32::MAX <==> r is None,
        r matches Some(n) ==> {
            &&& n.id == id
            &&& n.name@ == name@
            &&& n.class == class
            &&& n.description@ == match label {
                Some(l) => l@,
                None => name@,
            }
            &&& n.serial == serial
            &&& n.pid == match pid {
                Some(p) => if p <= u32::MAX {
                    Some(p as u32)
                } else {
                    None
                },
                None => None,
            }
        },
{
    if id > 0xFFFF_FFFF {
        return None;
    }
    let description = match label {
        Some(l) => l,
        None => name.clone(),
    };
    let pid = match pid {
        Some(p) => if p <= 0xFFFF_FFFF {
            Some(p as u32)
        } else {
            None
        },
        None => None,
    };
    Some(Node { id: id as u32, name, description, class, serial, pid })
}

/// Whether `class` is a device class of `d`.
pub open spec fn is_device_class(d: Direction, class: Seq<char>) -> bool {
    device_classes(d).contains(class)
}

fn is_device_class_exec(d: Direction, class: &str) -> (b: bool)
    ensures
        b == is_device_class(d, class@),
{
    let c = chars_of(class);
    match d {
        Direction::Capture => {
            let r = eq_chars(&c, &chars_of("Audio/Source")) || eq_chars(&c, &chars_of("Audio/Source/Virtual"));
            proof {
                let s = device_classes(d);
                if s.contains(c@) {
                    let i = choose|i: int| 0 <= i < s.len() && s[i] == c@;
                    assert(i == 0 || i == 1);
                }
                if c@ == "Audio/Source"@ { assert(s[0] == c@); }
                if c@ == "Audio/Source/Virtual"@ { assert(s[1] == c@); }
            }
            r
        },
        Direction::Playback => {
            let r = eq_chars(&c, &chars_of("Audio/Sink"));
            proof {
                let s = device_classes(d);
                if s.contains(c@) {
                    let i = choose|i: int| 0 <= i < s.len() && s[i] == c@;
                    assert(i == 0);
                }
                if c@ == "Audio/Sink"@ { assert(s[0] == c@); }
            }
            r
        },
    }
}

/// The devices among `nodes`, as `(pw:<name>, description)`, in node order.
pub open spec fn node_devices(nodes: Seq<Node>, d: Direction) -> Seq<(Seq<char>, Seq<char>)>
    decreases nodes.len(),
{
    if nodes.len() == 0 {
        Seq::empty()
    } else {
        let rest = node_devices(nodes.drop_last(), d);
        let n = nodes.last();
        if is_device_class(d, n.class@) {
            rest.push(("pw:"@ + n.name@, n.description@))
        } else {
            rest
        }
    }
}

/// The selectable devices for `direction` among the nodes `pw-dump`
/// reported: by name then id, each id once.
pub fn devices(nodes: &[Node], direction: Direction) -> (out: Vec<Device>)
    ensures
        device_views(out@) == dedup_devices(
            true,
            sorted_devices(DeviceOrder::NameThenId, node_devices(nodes@, direction)),
        ),
{
    let mut found: Vec<Device> = Vec::new();
    let mut i: usize = 0;
    while i < nodes.len()
        invariant
            i <= nodes.len(),
            device_views(found@) == node_devices(nodes@.take(i as int), direction),
        decreases nodes.len() - i,
    {
        let n = &nodes[i];
        proof {
            assert(nodes@.take(i + 1).drop_last() == nodes@.take(i as int));
            assert(nodes@.take(i + 1).last() == nodes@[i as int]);
        }
        if is_device_class_exec(direction, n.class.as_str()) {
            let mut id = chars_of("pw:");
            append_str(&mut id, n.name.as_str());
            let desc = n.description.clone();
            found.push((string_of(&id), desc));
        }
        i = i + 1;
    }
    assert(nodes@.take(nodes.len() as int) == nodes@);
    let sorted = sort_devices(DeviceOrder::NameThenId, found);
    dedup_device_list(true, sorted)
}

/// The name the ALSA plugin gives this process's stream for `d`.
pub open spec fn expected_stream_name(d: Direction, program: Seq<char>) -> Seq<char> {
    stream_prefix_of(d) + "."@ + program
}

/// Whether `n` is this process's stream for `d`.
pub open spec fn is_our_stream(n: Node, d: Direction, program: Option<Seq<char>>, pid: u32) -> bool {
    n.class@ == stream_class_of(d) && (n.pid == Some(pid) || (program matches Some(p)
        && n.name@ == expected_stream_name(d, p)))
}

/// The id of the first node that is our stream for `d`.
pub open spec fn our_stream_spec(nodes: Seq<Node>, d: Direction, program: Option<Seq<char>>, pid: u32) -> Option<u32>
    decreases nodes.len(),
{
    if nodes.len() == 0 {
        None
    } else if is_our_stream(nodes[0], d, program, pid) {
        Some(nodes[0].id)
    } else {
        our_stream_spec(nodes.drop_first(), d, program, pid)
    }
}

/// The id of this process's stream node for `direction`.
///
/// Matched by name as well as pid: `PipeWire` leaves `application.process.id`
/// unset for ALSA-plugin clients, so a pid match alone never succeeds.
/// `program` is this executable's file name, when it is known.
pub fn our_stream(nodes: &[Node], direction: Direction, program: Option<&str>, pid: u32) -> (r: Option<u32>)
    ensures
        r == our_stream_spec(nodes@, direction, opt_view(program), pid),
{
    let expected: Option<Vec<char>> = match program {
        Some(p) => {
            let mut e = chars_of(direction.stream_prefix());
            append_str(&mut e, ".");
            append_str(&mut e, p);
            Some(e)
        },
        None => None,
    };
    let class = chars_of(direction.stream_class());
    let ghost prog = opt_view(program);
    let mut i: usize = 0;
    assert(nodes@.skip(0) == nodes@);
    while i < nodes.len()
        invariant
            i <= nodes.len(),
            prog == opt_view(program),
            class@ == stream_class_of(direction),
            expected matches Some(e) ==> (prog matches Some(p) && e@ == expected_stream_name(direction, p)),
            expected is None ==> prog is None,
            our_stream_spec(nodes@, direction, prog, pid) == our_stream_spec(nodes@.skip(i as int), direction, prog, pid),
        decreases nodes.len() - i,
    {
        let n = &nodes[i];
        assert(nodes@.skip(i as int)[0] == nodes@[i as int]);
        assert(nodes@.skip(i as int).drop_first() == nodes@.skip(i + 1));
        let by_pid = match n.pid {
            Some(p) => p == pid,
            None => false,
        };
        let by_name = match &expected {
            Some(e) => eq_chars(e, &chars_of(n.name.as_str())),
            None => false,
        };
        if eq_chars(&chars_of(n.class.as_str()), &class) && (by_pid || by_name) {
            return Some(n.id);
        }
        i = i + 1;
    }
    None
}

/// Whether this process has any audio streams yet.
pub fn streams_exist(nodes: &[Node], program: Option<&str>, pid: u32) -> (b: bool)
    ensures
        b == (our_stream_spec(nodes@, Direction::Capture, opt_view(program), pid) is Some
            || our_stream_spec(nodes@, Direction::Playback, opt_view(program), pid) is Some),
{
    our_stream(nodes, Direction::Capture, program, pid).is_some() || our_stream(
        nodes,
        Direction::Playback,
        program,
        pid,
    ).is_some()
}

/// The serial of the first node named `target`, if it is a device for `d`.
pub open spec fn device_serial_spec(nodes: Seq<Node>, d: Direction, target: Seq<char>) -> Option<u64>
    decreases nodes.len(),
{
    if nodes.len() == 0 {
        None
    } else if nodes[0].name@ == target && is_device_class(d, nodes[0].class@) {
        nodes[0].serial
    } else {
        device_serial_spec(nodes.drop_first(), d, target)
    }
}

/// The `object.serial` of the device called `target`.
pub fn device_serial(nodes: &[Node], direction: Direction, target: &str) -> (r: Option<u64>)
    ensures
        r == device_serial_spec(nodes@, direction, target@),
{
    let t = chars_of(target);
    let mut i: usize = 0;
    assert(nodes@.skip(0) == nodes@);
    while i < nodes.len()
        invariant
            i <= nodes.len(),
            t@ == target@,
            device_serial_spec(nodes@, direction, target@) == device_serial_spec(nodes@.skip(i as int), direction, target@),
        decreases nodes.len() - i,
    {
        let n = &nodes[i];
        assert(nodes@.skip(i as int)[0] == nodes@[i as int]);
        assert(nodes@.skip(i as int).drop_first() == nodes@.skip(i + 1));
        if eq_chars(&chars_of(n.name.as_str()), &t) && is_device_class_exec(direction, n.class.as_str()) {
            return n.serial;
        }
        i = i + 1;
    }
    None
}

/// What moving our stream for `direction` onto `target` needs: our stream's
/// node id and the device's serial, or why it cannot be done.
pub fn try_move(nodes: &[Node], direction: Direction, target: &str, program: Option<&str>, pid: u32) -> (r: Result<(u32, u64), &'static str>)
    ensures
        our_stream_spec(nodes@, direction, opt_view(program), pid) is None ==> (r matches Err(
            why,
        ) && why@ == "no stream of ours to move"@),
        our_stream_spec(nodes@, direction, opt_view(program), pid) matches Some(s) ==> (
        match device_serial_spec(nodes@, direction, target@) {
            None => r matches Err(why) && why@ == "no such device"@,
            Some(serial) => r == Ok::<(u32, u64), &'static str>((s, serial)),
        }),
{
    let stream = match our_stream(nodes, direction, program, pid) {
        Some(s) => s,
        None => return Err("no stream of ours to move"),
    };
    let serial = match device_serial(nodes, direction, target) {
        Some(s) => s,
        None => return Err("no such device"),
    };
    Ok((stream, serial))
}

} // verus!
