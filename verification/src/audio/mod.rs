//! Which audio devices a call may use, and what they are called.
//!
//! The OS enumeration itself (cpal, `pw-dump`) happens outside the library;
//! what is decided here is which of the enumerated devices are worth
//! offering, in which order, and under which name.
use vstd::prelude::*;

pub mod pipewire;

use crate::order::{
    lex_order, lex_order_exec,
};
use crate::text::{
    chars_of, eq_chars, find, find_char_from, find_exec, lower_seq, lower_vec, parse_u32, parse_u32_exec, push_dec, slice_chars, starts_with, starts_with_exec, string_of, append_str, dec,
};

verus! {

broadcast use vstd::string::group_string_axioms;

/// Which devices to use. `None` means "system default".
#[derive(Debug, Clone, PartialEq, Eq)]
pub struct DeviceSelection {
    pub input: Option<String>,
    pub output: Option<String>,
}

impl Default for DeviceSelection {
    fn default() -> (d: Self)
        ensures
            d.input is None && d.output is None,
    {
        DeviceSelection { input: None, output: None }
    }
}

/// A selectable audio device: `(id, human readable name)`.
pub type Device = (String, String);

/// The characters of both halves of each device.
pub open spec fn device_views(s: Seq<Device>) -> Seq<(Seq<char>, Seq<char>)> {
    s.map_values(|d: Device| (d.0@, d.1@))
}

// ─────────────────────── ordering and de-duplication ───────────────────────

/// The two orders devices are listed in.
#[derive(Clone, Copy, PartialEq, Eq, Structural)]
pub enum DeviceOrder {
    /// The sound server first, then by name (ALSA enumeration).
    ServerThenName,
    /// By name, then by id (`PipeWire` nodes).
    NameThenId,
}

/// 0 for an id that routes through a sound server, 1 for a raw card.
pub open spec fn server_rank(id: Seq<char>) -> int {
    if sound_server(id) {
        0
    } else {
        1
    }
}

/// Whether `a` may stay ahead of `b` in `order`.
pub open spec fn device_le(order: DeviceOrder, a: (Seq<char>, Seq<char>), b: (Seq<char>, Seq<char>)) -> bool {
    match order {
        DeviceOrder::ServerThenName => server_rank(a.0) < server_rank(b.0) || (server_rank(a.0)
            == server_rank(b.0) && lex_order(a.1, b.1) <= 0),
        DeviceOrder::NameThenId => lex_order(a.1, b.1) < 0 || (lex_order(a.1, b.1) == 0
            && lex_order(a.0, b.0) <= 0),
    }
}

/// Where a stable insertion puts `x` into the ordered `s`: after every
/// element that may stay ahead of it.
pub open spec fn insert_pos(order: DeviceOrder, s: Seq<(Seq<char>, Seq<char>)>, x: (Seq<char>, Seq<char>)) -> int
    decreases s.len(),
{
    if s.len() == 0 {
        0
    } else if !device_le(order, s.last(), x) {
        insert_pos(order, s.drop_last(), x)
    } else {
        s.len() as int
    }
}

/// `s` stably sorted by `order`, as `slice::sort_by` leaves it.
pub open spec fn sorted_devices(order: DeviceOrder, s: Seq<(Seq<char>, Seq<char>)>) -> Seq<(Seq<char>, Seq<char>)>
    decreases s.len(),
{
    if s.len() == 0 {
        s
    } else {
        let t = sorted_devices(order, s.drop_last());
        t.insert(insert_pos(order, t, s.last()), s.last())
    }
}

/// Consecutive devices that agree on the id (`by_id`) or the name are
/// collapsed onto the first, as `Vec::dedup_by` does.
pub open spec fn dedup_devices(by_id: bool, s: Seq<(Seq<char>, Seq<char>)>) -> Seq<(Seq<char>, Seq<char>)>
    decreases s.len(),
{
    if s.len() == 0 {
        s
    } else {
        let d = dedup_devices(by_id, s.drop_last());
        if d.len() > 0 && (if by_id {
            d.last().0 == s.last().0
        } else {
            d.last().1 == s.last().1
        }) {
            d
        } else {
            d.push(s.last())
        }
    }
}

fn device_le_exec(order: DeviceOrder, a: &Device, b: &Device) -> (r: bool)
    ensures
        r == device_le(order, (a.0@, a.1@), (b.0@, b.1@)),
{
    let a0 = chars_of(a.0.as_str());
    let a1 = chars_of(a.1.as_str());
    let b0 = chars_of(b.0.as_str());
    let b1 = chars_of(b.1.as_str());
    match order {
        DeviceOrder::ServerThenName => {
            let ra: u8 = if is_sound_server_chars(&a0) { 0 } else { 1 };
            let rb: u8 = if is_sound_server_chars(&b0) { 0 } else { 1 };
            ra < rb || (ra == rb && lex_order_exec(&a1, &b1) <= 0)
        },
        DeviceOrder::NameThenId => {
            let by_name = lex_order_exec(&a1, &b1);
            by_name < 0 || (by_name == 0 && lex_order_exec(&a0, &b0) <= 0)
        },
    }
}

/// Stably sorts devices by `order`.
pub fn sort_devices(order: DeviceOrder, v: Vec<Device>) -> (out: Vec<Device>)
    ensures
        device_views(out@) == sorted_devices(order, device_views(v@)),
{
    let ghost orig = v@;
    let mut rest = v;
    let total: usize = rest.len();
    let mut out: Vec<Device> = Vec::new();
    let mut i: usize = 0;
    while rest.len() > 0
        invariant
            i + rest@.len() == orig.len(),
            orig.len() == total,
            rest@ == orig.skip(i as int),
            device_views(out@) == sorted_devices(order, device_views(orig.take(i as int))),
        decreases rest@.len(),
    {
        let x = rest.remove(0);
        let ghost xv = (x.0@, x.1@);
        let ghost t = device_views(out@);
        let mut p: usize = out.len();
        assert(t.take(t.len() as int) == t);
        while p > 0 && !device_le_exec(order, &out[p - 1], &x)
            invariant
                p <= out@.len(),
                t == device_views(out@),
                xv == (x.0@, x.1@),
                insert_pos(order, t, xv) == insert_pos(order, t.take(p as int), xv),
            decreases p,
        {
            assert(t.take(p as int).drop_last() == t.take(p - 1));
            assert(t.take(p as int).last() == t[p - 1]);
            p = p - 1;
        }
        proof {
            assert(t.take(t.len() as int) == t);
            if p > 0 {
                assert(t.take(p as int).last() == t[p - 1]);
            }
        }
        out.insert(p, x);
        proof {
            let s = device_views(orig.take(i + 1));
            assert(s.drop_last() == device_views(orig.take(i as int)));
            assert(s.last() == xv);
            assert(device_views(out@) == t.insert(p as int, xv));
        }
        i = i + 1;
    }
    assert(orig.take(i as int) == orig);
    out
}

/// Collapses runs of devices with the same id (`by_id`) or name.
pub fn dedup_device_list(by_id: bool, v: Vec<Device>) -> (out: Vec<Device>)
    ensures
        device_views(out@) == dedup_devices(by_id, device_views(v@)),
{
    let ghost orig = v@;
    let mut rest = v;
    let total: usize = rest.len();
    let mut out: Vec<Device> = Vec::new();
    let mut i: usize = 0;
    while rest.len() > 0
        invariant
            i + rest@.len() == orig.len(),
            orig.len() == total,
            rest@ == orig.skip(i as int),
            device_views(out@) == dedup_devices(by_id, device_views(orig.take(i as int))),
        decreases rest@.len(),
    {
        let x = rest.remove(0);
        let ghost d = device_views(out@);
        let same = if out.len() == 0 {
            false
        } else {
            let last = &out[out.len() - 1];
            assert(d.last() == (last.0@, last.1@));
            if by_id {
                eq_chars(&chars_of(last.0.as_str()), &chars_of(x.0.as_str()))
            } else {
                eq_chars(&chars_of(last.1.as_str()), &chars_of(x.1.as_str()))
            }
        };
        proof {
            let s = device_views(orig.take(i + 1));
            assert(s.drop_last() == device_views(orig.take(i as int)));
            assert(s.last() == (x.0@, x.1@));
        }
        if !same {
            out.push(x);
        }
        i = i + 1;
    }
    assert(orig.take(i as int) == orig);
    out
}

// ──────────────────────────── ALSA devices ────────────────────────────

/// Whether this id routes through a sound server rather than the raw card.
pub open spec fn sound_server(id: Seq<char>) -> bool {
    let l = lower_seq(id);
    starts_with(l, "pipewire"@) || starts_with(l, "pulse"@) || l == "default"@
}

/// Whether the device is worth offering: the sound server, the ALSA
/// default, and the format-converting `plughw:` wrappers.
pub open spec fn usable(id: Seq<char>) -> bool {
    sound_server(id) || starts_with(id, "plughw:"@) || starts_with(id, "sysdefault:"@)
}

/// The text up to the first `c`, or all of it (`split(c).next()`).
pub open spec fn before_char(s: Seq<char>, c: char) -> Seq<char> {
    if s.contains(c) {
        s.take(choose_first(s, c))
    } else {
        s
    }
}

/// The index of the first `c` in `s`.
pub open spec fn choose_first(s: Seq<char>, c: char) -> int {
    choose|i: int| 0 <= i < s.len() && s[i] == c && forall|j: int| 0 <= j < i ==> s[j] != c
}

/// The second field of `s` split on `sep` (`split(sep).nth(1)`).
pub open spec fn second_field(s: Seq<char>, sep: Seq<char>) -> Option<Seq<char>> {
    match find(s, sep) {
        None => None,
        Some(i) => {
            let after = s.skip(i + sep.len());
            match find(after, sep) {
                None => Some(after),
                Some(j) => Some(after.take(j)),
            }
        },
    }
}

/// The human name of a device id: `plughw:CARD=PCH,DEV=3` is `PCH (device 3)`.
pub open spec fn friendly(id: Seq<char>) -> Seq<char> {
    if sound_server(id) {
        let head = before_char(id, ':');
        if head == "pipewire"@ {
            "PipeWire"@
        } else if head == "pulse"@ {
            "PulseAudio"@
        } else {
            "ALSA default"@
        }
    } else {
        let card = match second_field(id, "CARD="@) {
            Some(rest) => before_char(rest, ','),
            None => id,
        };
        let device = match second_field(id, "DEV="@) {
            Some(d) => parse_u32(d),
            None => None,
        };
        match device {
            Some(n) => if n == 0 {
                card
            } else {
                card + " (device "@ + dec(n as nat) + ")"@
            },
            None => card,
        }
    }
}

/// The devices of a raw enumeration that survive, with their names.
pub open spec fn usable_views(raw: Seq<(Seq<char>, Seq<char>)>) -> Seq<(Seq<char>, Seq<char>)>
    decreases raw.len(),
{
    if raw.len() == 0 {
        raw
    } else {
        let rest = usable_views(raw.drop_last());
        let id = raw.last().0;
        if usable(id) {
            rest.push((id, friendly(id)))
        } else {
            rest
        }
    }
}

/// What [`usable_devices`] makes of a raw enumeration.
pub open spec fn offered(raw: Seq<(Seq<char>, Seq<char>)>) -> Seq<(Seq<char>, Seq<char>)> {
    dedup_devices(false, sorted_devices(DeviceOrder::ServerThenName, usable_views(raw)))
}

fn is_sound_server_chars(id: &[char]) -> (b: bool)
    ensures
        b == sound_server(id@),
{
    let l = lower_vec(id);
    starts_with_exec(&l, &chars_of("pipewire")) || starts_with_exec(&l, &chars_of("pulse"))
        || eq_chars(&l, &chars_of("default"))
}

fn is_usable_chars(id: &[char]) -> (b: bool)
    ensures
        b == usable(id@),
{
    is_sound_server_chars(id) || starts_with_exec(id, &chars_of("plughw:")) || starts_with_exec(
        id,
        &chars_of("sysdefault:"),
    )
}

/// Whether this id routes through a sound server rather than the raw card.
pub fn is_sound_server(id: &str) -> (b: bool)
    ensures
        b == sound_server(id@),
{
    is_sound_server_chars(&chars_of(id))
}

/// Whether the device is worth offering.
pub fn is_usable(id: &str) -> (b: bool)
    ensures
        b == usable(id@),
{
    is_usable_chars(&chars_of(id))
}

fn before_char_exec(s: &[char], c: char) -> (out: Vec<char>)
    ensures
        out@ == before_char(s@, c),
{
    match find_char_from(s, c, 0) {
        Some(i) => {
            assert(s@.contains(c));
            let ghost k = choose_first(s@, c);
            assert(0 <= k < s@.len() && s@[k] == c && forall|j: int| 0 <= j < k ==> s@[j] != c);
            assert(k == i) by {
                if k < i {
                    assert(s@[k] != c);
                }
                if i < k {
                    assert(s@[i as int] != c);
                }
            }
            slice_chars(s, 0, i)
        },
        None => {
            assert(!s@.contains(c));
            slice_chars(s, 0, s.len())
        },
    }
}

fn second_field_exec(s: &[char], sep: &[char]) -> (r: Option<Vec<char>>)
    ensures
        r matches Some(v) ==> second_field(s@, sep@) == Some(v@),
        r is None ==> second_field(s@, sep@) is None,
{
    match find_exec(s, sep) {
        None => None,
        Some(i) => {
            proof {
                lemma_find_bounds(s@, sep@, 0);
            }
            let slen = s.len();
            let plen = sep.len();
            assert(i + plen <= slen);
            let after = slice_chars(s, i + plen, slen);
            assert(after@ == s@.skip(i + sep@.len()));
            match find_exec(&after, sep) {
                None => Some(after),
                Some(j) => {
                    proof {
                        lemma_find_bounds(after@, sep@, 0);
                    }
                    Some(slice_chars(&after, 0, j))
                },
            }
        },
    }
}

/// A found occurrence lies inside the text.
pub proof fn lemma_find_bounds(s: Seq<char>, p: Seq<char>, from: int)
    ensures
        crate::text::find_from(s, p, from) matches Some(i) ==> from <= i && i + p.len()
            <= s.len(),
    decreases s.len() + 1 - from,
{
    if from >= 0 && from + p.len() <= s.len() && !crate::text::occurs_at(s, from, p) {
        lemma_find_bounds(s, p, from + 1);
    }
}

/// Turns `plughw:CARD=PCH,DEV=0` into `PCH (device 0)`.
pub fn friendly_name(id: &str) -> (s: String)
    ensures
        s@ == friendly(id@),
{
    let cs = chars_of(id);
    if is_sound_server_chars(&cs) {
        let head = before_char_exec(&cs, ':');
        let name = if eq_chars(&head, &chars_of("pipewire")) {
            "PipeWire"
        } else if eq_chars(&head, &chars_of("pulse")) {
            "PulseAudio"
        } else {
            "ALSA default"
        };
        return name.to_string();
    }
    let card = match second_field_exec(&cs, &chars_of("CARD=")) {
        Some(rest) => before_char_exec(&rest, ','),
        None => slice_chars(&cs, 0, cs.len()),
    };
    let device = match second_field_exec(&cs, &chars_of("DEV=")) {
        Some(d) => parse_u32_exec(&d),
        None => None,
    };
    match device {
        Some(n) => {
            if n == 0 {
                string_of(&card)
            } else {
                let mut out = card;
                append_str(&mut out, " (device ");
                push_dec(&mut out, n as u64);
                append_str(&mut out, ")");
                string_of(&out)
            }
        },
        None => string_of(&card),
    }
}

/// Reduces raw ALSA enumeration to devices worth offering, and gives them
/// readable names.
///
/// cpal enumerates every ALSA plugin permutation, and `hw:` entries take
/// exclusive access to the card, which fails whenever a sound server holds
/// it. What survives: the sound server's own device, the ALSA default, and
/// the `plughw:` wrappers — the sound server first, then the rest by name,
/// each name once.
pub fn usable_devices(raw: Vec<Device>) -> (out: Vec<Device>)
    ensures
        device_views(out@) == offered(device_views(raw@)),
{
    let ghost orig = raw@;
    let mut rest = raw;
    let total: usize = rest.len();
    let mut kept: Vec<Device> = Vec::new();
    let mut i: usize = 0;
    while rest.len() > 0
        invariant
            i + rest@.len() == orig.len(),
            orig.len() == total,
            rest@ == orig.skip(i as int),
            device_views(kept@) == usable_views(device_views(orig.take(i as int))),
        decreases rest@.len(),
    {
        let (id, _name) = rest.remove(0);
        proof {
            let s = device_views(orig.take(i + 1));
            assert(s.drop_last() == device_views(orig.take(i as int)));
            assert(s.last().0 == id@);
        }
        if is_usable(id.as_str()) {
            let label = friendly_name(id.as_str());
            kept.push((id, label));
        }
        i = i + 1;
    }
    assert(orig.take(i as int) == orig);
    let sorted = sort_devices(DeviceOrder::ServerThenName, kept);
    dedup_device_list(false, sorted)
}

/// The PCM name cpal should open for a selection: a `PipeWire` node cannot
/// be opened directly, so the server's default PCM is opened and the stream
/// moved afterwards.
pub fn cpal_selector(id: &str) -> (s: String)
    ensures
        s@ == (if starts_with(id@, "pw:"@) {
            "pipewire"@
        } else {
            id@
        }),
{
    if pipewire::is_node(id) {
        pipewire::SERVER_PCM.to_string()
    } else {
        id.to_string()
    }
}

} // verus!
