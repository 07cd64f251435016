//! Call-control rules of the calling engine that do not need a live SIP
//! stack: the bookkeeping that ties the stack's calls to our own ids, what a
//! transfer may be sent to, and which keys are tones.
use std::collections::HashMap;

use vstd::prelude::*;

use crate::call::{CallEvent, CallId, CallState, RegistrationState};
use crate::error::{Result, SipsterError};
use crate::assoc::{index_map, keys_distinct, lemma_index_map_facts, lookup};
use crate::text::{chars_of, string_of, trim, trim_chars};

verus! {

broadcast use vstd::string::group_string_axioms;

/// `m` without the keys that name the call `id`.
pub open spec fn forget_call(m: Map<Seq<char>, CallId>, id: CallId) -> Map<Seq<char>, CallId> {
    Map::new(|k: Seq<char>| m.contains_key(k) && m[k] != id, |k: Seq<char>| m[k])
}

/// The handle tracked under `id`, if any.
pub open spec fn handle_of<T>(calls: Map<u128, T>, id: CallId) -> Option<T> {
    if calls.contains_key(id.0) {
        Some(calls[id.0])
    } else {
        None
    }
}

/// Taking a call hands back the handle that inserting it stored: hanging up
/// needs the handle to send its BYE.
pub proof fn law_take_returns_the_inserted_handle<T>(calls: Map<u128, T>, id: CallId, handle: T)
    ensures
        handle_of(calls.insert(id.0, handle), id) == Some(handle),
{
}

/// After a call is inserted and taken, nothing of it is left: its stack
/// `Call-ID` no longer resolves, and neither its handle nor its audio
/// binding remains.
pub proof fn law_take_clears_every_index<T, A>(
    calls: Map<u128, T>,
    rvoip_ids: Map<Seq<char>, CallId>,
    audio: Map<u128, A>,
    rvoip_id: Seq<char>,
    id: CallId,
    handle: T,
)
    ensures
        lookup(forget_call(rvoip_ids.insert(rvoip_id, id), id), rvoip_id) is None,
        !calls.insert(id.0, handle).remove(id.0).contains_key(id.0),
        !audio.remove(id.0).contains_key(id.0),
{
}

/// Taking one call leaves another alone: its `Call-ID` still resolves to it
/// and its handle can still be taken.
pub proof fn law_calls_are_tracked_independently<T>(
    calls: Map<u128, T>,
    rvoip_ids: Map<Seq<char>, CallId>,
    first_rvoip: Seq<char>,
    first: CallId,
    a: T,
    second_rvoip: Seq<char>,
    second: CallId,
    b: T,
)
    requires
        first != second,
        first_rvoip != second_rvoip,
    ensures
        lookup(
            forget_call(rvoip_ids.insert(first_rvoip, first).insert(second_rvoip, second), first),
            second_rvoip,
        ) == Some(second),
        handle_of(calls.insert(first.0, a).insert(second.0, b).remove(first.0), second) == Some(b),
{
    assert(first.0 != second.0);
}

/// Maps our stable [`CallId`]s to the stack's call handles and back.
///
/// Generic over the handle type `T` and the audio binding `A`: the stack's
/// handles cannot be built without a live stack, so any stand-in exercises
/// the same bookkeeping. Calls are keyed by the 128 bits of their id.
pub struct Registry<T, A> {
    /// Our call id -> the stack's handle.
    pub calls: HashMap<u128, T>,
    /// The stack's `Call-ID` string -> our id, for correlating inbound events.
    pub by_rvoip: Vec<(String, CallId)>,
    /// Live audio bindings; dropping an entry stops that call's audio.
    pub audio: HashMap<u128, A>,
}

impl<T, A> Registry<T, A> {
    /// The registry's invariant: each stack `Call-ID` is indexed once.
    pub open spec fn well_formed(&self) -> bool {
        keys_distinct(self.by_rvoip@)
    }

    /// The index of stack `Call-ID`s, as a map.
    pub open spec fn rvoip_ids(&self) -> Map<Seq<char>, CallId> {
        index_map(self.by_rvoip@)
    }

    /// An empty registry.
    pub fn new() -> (r: Self)
        ensures
            r.well_formed(),
            r.calls@ == Map::<u128, T>::empty(),
            r.rvoip_ids() == Map::<Seq<char>, CallId>::empty(),
            r.audio@ == Map::<u128, A>::empty(),
    {
        Registry { calls: HashMap::new(), by_rvoip: Vec::new(), audio: HashMap::new() }
    }

    /// Tracks a new call under a fresh id, indexed by the stack's `Call-ID`.
    pub fn insert(&mut self, rvoip_id: String, handle: T) -> (id: CallId)
        requires
            old(self).well_formed(),
        ensures
            final(self).well_formed(),
            final(self).calls@ == old(self).calls@.insert(id.0, handle),
            final(self).rvoip_ids() == old(self).rvoip_ids().insert(rvoip_id@, id),
            final(self).audio@ == old(self).audio@,
    {
        let id = CallId::new();
        crate::assoc::insert(&mut self.by_rvoip, rvoip_id, id);
        self.calls.insert(id.0, handle);
        id
    }

    /// Our id for the stack's `Call-ID`, if the call is known.
    pub fn resolve(&self, rvoip_id: &str) -> (r: Option<CallId>)
        requires
            self.well_formed(),
        ensures
            r == lookup(self.rvoip_ids(), rvoip_id@),
    {
        match crate::assoc::get(&self.by_rvoip, rvoip_id) {
            Some(id) => Some(*id),
            None => None,
        }
    }

    /// Forgets a call and returns its handle, so the caller can still act on
    /// it (send BYE/CANCEL) after the bookkeeping is gone. Its audio binding
    /// is dropped, which stops its audio.
    pub fn take(&mut self, id: CallId) -> (r: Option<T>)
        requires
            old(self).well_formed(),
        ensures
            final(self).well_formed(),
            r == handle_of(old(self).calls@, id),
            final(self).calls@ == old(self).calls@.remove(id.0),
            final(self).rvoip_ids() == forget_call(old(self).rvoip_ids(), id),
            final(self).audio@ == old(self).audio@.remove(id.0),
    {
        let handle = self.calls.remove(&id.0);
        let ghost before = self.by_rvoip@;
        let mut kept: Vec<(String, CallId)> = Vec::new();
        let mut i: usize = 0;
        proof {
            assert(before.take(0) =~= Seq::<(String, CallId)>::empty());
            assert(forget_call(index_map(before.take(0)), id) =~= index_map(kept@));
        }
        while i < self.by_rvoip.len()
            invariant
                i <= self.by_rvoip.len(),
                self.by_rvoip@ == before,
                keys_distinct(before),
                keys_distinct(kept@),
                forall|a: int| 0 <= a < kept@.len() ==> exists|b: int|
                    0 <= b < i && #[trigger] kept@[a].0@ == #[trigger] before[b].0@,
                index_map(kept@) == forget_call(index_map(before.take(i as int)), id),
            decreases self.by_rvoip.len() - i,
        {
            let ghost prefix = before.take(i as int);
            proof {
                assert(before.take(i + 1).drop_last() == prefix);
                lemma_index_map_facts(prefix);
                assert forall|b: int| 0 <= b < prefix.len() implies #[trigger] prefix[b].0@
                    != before[i as int].0@ by {
                    assert(prefix[b] == before[b]);
                }
            }
            if self.by_rvoip[i].1 != id {
                let key = self.by_rvoip[i].0.clone();
                let ghost old_kept = kept@;
                kept.push((key, self.by_rvoip[i].1));
                proof {
                    assert(kept@.drop_last() == old_kept);
                    assert(keys_distinct(kept@)) by {
                        assert forall|a: int, b: int| 0 <= a < b < kept@.len() implies
                            #[trigger] kept@[a].0@ != #[trigger] kept@[b].0@ by {
                            if b == old_kept.len() {
                                assert(kept@[a] == old_kept[a]);
                                let w = choose|w: int| 0 <= w < i && #[trigger] old_kept[a].0@ == #[trigger] before[w].0@;
                                assert(before[w].0@ != before[i as int].0@);
                            } else {
                                assert(kept@[a] == old_kept[a] && kept@[b] == old_kept[b]);
                            }
                        }
                    }
                    assert forall|a: int| 0 <= a < kept@.len() implies exists|b: int|
                        0 <= b < i + 1 && #[trigger] kept@[a].0@ == #[trigger] before[b].0@ by {
                        if a == old_kept.len() {
                            assert(kept@[a].0@ == before[i as int].0@);
                        } else {
                            assert(kept@[a] == old_kept[a]);
                            let w = choose|w: int| 0 <= w < i && #[trigger] old_kept[a].0@ == #[trigger] before[w].0@;
                            assert(kept@[a].0@ == before[w].0@);
                        }
                    }
                    assert(index_map(kept@) =~= forget_call(index_map(before.take(i + 1)), id));
                }
            } else {
                proof {
                    assert forall|a: int| 0 <= a < kept@.len() implies exists|b: int|
                        0 <= b < i + 1 && #[trigger] kept@[a].0@ == #[trigger] before[b].0@ by {
                        let w = choose|w: int| 0 <= w < i && #[trigger] kept@[a].0@ == #[trigger] before[w].0@;
                        assert(kept@[a].0@ == before[w].0@);
                    }
                    assert(index_map(kept@) =~= forget_call(index_map(before.take(i + 1)), id));
                }
            }
            i = i + 1;
        }
        proof {
            assert(before.take(i as int) == before);
        }
        self.by_rvoip = kept;
        self.audio.remove(&id.0);
        handle
    }
}

/// The registration statuses the SIP stack reports.
#[derive(Debug, Clone, Copy, PartialEq, Eq, Structural)]
pub enum RegistrationStatus {
    Registered,
    Registering,
    Unregistering,
    Unregistered,
    Failed,
}

/// The registration state the UI's status line shows for what the stack
/// reports. `Failed` carries the registrar's reason, so a wrong password
/// reads as what it is.
pub fn registration_state(status: RegistrationStatus, last_failure: Option<String>) -> (r: RegistrationState)
    ensures
        status == RegistrationStatus::Registered ==> r == RegistrationState::Registered,
        (status == RegistrationStatus::Registering || status == RegistrationStatus::Unregistering)
            ==> r == RegistrationState::Registering,
        status == RegistrationStatus::Unregistered ==> r == RegistrationState::Unregistered,
        status == RegistrationStatus::Failed ==> (r matches RegistrationState::Failed(m) && m@ == match last_failure {
            Some(f) => f@,
            None => "registration rejected"@,
        }),
{
    match status {
        RegistrationStatus::Registered => RegistrationState::Registered,
        RegistrationStatus::Registering | RegistrationStatus::Unregistering => RegistrationState::Registering,
        RegistrationStatus::Unregistered => RegistrationState::Unregistered,
        RegistrationStatus::Failed => RegistrationState::Failed(
            match last_failure {
                Some(f) => f,
                None => "registration rejected".to_string(),
            },
        ),
    }
}

impl<T, A> Registry<T, A> {
    /// Records a ringing inbound call and announces it.
    pub fn on_incoming_call(&mut self, rvoip_id: String, from: String, handle: T) -> (e: CallEvent)
        requires
            old(self).well_formed(),
        ensures
            final(self).well_formed(),
            e matches CallEvent::IncomingCall { id, remote_uri, display_name } && remote_uri == from
                && display_name is None && final(self).calls@ == old(self).calls@.insert(id.0, handle)
                && final(self).rvoip_ids() == old(self).rvoip_ids().insert(rvoip_id@, id),
            final(self).audio@ == old(self).audio@,
    {
        let id = self.insert(rvoip_id, handle);
        CallEvent::IncomingCall { id, remote_uri: from, display_name: None }
    }

    /// What a provisional response (180/183) for a known call announces.
    pub fn on_call_progress(&self, rvoip_id: &str) -> (e: Option<CallEvent>)
        requires
            self.well_formed(),
        ensures
            match lookup(self.rvoip_ids(), rvoip_id@) {
                Some(id) => e == Some(CallEvent::StateChanged { id, state: CallState::Ringing }),
                None => e is None,
            },
    {
        match self.resolve(rvoip_id) {
            Some(id) => Some(CallEvent::StateChanged { id, state: CallState::Ringing }),
            None => None,
        }
    }

    /// Promotes an answered call to active with its new handle; nothing for
    /// a call we do not know.
    pub fn on_call_answered(&mut self, rvoip_id: &str, handle: T) -> (e: Option<CallEvent>)
        requires
            old(self).well_formed(),
        ensures
            final(self).well_formed(),
            final(self).rvoip_ids() == old(self).rvoip_ids(),
            final(self).audio@ == old(self).audio@,
            match lookup(old(self).rvoip_ids(), rvoip_id@) {
                Some(id) => e == Some(CallEvent::StateChanged { id, state: CallState::Active })
                    && final(self).calls@ == old(self).calls@.insert(id.0, handle),
                None => e is None && final(self).calls@ == old(self).calls@,
            },
    {
        match self.resolve(rvoip_id) {
            Some(id) => {
                self.calls.insert(id.0, handle);
                Some(CallEvent::StateChanged { id, state: CallState::Active })
            },
            None => None,
        }
    }

    /// Forgets an ended, failed or cancelled call and announces it; the
    /// handle comes back so the caller can still act on it.
    pub fn on_call_ended(&mut self, rvoip_id: &str, reason: String) -> (r: (Option<CallEvent>, Option<T>))
        requires
            old(self).well_formed(),
        ensures
            final(self).well_formed(),
            match lookup(old(self).rvoip_ids(), rvoip_id@) {
                Some(id) => r.0 == Some(CallEvent::Terminated { id, reason }) && r.1 == handle_of(
                    old(self).calls@,
                    id,
                ) && final(self).calls@ == old(self).calls@.remove(id.0) && final(self).rvoip_ids()
                    == forget_call(old(self).rvoip_ids(), id) && final(self).audio@ == old(
                    self,
                ).audio@.remove(id.0),
                None => r.0 is None && r.1 is None && final(self).calls@ == old(self).calls@
                    && final(self).rvoip_ids() == old(self).rvoip_ids() && final(self).audio@ == old(
                    self,
                ).audio@,
            },
    {
        match self.resolve(rvoip_id) {
            Some(id) => {
                let handle = self.take(id);
                (Some(CallEvent::Terminated { id, reason }), handle)
            },
            None => (None, None),
        }
    }
}

impl<T, A> Default for Registry<T, A> {
    fn default() -> (r: Self)
        ensures
            r.well_formed(),
            r.calls@ == Map::<u128, T>::empty(),
            r.rvoip_ids() == Map::<Seq<char>, CallId>::empty(),
            r.audio@ == Map::<u128, A>::empty(),
    {
        Registry::new()
    }
}

/// Validates a blind-transfer target.
///
/// Transfer hands the call away irreversibly, so an empty or whitespace-only
/// target is refused here rather than sent — a REFER to nowhere drops the call
/// with no way back.
pub fn transfer_target(target: &str) -> (r: Result<String>)
    ensures
        trim(target@).len() == 0 ==> (r matches Err(SipsterError::Config(m)) && m@
            == "no transfer target given"@),
        trim(target@).len() > 0 ==> (r matches Ok(t) && t@ == trim(target@)),
{
    let all = chars_of(target);
    let t = trim_chars(&all);
    if t.len() == 0 {
        return Err(SipsterError::Config("no transfer target given".to_string()));
    }
    Ok(string_of(&t))
}

/// The RFC 4733 events: the twelve keys of a phone plus the A-D tones.
pub open spec fn dtmf_event(c: char) -> bool {
    ||| '0' <= c <= '9'
    ||| c == '*'
    ||| c == '#'
    ||| 'A' <= c <= 'D'
    ||| 'a' <= c <= 'd'
}

/// Whether `digit` is a sendable DTMF event.
///
/// `+` and anything else on the dialpad is dial-string syntax, not a tone.
pub fn is_dtmf_digit(digit: char) -> (b: bool)
    ensures
        b == dtmf_event(digit),
{
    ('0' <= digit && digit <= '9') || digit == '*' || digit == '#' || ('A' <= digit && digit
        <= 'D') || ('a' <= digit && digit <= 'd')
}

} // verus!
