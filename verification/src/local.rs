//! Local storage for Sipster's in-app call history and local contacts.
//!
//! What the store decides is here: where its files are, what a new call
//! record or an edited contact does to what is stored, and that history is
//! capped. Reading and writing the files is the caller's; a store with no
//! directory reads empty and drops writes, so the app runs without history
//! rather than failing to start.
use vstd::prelude::*;

use crate::instance::path_join;
use crate::model::{CallRecord, Contact};
use crate::text::{append_str, chars_of, eq_chars, string_of};

verus! {

broadcast use vstd::string::group_string_axioms;

/// File name for local call history.
pub const HISTORY_FILE: &'static str = "history.json";

/// File name for local contacts.
pub const CONTACTS_FILE: &'static str = "contacts.json";

/// Cap on retained call records, so history cannot grow without bound.
pub const MAX_HISTORY_RECORDS: usize = 500;

/// Local store on disk, in `~/.local/share/sipster` or the platform
/// equivalent; `data_dir` is `None` when no writable directory was found.
#[derive(Debug, Clone)]
pub struct LocalStore {
    pub data_dir: Option<String>,
}

pub open spec fn opt_file(dir: Option<String>, name: Seq<char>) -> Option<Seq<char>> {
    match dir {
        Some(d) => Some(path_join(d@, name)),
        None => None,
    }
}

/// The history after a call is recorded: the call first, then what was
/// there, cut to the cap.
pub open spec fn recorded_history(calls: Seq<CallRecord>, call: CallRecord) -> Seq<CallRecord> {
    let all = seq![call] + calls;
    if all.len() > MAX_HISTORY_RECORDS {
        all.take(MAX_HISTORY_RECORDS as int)
    } else {
        all
    }
}

/// The first index of a contact with this id.
pub open spec fn contact_index(contacts: Seq<Contact>, id: Seq<char>, from: int) -> Option<int>
    decreases contacts.len() - from,
{
    if from < 0 || from >= contacts.len() {
        None
    } else if contacts[from].id@ == id {
        Some(from)
    } else {
        contact_index(contacts, id, from + 1)
    }
}

/// The contacts after `contact` is saved: in place of the first with its
/// id, else at the end.
pub open spec fn saved_contacts(contacts: Seq<Contact>, contact: Contact) -> Seq<Contact> {
    match contact_index(contacts, contact.id@, 0) {
        Some(i) => contacts.update(i, contact),
        None => contacts.push(contact),
    }
}

/// The contacts without those with this id, in order.
pub open spec fn without_id(contacts: Seq<Contact>, id: Seq<char>) -> Seq<Contact>
    decreases contacts.len(),
{
    if contacts.len() == 0 {
        contacts
    } else if contacts.last().id@ == id {
        without_id(contacts.drop_last(), id)
    } else {
        without_id(contacts.drop_last(), id).push(contacts.last())
    }
}

fn joined_path(dir: &String, name: &str) -> (p: String)
    ensures
        p@ == path_join(dir@, name@),
{
    let mut out = chars_of(dir.as_str());
    if out.len() > 0 && out[out.len() - 1] != '/' {
        out.push('/');
        proof {
            reveal_strlit("/");
        }
    }
    append_str(&mut out, name);
    string_of(&out)
}

impl LocalStore {
    /// A store in `data_dir`.
    pub fn with_directory(data_dir: String) -> (s: Self)
        ensures
            s.data_dir == Some(data_dir),
    {
        LocalStore { data_dir: Some(data_dir) }
    }

    /// A store with nowhere to write. Reads are empty, writes are dropped.
    pub fn disabled() -> (s: Self)
        ensures
            s.data_dir is None,
    {
        LocalStore { data_dir: None }
    }

    /// Whether this store actually persists anything.
    pub fn is_enabled(&self) -> (b: bool)
        ensures
            b == self.data_dir is Some,
    {
        self.data_dir.is_some()
    }

    /// Where the call history is kept, if anywhere.
    pub fn history_path(&self) -> (p: Option<String>)
        ensures
            match p {
                Some(x) => opt_file(self.data_dir, HISTORY_FILE@) == Some(x@),
                None => self.data_dir is None,
            },
    {
        match &self.data_dir {
            Some(d) => Some(joined_path(d, HISTORY_FILE)),
            None => None,
        }
    }

    /// Where the local contacts are kept, if anywhere.
    pub fn contacts_path(&self) -> (p: Option<String>)
        ensures
            match p {
                Some(x) => opt_file(self.data_dir, CONTACTS_FILE@) == Some(x@),
                None => self.data_dir is None,
            },
    {
        match &self.data_dir {
            Some(d) => Some(joined_path(d, CONTACTS_FILE)),
            None => None,
        }
    }

    /// The history with `call` recorded: most recent first, capped.
    pub fn with_call(calls: Vec<CallRecord>, call: CallRecord) -> (out: Vec<CallRecord>)
        ensures
            out@ == recorded_history(calls@, call),
    {
        let mut out = calls;
        out.insert(0, call);
        if out.len() > MAX_HISTORY_RECORDS {
            out.truncate(MAX_HISTORY_RECORDS);
        }
        out
    }

    /// The contacts with `contact` added, or put in place of the first one
    /// with its id.
    pub fn with_contact(contacts: Vec<Contact>, contact: Contact) -> (out: Vec<Contact>)
        ensures
            out@ == saved_contacts(contacts@, contact),
    {
        let mut out = contacts;
        let mut i: usize = 0;
        let ghost before = out@;
        while i < out.len()
            invariant
                i <= out.len(),
                out@ == before,
                before == contacts@,
                contact_index(before, contact.id@, 0) == contact_index(before, contact.id@, i as int),
            decreases out.len() - i,
        {
            if eq_chars(&chars_of(out[i].id.as_str()), &chars_of(contact.id.as_str())) {
                assert(before[i as int].id@ == contact.id@);
                assert(contact_index(before, contact.id@, i as int) == Some(i as int));
                out.set(i, contact);
                return out;
            }
            i = i + 1;
        }
        out.push(contact);
        out
    }

    /// The contacts without any with id `contact_id`.
    pub fn without_contact(contacts: Vec<Contact>, contact_id: &str) -> (out: Vec<Contact>)
        ensures
            out@ == without_id(contacts@, contact_id@),
    {
        let mut out: Vec<Contact> = Vec::new();
        let mut rest = contacts;
        let ghost all = rest@;
        assert(rest.len() == all.len());
        let mut i: usize = 0;
        while rest.len() > 0
            invariant
                i + rest@.len() == all.len(),
                all.len() <= usize::MAX,
                rest@ == all.skip(i as int),
                out@ == without_id(all.take(i as int), contact_id@),
            decreases rest@.len(),
        {
            let c = rest.remove(0);
            assert(all.take(i + 1).drop_last() == all.take(i as int));
            assert(all.take(i + 1).last() == c);
            assert(rest@ == all.skip(i + 1));
            if !eq_chars(&chars_of(c.id.as_str()), &chars_of(contact_id)) {
                out.push(c);
            }
            i = i + 1;
        }
        assert(all.take(i as int) == all);
        out
    }
}

/// However many calls are recorded, the history never holds more than the
/// cap, and the newest call is always first.
pub proof fn law_history_is_capped_and_newest_first(calls: Seq<CallRecord>, call: CallRecord)
    requires
        calls.len() <= MAX_HISTORY_RECORDS,
    ensures
        recorded_history(calls, call).len() <= MAX_HISTORY_RECORDS,
        recorded_history(calls, call)[0] == call,
{
}

/// After a contact is saved it is there, and after its id is deleted no
/// contact with that id is.
pub proof fn law_saved_contacts_are_found_and_deleted_ones_are_not(contacts: Seq<Contact>, contact: Contact)
    ensures
        saved_contacts(contacts, contact).contains(contact),
        forall|i: int|
            0 <= i < without_id(saved_contacts(contacts, contact), contact.id@).len() ==> (
            #[trigger] without_id(saved_contacts(contacts, contact), contact.id@)[i]).id@
                != contact.id@,
{
    lemma_contact_index_bounds(contacts, contact.id@, 0);
    let saved = saved_contacts(contacts, contact);
    match contact_index(contacts, contact.id@, 0) {
        Some(i) => assert(saved[i] == contact),
        None => assert(saved[contacts.len() as int] == contact),
    }
    lemma_without_id_excludes(saved, contact.id@);
}

pub proof fn lemma_contact_index_bounds(contacts: Seq<Contact>, id: Seq<char>, from: int)
    requires
        0 <= from,
    ensures
        contact_index(contacts, id, from) matches Some(i) ==> from <= i < contacts.len(),
    decreases contacts.len() - from,
{
    if from < contacts.len() {
        lemma_contact_index_bounds(contacts, id, from + 1);
    }
}

pub proof fn lemma_without_id_excludes(contacts: Seq<Contact>, id: Seq<char>)
    ensures
        forall|i: int|
            0 <= i < without_id(contacts, id).len() ==> (#[trigger] without_id(contacts, id)[i]).id@
                != id,
    decreases contacts.len(),
{
    if contacts.len() > 0 {
        lemma_without_id_excludes(contacts.drop_last(), id);
        let prev = without_id(contacts.drop_last(), id);
        if contacts.last().id@ != id {
            assert forall|i: int| 0 <= i < prev.push(contacts.last()).len() implies (
            #[trigger] prev.push(contacts.last())[i]).id@ != id by {
                if i < prev.len() {
                    assert(prev.push(contacts.last())[i] == prev[i]);
                }
            }
        }
    }
}

} // verus!
