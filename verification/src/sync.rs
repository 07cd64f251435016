//! Merging what the contact providers return.
//!
//! Every provider — the router, Google, `CardDAV`, vCard directories,
//! Evolution — is asked at once by the caller; what comes back is merged
//! here: ordered by name without regard to case, and the same person
//! reported twice in a row collapsed to one. Call history from local
//! storage and the router is merged with each call kept once.
use vstd::prelude::*;

use crate::model::{primary_of, CallRecord, Contact};
use crate::order::{
    lex_order, lex_order_exec,
};
use crate::text::{
    chars_of, eq_chars, lower_seq, lower_vec,
};

verus! {

broadcast use vstd::string::group_string_axioms;

/// A text's Unicode lowercase form.
pub uninterp spec fn unicode_lower(s: Seq<char>) -> Seq<char>;

/// `str::to_lowercase`: the Unicode lowercase form of a text.
#[verifier::external_body]
pub(crate) fn to_lowercase(s: &str) -> (r: String)
    ensures
        r@ == unicode_lower(s@),
{
    s.to_lowercase()
}

/// Where a stable insertion puts an entry keyed `k` into the ordered `s`:
/// after every entry whose key is not greater.
pub open spec fn key_insert_pos(s: Seq<(Seq<char>, Contact)>, k: Seq<char>) -> int
    decreases s.len(),
{
    if s.len() == 0 {
        0
    } else if lex_order(s.last().0, k) > 0 {
        key_insert_pos(s.drop_last(), k)
    } else {
        s.len() as int
    }
}

/// Entries stably sorted by key, as `slice::sort_by_cached_key` leaves them.
pub open spec fn key_sorted(s: Seq<(Seq<char>, Contact)>) -> Seq<(Seq<char>, Contact)>
    decreases s.len(),
{
    if s.len() == 0 {
        s
    } else {
        let t = key_sorted(s.drop_last());
        t.insert(key_insert_pos(t, s.last().0), s.last())
    }
}

/// Whether two contacts are the same person reported twice: names equal
/// but for ASCII case, and the same number to dial.
pub open spec fn same_contact(a: Contact, b: Contact) -> bool {
    lower_seq(a.name@) == lower_seq(b.name@) && primary_of(a.numbers@) == primary_of(b.numbers@)
}

/// Runs of the same contact collapsed onto their first, as `Vec::dedup_by`
/// does.
pub open spec fn dedup_contacts(s: Seq<Contact>) -> Seq<Contact>
    decreases s.len(),
{
    if s.len() == 0 {
        s
    } else {
        let d = dedup_contacts(s.drop_last());
        if d.len() > 0 && same_contact(s.last(), d.last()) {
            d
        } else {
            d.push(s.last())
        }
    }
}

/// The merged contact list: sorted by lowercase name, duplicates dropped.
pub open spec fn merged_contacts(s: Seq<Contact>) -> Seq<Contact> {
    dedup_contacts(
        key_sorted(s.map_values(|c: Contact| (unicode_lower(c.name@), c))).map_values(
            |p: (Seq<char>, Contact)| p.1,
        ),
    )
}

fn same_contact_exec(a: &Contact, b: &Contact) -> (r: bool)
    ensures
        r == same_contact(*a, *b),
{
    let an = lower_vec(&chars_of(a.name.as_str()));
    let bn = lower_vec(&chars_of(b.name.as_str()));
    if !eq_chars(&an, &bn) {
        return false;
    }
    let pa = a.primary_number();
    let pb = b.primary_number();
    match (pa, pb) {
        (None, None) => true,
        (Some(x), Some(y)) => eq_chars(&chars_of(x), &chars_of(y)),
        _ => false,
    }
}

/// Merges the contacts of every provider: ordered by name without regard
/// to case (stably), and each run of the same contact — names equal but for
/// ASCII case, with the same number to dial — kept once, as its first.
pub fn merge_contacts(contacts: Vec<Contact>) -> (out: Vec<Contact>)
    ensures
        out@ == merged_contacts(contacts@),
{
    let ghost orig = contacts@;
    let ghost keyed = orig.map_values(|c: Contact| (unicode_lower(c.name@), c));
    assert(contacts.len() == orig.len());
    let mut rest = contacts;
    let mut sorted: Vec<(String, Contact)> = Vec::new();
    let mut i: usize = 0;
    while rest.len() > 0
        invariant
            i + rest@.len() == orig.len(),
            orig.len() <= usize::MAX,
            rest@ == orig.skip(i as int),
            keyed == orig.map_values(|c: Contact| (unicode_lower(c.name@), c)),
            sorted@.map_values(|p: (String, Contact)| (p.0@, p.1)) == key_sorted(keyed.take(i as int)),
        decreases rest@.len(),
    {
        let c = rest.remove(0);
        let key = to_lowercase(c.name.as_str());
        let kc = chars_of(key.as_str());
        let ghost xv = (key@, c);
        let ghost t = sorted@.map_values(|p: (String, Contact)| (p.0@, p.1));
        assert(keyed[i as int] == xv);
        let mut p: usize = sorted.len();
        assert(t.take(t.len() as int) == t);
        while p > 0 && lex_order_exec(&chars_of(sorted[p - 1].0.as_str()), &kc) > 0
            invariant
                p <= sorted@.len(),
                t == sorted@.map_values(|p: (String, Contact)| (p.0@, p.1)),
                kc@ == key@,
                key_insert_pos(t, key@) == key_insert_pos(t.take(p as int), key@),
            decreases p,
        {
            assert(t.take(p as int).drop_last() == t.take(p - 1));
            assert(t.take(p as int).last() == t[p - 1]);
            p = p - 1;
        }
        proof {
            if p > 0 {
                assert(t.take(p as int).last() == t[p - 1]);
            }
        }
        sorted.insert(p, (key, c));
        proof {
            let s = keyed.take(i + 1);
            assert(s.drop_last() == keyed.take(i as int));
            assert(s.last() == xv);
            assert(sorted@.map_values(|p: (String, Contact)| (p.0@, p.1)) =~= t.insert(p as int, xv));
        }
        i = i + 1;
    }
    assert(keyed.take(i as int) == keyed);
    let ghost sv = key_sorted(keyed).map_values(|p: (Seq<char>, Contact)| p.1);
    let ghost total = sorted@.len();
    assert(sorted.len() == total);
    assert(sv.len() == total);
    let mut left = sorted;
    let mut out: Vec<Contact> = Vec::new();
    let mut j: usize = 0;
    while left.len() > 0
        invariant
            j + left@.len() == total,
            total <= usize::MAX,
            sv.len() == total,
            forall|k: int| 0 <= k < left@.len() ==> #[trigger] left@[k].1 == sv[j + k],
            out@ == dedup_contacts(sv.take(j as int)),
        decreases left@.len(),
    {
        assert(sv.take(j + 1).drop_last() == sv.take(j as int));
        assert(left@[0].1 == sv[j as int]);
        assert(sv.take(j + 1).last() == sv[j as int]);
        let ghost before = left@;
        let (_, c) = left.remove(0);
        assert forall|k: int| 0 <= k < left@.len() implies #[trigger] left@[k].1 == sv[j + 1 + k] by {
            assert(left@[k] == before[k + 1]);
        }
        if out.len() > 0 && same_contact_exec(&c, &out[out.len() - 1]) {
        } else {
            out.push(c);
        }
        j = j + 1;
    }
    assert(sv.take(j as int) == sv);
    out
}

/// After merging, no contact follows one it duplicates: each run of the
/// same person is kept once.
pub proof fn law_merged_contacts_have_no_adjacent_duplicates(s: Seq<Contact>)
    ensures
        forall|i: int|
            0 <= i < dedup_contacts(s).len() - 1 ==> !same_contact(
                #[trigger] dedup_contacts(s)[i + 1],
                dedup_contacts(s)[i],
            ),
    decreases s.len(),
{
    if s.len() > 0 {
        law_merged_contacts_have_no_adjacent_duplicates(s.drop_last());
        let d = dedup_contacts(s.drop_last());
        if !(d.len() > 0 && same_contact(s.last(), d.last())) {
            let e = d.push(s.last());
            assert forall|i: int| 0 <= i < e.len() - 1 implies !same_contact(
                #[trigger] e[i + 1],
                e[i],
            ) by {
                if i + 1 < d.len() {
                    assert(e[i + 1] == d[i + 1] && e[i] == d[i]);
                } else {
                    assert(e[i] == d.last());
                }
            }
        }
    }
}

/// Whether two call records are the same call reported twice: the same
/// time and the same far party.
pub open spec fn same_call(a: CallRecord, b: CallRecord) -> bool {
    a.timestamp@ == b.timestamp@ && a.remote_number@ == b.remote_number@
}

/// Whether `kept` already holds the call `c`.
pub open spec fn holds_call(kept: Seq<CallRecord>, c: CallRecord) -> bool {
    exists|i: int| 0 <= i < kept.len() && same_call(#[trigger] kept[i], c)
}

/// The call history with each call kept once, as it was first reported:
/// local history and the router's list both report the calls made here.
pub open spec fn distinct_calls(s: Seq<CallRecord>) -> Seq<CallRecord>
    decreases s.len(),
{
    if s.len() == 0 {
        s
    } else {
        let d = distinct_calls(s.drop_last());
        if holds_call(d, s.last()) {
            d
        } else {
            d.push(s.last())
        }
    }
}

fn same_call_exec(a: &CallRecord, b: &CallRecord) -> (r: bool)
    ensures
        r == same_call(*a, *b),
{
    eq_chars(&chars_of(a.timestamp.as_str()), &chars_of(b.timestamp.as_str())) && eq_chars(
        &chars_of(a.remote_number.as_str()),
        &chars_of(b.remote_number.as_str()),
    )
}

/// Merges the call history of every source: each call — the same time and
/// far party — kept once, in the order the sources reported them.
pub fn merge_calls(calls: Vec<CallRecord>) -> (out: Vec<CallRecord>)
    ensures
        out@ == distinct_calls(calls@),
{
    let ghost all = calls@;
    assert(calls.len() == all.len());
    let mut rest = calls;
    let mut out: Vec<CallRecord> = Vec::new();
    let mut i: usize = 0;
    while rest.len() > 0
        invariant
            i + rest@.len() == all.len(),
            all.len() <= usize::MAX,
            rest@ == all.skip(i as int),
            out@ == distinct_calls(all.take(i as int)),
        decreases rest@.len(),
    {
        let c = rest.remove(0);
        assert(all.take(i + 1).drop_last() == all.take(i as int));
        assert(all.take(i + 1).last() == c);
        assert(rest@ == all.skip(i + 1));
        let mut j: usize = 0;
        let mut found = false;
        while j < out.len() && !found
            invariant
                j <= out.len(),
                found ==> holds_call(out@, c),
                !found ==> forall|k: int| 0 <= k < j ==> !same_call(#[trigger] out@[k], c),
            decreases out.len() - j,
        {
            if same_call_exec(&out[j], &c) {
                found = true;
            }
            j = j + 1;
        }
        if !found {
            out.push(c);
        }
        i = i + 1;
    }
    assert(all.take(i as int) == all);
    out
}

/// After merging, no call is listed twice.
pub proof fn law_merged_calls_are_listed_once(s: Seq<CallRecord>)
    ensures
        forall|i: int, j: int|
            0 <= i < j < distinct_calls(s).len() ==> !same_call(
                #[trigger] distinct_calls(s)[i],
                #[trigger] distinct_calls(s)[j],
            ),
    decreases s.len(),
{
    if s.len() > 0 {
        law_merged_calls_are_listed_once(s.drop_last());
        let d = distinct_calls(s.drop_last());
        if !holds_call(d, s.last()) {
            let e = d.push(s.last());
            assert forall|i: int, j: int| 0 <= i < j < e.len() implies !same_call(
                #[trigger] e[i],
                #[trigger] e[j],
            ) by {
                if j < d.len() {
                    assert(e[i] == d[i] && e[j] == d[j]);
                } else {
                    assert(e[i] == d[i]);
                    assert(e[j] == s.last());
                }
            }
        }
    }
}

/// Merging call history loses no call: for every call reported, the
/// merged history holds a call at the same time with the same far party,
/// and every merged call is one that was reported. So two calls that differ
/// in time or in number both stay.
pub proof fn law_merged_calls_keep_every_time_and_party(s: Seq<CallRecord>)
    ensures
        forall|i: int|
            0 <= i < s.len() ==> exists|j: int|
                0 <= j < distinct_calls(s).len() && (#[trigger] distinct_calls(s)[j]).timestamp@
                    == (#[trigger] s[i]).timestamp@ && distinct_calls(s)[j].remote_number@
                    == s[i].remote_number@,
        forall|j: int|
            0 <= j < distinct_calls(s).len() ==> exists|i: int|
                0 <= i < s.len() && #[trigger] s[i] == #[trigger] distinct_calls(s)[j],
    decreases s.len(),
{
    if s.len() > 0 {
        let p = s.drop_last();
        law_merged_calls_keep_every_time_and_party(p);
        let d = distinct_calls(p);
        let e = distinct_calls(s);
        let x = s.last();
        assert forall|i: int| 0 <= i < s.len() implies exists|j: int|
            0 <= j < e.len() && (#[trigger] e[j]).timestamp@ == (#[trigger] s[i]).timestamp@
                && e[j].remote_number@ == s[i].remote_number@ by {
            if i < p.len() {
                assert(s[i] == p[i]);
                let j = choose|j: int|
                    0 <= j < d.len() && (#[trigger] d[j]).timestamp@ == p[i].timestamp@
                        && d[j].remote_number@ == p[i].remote_number@;
                if holds_call(d, x) {
                    assert(e[j] == d[j]);
                } else {
                    assert(e[j] == d[j]);
                }
            } else {
                if holds_call(d, x) {
                    let j = choose|j: int| 0 <= j < d.len() && same_call(#[trigger] d[j], x);
                    assert(e[j] == d[j]);
                } else {
                    assert(e[d.len() as int] == x);
                }
            }
        }
        assert forall|j: int| 0 <= j < e.len() implies exists|i: int|
            0 <= i < s.len() && #[trigger] s[i] == #[trigger] e[j] by {
            if j < d.len() {
                assert(e[j] == d[j]);
                let i = choose|i: int| 0 <= i < p.len() && #[trigger] p[i] == #[trigger] d[j];
                assert(s[i] == p[i]);
            } else {
                assert(e[j] == x);
                assert(s[s.len() - 1] == x);
            }
        }
    }
}

/// Where a stable insertion goes is within the sequence.
pub proof fn lemma_key_insert_pos_bounds(s: Seq<(Seq<char>, Contact)>, k: Seq<char>)
    ensures
        0 <= key_insert_pos(s, k) <= s.len(),
    decreases s.len(),
{
    if s.len() > 0 {
        lemma_key_insert_pos_bounds(s.drop_last(), k);
    }
}

/// Sorting keeps every entry.
pub proof fn lemma_key_sorted_keeps(t: Seq<(Seq<char>, Contact)>)
    ensures
        key_sorted(t).len() == t.len(),
        forall|i: int| 0 <= i < t.len() ==> key_sorted(t).contains(#[trigger] t[i]),
    decreases t.len(),
{
    if t.len() > 0 {
        let p = t.drop_last();
        lemma_key_sorted_keeps(p);
        let u = key_sorted(p);
        let pos = key_insert_pos(u, t.last().0);
        lemma_key_insert_pos_bounds(u, t.last().0);
        let v = u.insert(pos, t.last());
        assert(key_sorted(t) == v);
        assert forall|i: int| 0 <= i < t.len() implies v.contains(#[trigger] t[i]) by {
            if i < p.len() {
                assert(t[i] == p[i]);
                assert(u.contains(p[i]));
                let j = choose|j: int| 0 <= j < u.len() && u[j] == p[i];
                if j < pos {
                    assert(v[j] == u[j]);
                } else {
                    assert(v[j + 1] == u[j]);
                }
            } else {
                assert(v[pos] == t.last());
            }
        }
    }
}

/// Collapsing runs keeps, for every contact, one with its name (up to
/// ASCII case) and its number to dial.
pub proof fn lemma_dedup_contacts_covers(u: Seq<Contact>)
    ensures
        forall|i: int|
            0 <= i < u.len() ==> exists|j: int|
                0 <= j < dedup_contacts(u).len() && lower_seq(
                    (#[trigger] dedup_contacts(u)[j]).name@,
                ) == lower_seq((#[trigger] u[i]).name@) && primary_of(
                    dedup_contacts(u)[j].numbers@,
                ) == primary_of(u[i].numbers@),
    decreases u.len(),
{
    if u.len() > 0 {
        let p = u.drop_last();
        lemma_dedup_contacts_covers(p);
        let d = dedup_contacts(p);
        let e = dedup_contacts(u);
        let x = u.last();
        assert forall|i: int| 0 <= i < u.len() implies exists|j: int|
            0 <= j < e.len() && lower_seq((#[trigger] e[j]).name@) == lower_seq(
                (#[trigger] u[i]).name@,
            ) && primary_of(e[j].numbers@) == primary_of(u[i].numbers@) by {
            if i < p.len() {
                assert(u[i] == p[i]);
                let j = choose|j: int|
                    0 <= j < d.len() && lower_seq((#[trigger] d[j]).name@) == lower_seq(p[i].name@)
                        && primary_of(d[j].numbers@) == primary_of(p[i].numbers@);
                assert(e[j] == d[j]);
            } else if d.len() > 0 && same_contact(x, d.last()) {
                assert(e[d.len() - 1] == d.last());
            } else {
                assert(e[d.len() as int] == x);
            }
        }
    }
}

/// Merging contacts loses nobody: for every contact a provider returned,
/// the merged list holds one with the same name, ignoring ASCII case, and
/// the same number to dial. Only such a contact following one like it is
/// ever dropped, so two people sharing a number but not a name both stay.
pub proof fn law_merged_contacts_keep_every_name_and_number(s: Seq<Contact>)
    ensures
        forall|i: int|
            0 <= i < s.len() ==> exists|j: int|
                0 <= j < merged_contacts(s).len() && lower_seq(
                    (#[trigger] merged_contacts(s)[j]).name@,
                ) == lower_seq((#[trigger] s[i]).name@) && primary_of(
                    merged_contacts(s)[j].numbers@,
                ) == primary_of(s[i].numbers@),
{
    let t = s.map_values(|c: Contact| (unicode_lower(c.name@), c));
    lemma_key_sorted_keeps(t);
    let u = key_sorted(t).map_values(|p: (Seq<char>, Contact)| p.1);
    lemma_dedup_contacts_covers(u);
    assert forall|i: int| 0 <= i < s.len() implies exists|j: int|
        0 <= j < merged_contacts(s).len() && lower_seq(
            (#[trigger] merged_contacts(s)[j]).name@,
        ) == lower_seq((#[trigger] s[i]).name@) && primary_of(merged_contacts(s)[j].numbers@)
            == primary_of(s[i].numbers@) by {
        assert(t[i] == (unicode_lower(s[i].name@), s[i]));
        assert(key_sorted(t).contains(t[i]));
        let k = choose|k: int| 0 <= k < key_sorted(t).len() && key_sorted(t)[k] == t[i];
        assert(u[k] == s[i]);
        let j = choose|j: int|
            0 <= j < dedup_contacts(u).len() && lower_seq((#[trigger] dedup_contacts(u)[j]).name@)
                == lower_seq(u[k].name@) && primary_of(dedup_contacts(u)[j].numbers@) == primary_of(
                u[k].numbers@,
            );
        assert(merged_contacts(s) == dedup_contacts(u));
    }
}

} // verus!
