//! Association lists keyed by text: the map a list of `(key, value)` pairs
//! stands for, and the operations that keep each key once.
use vstd::prelude::*;

use crate::text::{chars_of, eq_chars};

verus! {

broadcast use vstd::string::group_string_axioms;

/// The map an association list stands for, the last entry for a key
/// winning.
pub open spec fn index_map<V>(s: Seq<(String, V)>) -> Map<Seq<char>, V>
    decreases s.len(),
{
    if s.len() == 0 {
        Map::empty()
    } else {
        index_map(s.drop_last()).insert(s.last().0@, s.last().1)
    }
}

/// Whether no two entries share a key.
pub open spec fn keys_distinct<V>(s: Seq<(String, V)>) -> bool {
    forall|i: int, j: int| 0 <= i < j < s.len() ==> #[trigger] s[i].0@ != #[trigger] s[j].0@
}

/// The value stored under `k`, if any.
pub open spec fn lookup<V>(m: Map<Seq<char>, V>, k: Seq<char>) -> Option<V> {
    if m.contains_key(k) {
        Some(m[k])
    } else {
        None
    }
}

fn str_eq(a: &str, b: &str) -> (r: bool)
    ensures
        r == (a@ == b@),
{
    let x = chars_of(a);
    let y = chars_of(b);
    eq_chars(&x, &y)
}

/// Where the key `k` stands in the list.
pub fn position<V>(v: &Vec<(String, V)>, k: &str) -> (r: Option<usize>)
    ensures
        r matches Some(j) ==> j < v@.len() && v@[j as int].0@ == k@,
        r is None ==> forall|i: int| 0 <= i < v@.len() ==> #[trigger] v@[i].0@ != k@,
{
    let mut j: usize = 0;
    while j < v.len()
        invariant
            j <= v.len(),
            forall|i: int| 0 <= i < j ==> #[trigger] v@[i].0@ != k@,
        decreases v.len() - j,
    {
        if str_eq(v[j].0.as_str(), k) {
            return Some(j);
        }
        j = j + 1;
    }
    None
}

/// Stores `val` under `k`: in place of the entry the key has, or as a new
/// entry at the end.
pub fn insert<V>(v: &mut Vec<(String, V)>, k: String, val: V)
    requires
        keys_distinct(old(v)@),
    ensures
        keys_distinct(final(v)@),
        index_map(final(v)@) == index_map(old(v)@).insert(k@, val),
{
    let ghost before = v@;
    let found = position(v, k.as_str());
    proof {
        lemma_index_map_facts(before);
    }
    if let Some(j) = found {
        v.set(j, (k, val));
        proof {
            lemma_index_map_update(before, j as int, v@[j as int]);
        }
    } else {
        let ghost key = k@;
        v.push((k, val));
        assert(v@.drop_last() == before);
        assert(keys_distinct(v@)) by {
            assert forall|a: int, b: int| 0 <= a < b < v@.len() implies #[trigger] v@[a].0@
                != #[trigger] v@[b].0@ by {
                if b == before.len() {
                    assert(v@[a] == before[a]);
                    assert(before[a].0@ != key);
                } else {
                    assert(v@[a] == before[a] && v@[b] == before[b]);
                }
            }
        }
    }
}

/// The value stored under `k`, if any.
pub fn get<'a, V>(v: &'a Vec<(String, V)>, k: &str) -> (r: Option<&'a V>)
    requires
        keys_distinct(v@),
    ensures
        match r {
            Some(x) => lookup(index_map(v@), k@) == Some(*x),
            None => lookup(index_map(v@), k@) is None,
        },
{
    match position(v, k) {
        Some(j) => {
            proof {
                lemma_index_map_at(v@, j as int);
            }
            Some(&v[j].1)
        },
        None => {
            proof {
                lemma_index_map_facts(v@);
            }
            None
        },
    }
}

/// What an index's map holds: a key is there exactly when an entry has it.
pub proof fn lemma_index_map_facts<V>(s: Seq<(String, V)>)
    requires
        keys_distinct(s),
    ensures
        forall|k: Seq<char>| #[trigger] index_map(s).contains_key(k) <==> exists|i: int|
            0 <= i < s.len() && #[trigger] s[i].0@ == k,
        forall|i: int| 0 <= i < s.len() ==> #[trigger] index_map(s)[s[i].0@] == s[i].1,
    decreases s.len(),
{
    if s.len() > 0 {
        let p = s.drop_last();
        assert(keys_distinct(p)) by {
            assert forall|a: int, b: int| 0 <= a < b < p.len() implies #[trigger] p[a].0@
                != #[trigger] p[b].0@ by {
                assert(p[a] == s[a] && p[b] == s[b]);
            }
        }
        lemma_index_map_facts(p);
        assert(index_map(s) == index_map(p).insert(s.last().0@, s.last().1));
        assert forall|k: Seq<char>| #[trigger] index_map(s).contains_key(k) implies exists|i: int|
            0 <= i < s.len() && #[trigger] s[i].0@ == k by {
            if k != s.last().0@ {
                assert(index_map(p).contains_key(k));
                let w = choose|w: int| 0 <= w < p.len() && #[trigger] p[w].0@ == k;
                assert(s[w] == p[w]);
            } else {
                assert(s[s.len() - 1].0@ == k);
            }
        }
        assert forall|k: Seq<char>| (exists|i: int| 0 <= i < s.len() && #[trigger] s[i].0@ == k)
            implies #[trigger] index_map(s).contains_key(k) by {
            let w = choose|w: int| 0 <= w < s.len() && #[trigger] s[w].0@ == k;
            if w < p.len() {
                assert(p[w] == s[w]);
                assert(index_map(p).contains_key(k));
            }
        }
        assert forall|i: int| 0 <= i < s.len() implies #[trigger] index_map(s)[s[i].0@]
            == s[i].1 by {
            if i < p.len() {
                assert(p[i] == s[i]);
                assert(s[i].0@ != s[s.len() - 1].0@);
                assert(index_map(p)[p[i].0@] == p[i].1);
            }
        }
    }
}

/// The entry at `j` is what the index's map says of its key.
pub proof fn lemma_index_map_at<V>(s: Seq<(String, V)>, j: int)
    requires
        keys_distinct(s),
        0 <= j < s.len(),
    ensures
        index_map(s).contains_key(s[j].0@),
        index_map(s)[s[j].0@] == s[j].1,
{
    lemma_index_map_facts(s);
}

/// Replacing the entry of a key changes only what the map says of that key.
pub proof fn lemma_index_map_update<V>(s: Seq<(String, V)>, j: int, e: (String, V))
    requires
        keys_distinct(s),
        0 <= j < s.len(),
        e.0@ == s[j].0@,
    ensures
        keys_distinct(s.update(j, e)),
        index_map(s.update(j, e)) == index_map(s).insert(e.0@, e.1),
    decreases s.len(),
{
    let u = s.update(j, e);
    assert forall|a: int, b: int| 0 <= a < b < u.len() implies #[trigger] u[a].0@
        != #[trigger] u[b].0@ by {
        assert(s[a].0@ != s[b].0@);
    }
    let p = s.drop_last();
    if j == s.len() - 1 {
        assert(u.drop_last() == p);
        assert(index_map(u) =~= index_map(s).insert(e.0@, e.1));
    } else {
        assert(keys_distinct(p)) by {
            assert forall|a: int, b: int| 0 <= a < b < p.len() implies #[trigger] p[a].0@
                != #[trigger] p[b].0@ by {
                assert(p[a] == s[a] && p[b] == s[b]);
            }
        }
        lemma_index_map_update(p, j, e);
        assert(u.drop_last() == p.update(j, e));
        assert(s.last().0@ != e.0@) by {
            assert(s[j].0@ != s[s.len() - 1].0@);
        }
        assert(index_map(u) =~= index_map(s).insert(e.0@, e.1));
    }
}

} // verus!
