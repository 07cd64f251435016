//! Minimal command-line flag lookup shared by the engine and every frontend.
//!
//! Both spellings are always accepted: `--name value` and `--name=value`.
use vstd::prelude::*;

use crate::text::{trim, occurs_at, starts_with, contains, chars_of, string_of, slice_chars, trim_chars, starts_with_exec, eq_chars};

verus! {

/// The characters of each string in a list.
pub open spec fn str_views(s: Seq<&str>) -> Seq<Seq<char>> {
    s.map_values(|a: &str| a@)
}

/// The value after the first name in `names[k..]` that `arg` spells as
/// `name=value`, untrimmed.
pub open spec fn joined_value(arg: Seq<char>, names: Seq<Seq<char>>, k: int) -> Option<Seq<char>>
    decreases names.len() - k,
{
    if k < 0 || k >= names.len() {
        None
    } else if starts_with(arg, names[k].push('=')) {
        Some(arg.skip(names[k].len() + 1int))
    } else {
        joined_value(arg, names, k + 1)
    }
}

/// The value of the first flag in `names` that carries one, scanning
/// `args` from index `i`.
///
/// A flag spelled on its own takes the next argument as its value (and
/// consumes it, whatever it is); a flag spelled `name=value` carries it.
/// Values are trimmed, and a blank value counts as absent.
pub open spec fn flag_value_from(args: Seq<Seq<char>>, names: Seq<Seq<char>>, i: int) -> Option<
    Seq<char>,
>
    decreases args.len() - i,
{
    if i < 0 || i >= args.len() {
        None
    } else if names.contains(args[i]) {
        if i + 1 < args.len() {
            if trim(args[i + 1]).len() > 0 {
                Some(trim(args[i + 1]))
            } else {
                flag_value_from(args, names, i + 2)
            }
        } else {
            None
        }
    } else {
        match joined_value(args[i], names, 0) {
            Some(v) => if trim(v).len() > 0 {
                Some(trim(v))
            } else {
                flag_value_from(args, names, i + 1)
            },
            None => flag_value_from(args, names, i + 1),
        }
    }
}

/// Whether `name` is one of `names`.
fn is_one_of(name: &[char], names: &[&str]) -> (b: bool)
    ensures
        b == str_views(names@).contains(name@),
{
    let mut k: usize = 0;
    while k < names.len()
        invariant
            k <= names.len(),
            forall|j: int| 0 <= j < k ==> names@[j]@ != name@,
        decreases names.len() - k,
    {
        let n = chars_of(names[k]);
        if eq_chars(&n, name) {
            assert(str_views(names@)[k as int] == name@);
            return true;
        }
        k = k + 1;
    }
    proof {
        if str_views(names@).contains(name@) {
            let j = choose|j: int| 0 <= j < str_views(names@).len() && str_views(names@)[j] == name@;
            assert(names@[j]@ == name@);
        }
    }
    false
}

/// The `name=value` reading of one argument against `names`.
fn joined(arg: &[char], names: &[&str]) -> (r: Option<Vec<char>>)
    ensures
        r matches Some(v) ==> joined_value(arg@, str_views(names@), 0) == Some(v@),
        r is None ==> joined_value(arg@, str_views(names@), 0) is None,
{
    let ghost nv = str_views(names@);
    let mut k: usize = 0;
    while k < names.len()
        invariant
            k <= names.len(),
            nv == str_views(names@),
            joined_value(arg@, nv, 0) == joined_value(arg@, nv, k as int),
        decreases names.len() - k,
    {
        let mut n = chars_of(names[k]);
        let len = n.len();
        n.push('=');
        assert(n@ == nv[k as int].push('='));
        assert(n@.len() == len + 1);
        if starts_with_exec(arg, &n) {
            assert(occurs_at(arg@, 0, n@));
            let alen = arg.len();
            assert(len + 1 <= alen);
            return Some(slice_chars(arg, len + 1, alen));
        }
        k = k + 1;
    }
    None
}

/// Returns the value of the first flag in `names` that carries one.
///
/// `names` are matched verbatim, so pass them with their dashes
/// (`["--log-file", "-l"]`). An empty or whitespace-only value is treated as
/// absent, which keeps `--log-file ""` from silently disabling logging.
pub fn flag_value(args: &[&str], names: &[&str]) -> (r: Option<String>)
    ensures
        r matches Some(v) ==> flag_value_from(str_views(args@), str_views(names@), 0) == Some(
            v@,
        ),
        r is None ==> flag_value_from(str_views(args@), str_views(names@), 0) is None,
{
    let ghost av = str_views(args@);
    let ghost nv = str_views(names@);
    let mut i: usize = 0;
    while i < args.len()
        invariant
            av == str_views(args@),
            nv == str_views(names@),
            flag_value_from(av, nv, 0) == flag_value_from(av, nv, i as int),
        decreases args.len() - i,
    {
        let arg = chars_of(args[i]);
        assert(arg@ == av[i as int]);
        if is_one_of(&arg, names) {
            if i + 1 < args.len() {
                let next = chars_of(args[i + 1]);
                let value = trim_chars(&next);
                if value.len() > 0 {
                    return Some(string_of(&value));
                }
                i = i + 2;
            } else {
                return None;
            }
        } else {
            match joined(&arg, names) {
                Some(v) => {
                    let value = trim_chars(&v);
                    if value.len() > 0 {
                        return Some(string_of(&value));
                    }
                },
                None => {},
            }
            i = i + 1;
        }
    }
    None
}

/// Whether any of `names` appears as a bare flag.
pub fn has_flag(args: &[&str], names: &[&str]) -> (b: bool)
    ensures
        b == exists|i: int|
            0 <= i < args@.len() && #[trigger] str_views(names@).contains(args@[i]@),
{
    let mut i: usize = 0;
    while i < args.len()
        invariant
            i <= args.len(),
            forall|j: int| 0 <= j < i ==> !str_views(names@).contains(#[trigger] args@[j]@),
        decreases args.len() - i,
    {
        let arg = chars_of(args[i]);
        if is_one_of(&arg, names) {
            return true;
        }
        i = i + 1;
    }
    false
}

} // verus!
