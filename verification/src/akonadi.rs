//! Address books configured in KDE's Akonadi.
//!
//! A contact resource says where its data lives, and the two contact
//! resources people actually configure — `vcarddir` and `contacts` — both
//! point at a plain directory of vCards. What the resource configs say is
//! read here; finding and reading the files is the caller's.
use vstd::prelude::*;

use crate::instance::path_join;
use crate::text::{
    chars_of, ends_with, ends_with_exec, slice_chars, starts_with, starts_with_exec, string_of, strip_leading_char, trim, trim_chars,
};
use crate::vcard::{
    lines_from, split_lines,
};

verus! {

broadcast use vstd::string::group_string_axioms;

/// Resource config files that name a directory of vCards start with one of
/// these; Akonadi numbers them from zero: `akonadi_vcarddir_resource_0rc`.
pub const VCARDDIR_PREFIX: &'static str = "akonadi_vcarddir_resource_";

pub const CONTACTS_PREFIX: &'static str = "akonadi_contacts_resource_";

/// Directories where resource configs live, relative to `$HOME`: older KDE
/// releases put them straight in `~/.config`, newer ones in `akonadi/`.
pub const CONFIG_DIRS: [&'static str; 2] = [".config", ".config/akonadi"];

/// Whether a filename is a contact resource's config.
pub open spec fn resource_config(name: Seq<char>) -> bool {
    (starts_with(name, VCARDDIR_PREFIX@) || starts_with(name, CONTACTS_PREFIX@)) && ends_with(
        name,
        "rc"@,
    )
}

/// Whether a filename is a contact resource's config.
pub fn is_resource_config(name: &str) -> (b: bool)
    ensures
        b == resource_config(name@),
{
    let n = chars_of(name);
    (starts_with_exec(&n, &chars_of(VCARDDIR_PREFIX)) || starts_with_exec(&n, &chars_of(CONTACTS_PREFIX)))
        && ends_with_exec(&n, &chars_of("rc"))
}

/// The first `Path=` value among the trimmed lines from `k` on, trimmed,
/// unless it is empty.
pub open spec fn path_from(lines: Seq<Seq<char>>, k: int) -> Option<Seq<char>>
    decreases lines.len() - k,
{
    if k < 0 || k >= lines.len() {
        None
    } else {
        let line = trim(lines[k]);
        if starts_with(line, "Path="@) {
            let value = trim(line.skip(5));
            if value.len() > 0 {
                Some(value)
            } else {
                None
            }
        } else {
            path_from(lines, k + 1)
        }
    }
}

/// The `Path=` value from a resource config.
///
/// These are `KConfig` INI files. Only the one key matters, and it is read
/// without a section check: a resource config has exactly one `Path`.
pub fn configured_path(text: &str) -> (r: Option<String>)
    ensures
        match r {
            Some(p) => path_from(lines_from(text@, 0), 0) == Some(p@),
            None => path_from(lines_from(text@, 0), 0) is None,
        },
{
    let s = chars_of(text);
    let lines = split_lines(&s);
    let ghost ls = lines@.map_values(|l: Vec<char>| l@);
    let mut k: usize = 0;
    while k < lines.len()
        invariant
            k <= lines.len(),
            ls == lines@.map_values(|l: Vec<char>| l@),
            ls == lines_from(text@, 0),
            path_from(ls, 0) == path_from(ls, k as int),
        decreases lines.len() - k,
    {
        let t = trim_chars(&lines[k]);
        assert(ls[k as int] == lines@[k as int]@);
        proof {
            reveal_strlit("Path=");
        }
        if starts_with_exec(&t, &chars_of("Path=")) {
            let rest = slice_chars(&t, 5, t.len());
            assert(rest@ == t@.skip(5));
            let value = trim_chars(&rest);
            if value.len() > 0 {
                return Some(string_of(&value));
            }
            return None;
        }
        k = k + 1;
    }
    None
}

/// A path with a leading `~` component expanded to `home` — KDE writes
/// paths both ways. `~` alone is the home directory itself.
pub open spec fn expanded_home(path: Seq<char>, home: Seq<char>) -> Seq<char> {
    if path == "~"@ {
        path_join(home, Seq::empty())
    } else if starts_with(path, "~/"@) {
        path_join(home, strip_leading_char(path.skip(2), '/'))
    } else {
        path
    }
}

/// Expands a leading `~`.
pub fn expand_home(path: &str, home: &str) -> (out: String)
    ensures
        out@ == expanded_home(path@, home@),
{
    let p = chars_of(path);
    proof {
        reveal_strlit("~");
        reveal_strlit("~/");
        reveal_strlit("/");
    }
    let is_tilde = p.len() == 1 && p[0] == '~';
    assert(is_tilde == (p@ == "~"@)) by {
        if p@.len() == 1 && p@[0] == '~' {
            assert(p@ =~= "~"@);
        }
    }
    let rest: Vec<char> = if is_tilde {
        Vec::new()
    } else if starts_with_exec(&p, &chars_of("~/")) {
        let mut a: usize = 2;
        assert(p@.skip(2) == p@.subrange(2, p@.len() as int));
        while a < p.len() && p[a] == '/'
            invariant
                2 <= a <= p.len(),
                strip_leading_char(p@.skip(2), '/') == strip_leading_char(p@.skip(a as int), '/'),
            decreases p.len() - a,
        {
            assert(p@.skip(a as int).drop_first() == p@.skip(a + 1));
            a = a + 1;
        }
        slice_chars(&p, a, p.len())
    } else {
        return path.to_string();
    };
    assert(is_tilde ==> rest@ =~= Seq::<char>::empty());
    let mut out = chars_of(home);
    if out.len() > 0 && out[out.len() - 1] != '/' {
        out.push('/');
    }
    crate::text::append(&mut out, &rest);
    string_of(&out)
}

} // verus!
