//! Keeping one copy of Sipster running per configuration.
//!
//! Two copies of the *same* config would claim the same local SIP port and
//! fight over registration; two copies of *different* configs is the
//! supported way to run a second line. So the single-instance lock, and the
//! control socket, are named after the config file: a digest of its path.
//! Taking the lock itself is the caller's.
use vstd::prelude::*;
use vstd::utf8::encode_utf8;

use crate::text::{
    append_str, hex_fixed, is_hex, lemma_hex_fixed_is_hex, lemma_hex_fixed_len, push_hex_fixed,
    string_of,
};

verus! {

broadcast use vstd::string::group_string_axioms;

/// The FNV-1a offset basis.
pub const FNV_OFFSET: u64 = 0xcbf2_9ce4_8422_2325;

/// The FNV-1a prime.
pub const FNV_PRIME: u64 = 0x0000_0100_0000_01b3;

/// The 64-bit FNV-1a hash of some bytes.
pub open spec fn fnv1a(bytes: Seq<u8>) -> u64
    decreases bytes.len(),
{
    if bytes.len() == 0 {
        FNV_OFFSET
    } else {
        (fnv1a(bytes.drop_last()) ^ (bytes.last() as u64)).wrapping_mul(FNV_PRIME) as u64
    }
}

/// The key of a config path: the FNV-1a hash of its bytes as 16 lowercase
/// hex digits.
pub open spec fn config_key(config: Seq<char>) -> Seq<char> {
    hex_fixed(fnv1a(encode_utf8(config)) as nat, 16)
}

/// A short, stable, filename-safe digest of a config path. The path should
/// be absolute, so the same file reached two ways is one instance.
///
/// FNV-1a: no dependency, and this only has to avoid accidental collisions
/// between a handful of paths, not resist an adversary.
pub fn key_for(config: &str) -> (key: String)
    ensures
        key@ == config_key(config@),
        key@.len() == 16,
{
    let bytes = config.as_bytes();
    let mut hash: u64 = FNV_OFFSET;
    let mut i: usize = 0;
    while i < bytes.len()
        invariant
            i <= bytes.len(),
            bytes@ == encode_utf8(config@),
            hash == fnv1a(bytes@.take(i as int)),
        decreases bytes.len() - i,
    {
        assert(bytes@.take(i + 1).drop_last() == bytes@.take(i as int));
        hash = (hash ^ (bytes[i] as u64)).wrapping_mul(FNV_PRIME);
        i = i + 1;
    }
    assert(bytes@.take(bytes.len() as int) == bytes@);
    let mut out: Vec<char> = Vec::new();
    push_hex_fixed(&mut out, hash as u128, 16);
    assert(out@ =~= hex_fixed(hash as nat, 16));
    string_of(&out)
}

/// `dir` joined with the relative `name`, as `Path::join` does: a separator
/// between them unless `dir` is empty or already ends with one.
pub open spec fn path_join(dir: Seq<char>, name: Seq<char>) -> Seq<char> {
    if dir.len() == 0 || dir.last() == '/' {
        dir + name
    } else {
        dir + "/"@ + name
    }
}

fn push_joined(out: &mut Vec<char>, name: &str)
    ensures
        final(out)@ == path_join(old(out)@, name@),
{
    if out.len() > 0 && out[out.len() - 1] != '/' {
        out.push('/');
        proof {
            reveal_strlit("/");
        }
    }
    append_str(out, name);
}

/// The lock file for the copy running `config`, under `runtime_dir`:
/// `<runtime_dir>/sipster/<key>.lock`.
///
/// Named after the config rather than the user, so a second config is a
/// second instance. The name is a digest because a config path can be long,
/// contain separators, or sit on a filesystem with different rules than the
/// runtime directory.
pub fn lock_path_for(runtime_dir: &str, config: &str) -> (path: String)
    ensures
        path@ == path_join(path_join(runtime_dir@, "sipster"@), config_key(config@) + ".lock"@),
{
    let mut out: Vec<char> = Vec::new();
    append_str(&mut out, runtime_dir);
    push_joined(&mut out, "sipster");
    let key = key_for(config);
    let mut file: Vec<char> = Vec::new();
    append_str(&mut file, key.as_str());
    append_str(&mut file, ".lock");
    let name = string_of(&file);
    push_joined(&mut out, name.as_str());
    string_of(&out)
}

/// The control socket's default path for `config`, under `runtime_dir`:
/// `<runtime_dir>/sipster-<key>.sock`, short enough for a socket address.
pub open spec fn default_socket_path(runtime_dir: Seq<char>, config: Seq<char>) -> Seq<char> {
    path_join(runtime_dir, "sipster-"@ + config_key(config) + ".sock"@)
}

/// Where the control socket lives: where the config file says, else the
/// default path for the config under `runtime_dir`.
pub fn socket_path_from(configured: Option<String>, runtime_dir: &str, config: &str) -> (path: String)
    ensures
        match configured {
            Some(p) => path == p,
            None => path@ == default_socket_path(runtime_dir@, config@),
        },
{
    if let Some(p) = configured {
        return p;
    }
    let mut out: Vec<char> = Vec::new();
    append_str(&mut out, runtime_dir);
    let key = key_for(config);
    let mut file: Vec<char> = Vec::new();
    append_str(&mut file, "sipster-");
    append_str(&mut file, key.as_str());
    append_str(&mut file, ".sock");
    let name = string_of(&file);
    push_joined(&mut out, name.as_str());
    string_of(&out)
}

/// A config's key is filename-safe: sixteen hex digits, whatever the path.
pub proof fn law_the_key_is_filename_safe(config: Seq<char>)
    ensures
        config_key(config).len() == 16,
        forall|i: int| 0 <= i < 16 ==> is_hex(#[trigger] config_key(config)[i]),
{
    lemma_hex_fixed_is_hex(fnv1a(encode_utf8(config)) as nat, 16);
    lemma_hex_fixed_len(fnv1a(encode_utf8(config)) as nat, 16);
}

/// The lock lives under a directory of our own: whatever the runtime
/// directory and the config, the lock path is a directory named `sipster`
/// holding a file named after the config's key with the extension `lock`.
pub proof fn law_the_lock_lives_under_a_directory_of_our_own(runtime_dir: Seq<char>, config: Seq<char>)
    ensures
        exists|dir: Seq<char>|
            path_join(path_join(runtime_dir, "sipster"@), config_key(config) + ".lock"@) == dir
                + "sipster/"@ + config_key(config) + ".lock"@,
{
    reveal_strlit("sipster");
    reveal_strlit("sipster/");
    reveal_strlit("/");
    let dir = if runtime_dir.len() == 0 || runtime_dir.last() == '/' {
        runtime_dir
    } else {
        runtime_dir + "/"@
    };
    let x = path_join(runtime_dir, "sipster"@);
    assert(x == dir + "sipster"@);
    assert(x.len() > 0 && x.last() == 'r');
    assert("sipster/"@ =~= "sipster"@ + "/"@);
    assert(path_join(x, config_key(config) + ".lock"@) =~= dir + "sipster/"@ + config_key(config)
        + ".lock"@);
}

} // verus!
