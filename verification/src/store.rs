//! Where the data files live.
use std::path::PathBuf;
use vstd::prelude::*;
use vstd::utf8::encode_utf8;

verus! {

#[verifier::external_type_specification]
#[verifier::external_body]
pub struct ExPathBuf(PathBuf);

/// What a path buffer holds: the bytes of its OS string, in the encoding that
/// `OsStr::as_encoded_bytes` shows (a superset of UTF-8, so text is held as its UTF-8).
pub uninterp spec fn path_bytes(path: PathBuf) -> Seq<u8>;

/// The bytes of `base` joined with the relative path `name` by `std::path::Path::join`.
pub uninterp spec fn joined_path(base: Seq<u8>, name: Seq<u8>) -> Seq<u8>;

/// A single relative path component with no separator or drive in it.
pub open spec fn is_plain_component(name: Seq<char>) -> bool {
    &&& name.len() > 0
    &&& name != "."@
    &&& name != ".."@
    &&& forall|i: int| 0 <= i < name.len() ==> #[trigger] name[i] != '/' && name[i] != '\\' && name[i] != ':'
}

/// `s` ends with `suffix`.
pub open spec fn ends_with<T>(s: Seq<T>, suffix: Seq<T>) -> bool {
    s.len() >= suffix.len() && s.subrange(s.len() - suffix.len(), s.len() as int) == suffix
}

/// `s` starts with `prefix`.
pub open spec fn starts_with<T>(s: Seq<T>, prefix: Seq<T>) -> bool {
    s.len() >= prefix.len() && s.subrange(0, prefix.len() as int) == prefix
}

/// Calls `PathBuf::from(text)`. Claims that the path holds the text's UTF-8 bytes: a
/// `str` is a valid OS string and its encoded bytes are its own.
#[verifier::external_body]
fn path_of(text: &str) -> (path: PathBuf)
    ensures
        path_bytes(path) == encode_utf8(text@),
{
    PathBuf::from(text)
}

/// Calls `Path::join(base, name)`. Claims that the result is the named join, and, for a
/// plain relative component, what `PathBuf::push` documents for a relative path: the
/// name is appended to the base, with one separator between them where the base does
/// not already end in one.
#[verifier::external_body]
fn join_path(base: &PathBuf, name: &str) -> (path: PathBuf)
    requires
        is_plain_component(name@),
    ensures
        path_bytes(path) == joined_path(path_bytes(*base), encode_utf8(name@)),
        path_bytes(path) == path_bytes(*base) + encode_utf8(name@) || exists|sep: u8|
            path_bytes(path) == path_bytes(*base).push(sep) + encode_utf8(name@),
{
    base.join(name)
}

/// Calls `dirs::config_dir`, which reads the environment (such as `$XDG_CONFIG_HOME` or
/// `$HOME`). Nothing is claimed of it.
#[verifier::external_body]
fn config_dir() -> (dir: Option<PathBuf>) {
    dirs::config_dir()
}

/// The data directory under a configuration directory: `<config>/keymgr/data`, or
/// `./keymgr/data` when there is none.
pub open spec fn data_dir_path(config: Option<Seq<u8>>) -> Seq<u8> {
    let base = match config {
        Some(c) => c,
        None => encode_utf8("."@),
    };
    joined_path(joined_path(base, encode_utf8("keymgr"@)), encode_utf8("data"@))
}

/// The bytes of an optional path.
pub open spec fn bytes_of(p: Option<PathBuf>) -> Option<Seq<u8>> {
    match p {
        Some(d) => Some(path_bytes(d)),
        None => None,
    }
}

/// The data directory under the given configuration directory.
pub fn data_dir_from(config: Option<PathBuf>) -> (dir: PathBuf)
    ensures
        path_bytes(dir) == data_dir_path(bytes_of(config)),
{
    let base = match config {
        Some(c) => c,
        None => path_of("."),
    };
    proof {
        reveal_strlit("keymgr");
        reveal_strlit("data");
        reveal_strlit(".");
        reveal_strlit("..");
        assert(is_plain_component("keymgr"@));
        assert(is_plain_component("data"@));
    }
    let app = join_path(&base, "keymgr");
    join_path(&app, "data")
}

/// The data directory, `$XDG_CONFIG_HOME/keymgr/data` (or under `.` when the platform has
/// no configuration directory).
pub fn data_dir() -> (dir: PathBuf)
    ensures
        exists|config: Option<Seq<u8>>| path_bytes(dir) == #[trigger] data_dir_path(config),
{
    let config = config_dir();
    let ghost c = bytes_of(config);
    let dir = data_dir_from(config);
    assert(path_bytes(dir) == data_dir_path(c));
    dir
}

/// The path of `vault.json`, the encrypted key store.
pub fn vault_path() -> (path: PathBuf)
    ensures
        exists|config: Option<Seq<u8>>| path_bytes(path) == joined_path(
            #[trigger] data_dir_path(config),
            encode_utf8("vault.json"@),
        ),
        ends_with(path_bytes(path), encode_utf8("vault.json"@)),
{
    let dir = data_dir();
    proof {
        reveal_strlit("vault.json");
        reveal_strlit(".");
        reveal_strlit("..");
    }
    let path = join_path(&dir, "vault.json");
    proof {
        lemma_appended_ends_with(path_bytes(path), path_bytes(dir), encode_utf8("vault.json"@));
    }
    path
}

/// The path of `master.hash`, the master password record.
pub fn master_hash_path() -> (path: PathBuf)
    ensures
        exists|config: Option<Seq<u8>>| path_bytes(path) == joined_path(
            #[trigger] data_dir_path(config),
            encode_utf8("master.hash"@),
        ),
        ends_with(path_bytes(path), encode_utf8("master.hash"@)),
{
    let dir = data_dir();
    proof {
        reveal_strlit("master.hash");
        reveal_strlit(".");
        reveal_strlit("..");
    }
    let path = join_path(&dir, "master.hash");
    proof {
        lemma_appended_ends_with(path_bytes(path), path_bytes(dir), encode_utf8("master.hash"@));
    }
    path
}

/// A name appended to a base, with or without a separator between them, ends with the name.
proof fn lemma_appended_ends_with(path: Seq<u8>, base: Seq<u8>, name: Seq<u8>)
    requires
        path == base + name || exists|sep: u8| path == base.push(sep) + name,
    ensures
        ends_with(path, name),
{
    if path == base + name {
        assert(path.subrange(path.len() - name.len(), path.len() as int) =~= name);
    } else {
        let sep = choose|sep: u8| path == base.push(sep) + name;
        assert(path.subrange(path.len() - name.len(), path.len() as int) =~= name);
    }
}

/// The key store and the master record never share a path: one ends with `vault.json`,
/// the other with `master.hash`.
pub proof fn lemma_data_files_differ(vault: Seq<u8>, master: Seq<u8>)
    requires
        ends_with(vault, encode_utf8("vault.json"@)),
        ends_with(master, encode_utf8("master.hash"@)),
    ensures
        vault != master,
{
    reveal_strlit("vault.json");
    reveal_strlit("master.hash");
    let v = "vault.json"@;
    let m = "master.hash"@;
    assert(vstd::utf8::is_ascii_chars(v));
    assert(vstd::utf8::is_ascii_chars(m));
    vstd::utf8::is_ascii_chars_encode_utf8(v);
    vstd::utf8::is_ascii_chars_encode_utf8(m);
    if vault == master {
        let ev = encode_utf8(v);
        let em = encode_utf8(m);
        assert(vault[vault.len() - 1] == ev[ev.len() - 1]);
        assert(master[master.len() - 1] == em[em.len() - 1]);
        assert(ev[9] == v[9] as u8);
        assert(em[10] == m[10] as u8);
    }
}

} // verus!
