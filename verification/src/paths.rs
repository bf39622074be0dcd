//! Where the store and keys live, as paths built from the home directory.
use vstd::prelude::*;

use crate::text::{chars_of, concat, owned};

verus! {

/// `name` joined onto `base` (as `Path::join` on Unix): an absolute name
/// replaces the base, a base without a trailing separator gets one.
pub open spec fn joined(base: Seq<char>, name: Seq<char>) -> Seq<char> {
    if name.len() > 0 && name[0] == '/' {
        name
    } else if base.len() == 0 {
        name
    } else if base.last() == '/' {
        base + name
    } else {
        base + "/"@ + name
    }
}

/// `name` joined onto `base`.
pub fn join_path(base: &str, name: &str) -> (r: String)
    ensures
        r@ == joined(base@, name@),
{
    let b = chars_of(base);
    let n = chars_of(name);
    if n.len() > 0 && n[0] == '/' {
        owned(name)
    } else if b.len() == 0 {
        owned(name)
    } else if b[b.len() - 1] == '/' {
        concat(base, name)
    } else {
        let a = concat(base, "/");
        concat(a.as_str(), name)
    }
}

/// The home directory: `URD_HOME` when set, else `urd` under the user's
/// configuration directory (none when that is unknown).
pub open spec fn spec_urd_home(env_home: Option<Seq<char>>, config_dir: Option<Seq<char>>) -> Option<Seq<char>> {
    match env_home {
        Some(h) => Some(h),
        None => match config_dir {
            Some(c) => Some(joined(c, "urd"@)),
            None => None,
        },
    }
}

/// The home directory, from the value of `URD_HOME` and the user's
/// configuration directory.
pub fn urd_home(env_home: Option<&str>, config_dir: Option<&str>) -> (r: Option<String>)
    ensures
        crate::store::opt_view(r) == spec_urd_home(
            match env_home {
                Some(h) => Some(h@),
                None => None,
            },
            match config_dir {
                Some(c) => Some(c@),
                None => None,
            },
        ),
{
    match env_home {
        Some(h) => Some(owned(h)),
        None => match config_dir {
            Some(c) => Some(join_path(c, "urd")),
            None => None,
        },
    }
}

/// The store file: in `URD_HOME` when it is set, else `.urd/store.yaml` in
/// the working directory.
pub fn store_path(env_home: Option<&str>) -> (r: String)
    ensures
        env_home matches Some(h) ==> r@ == joined(h@, "store.yaml"@),
        env_home is None ==> r@ == ".urd/store.yaml"@,
{
    match env_home {
        Some(h) => join_path(h, "store.yaml"),
        None => owned(".urd/store.yaml"),
    }
}

/// The file naming this project's key: in `URD_HOME` when it is set, else
/// `.urd/key-id` in the working directory.
pub fn key_id_path(env_home: Option<&str>) -> (r: String)
    ensures
        env_home matches Some(h) ==> r@ == joined(h@, "key-id"@),
        env_home is None ==> r@ == ".urd/key-id"@,
{
    match env_home {
        Some(h) => join_path(h, "key-id"),
        None => owned(".urd/key-id"),
    }
}

/// The file holding key `id`: `keys/<id>.key` in the home directory.
pub fn key_file_path(home: &str, id: &str) -> (r: String)
    ensures
        r@ == joined(joined(home@, "keys"@), id@ + ".key"@),
{
    let dir = join_path(home, "keys");
    let name = concat(id, ".key");
    join_path(dir.as_str(), name.as_str())
}

/// The identity file: `keys/identity.key` in the home directory.
pub fn identity_path(home: &str) -> (r: String)
    ensures
        r@ == joined(joined(home@, "keys"@), "identity.key"@),
{
    let dir = join_path(home, "keys");
    join_path(dir.as_str(), "identity.key")
}

} // verus!
