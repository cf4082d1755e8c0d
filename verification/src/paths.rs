//! File-system paths as strings, and the layout of the data directory.
//!
//! Every piece of lx data lives under `~/.lexiang/` (formerly `~/.lefs/`):
//! `auth/` (OAuth tokens), `tools/` (schema cache), `skills/` (agent skill
//! files) and the worktree registry `worktrees.json`.

use vstd::prelude::*;
use crate::text::{chars_to_string, push_str, str_to_chars};

verus! {

/// Name of the legacy data directory under the home directory.
pub const LEGACY_DIR_NAME: &'static str = ".lefs";
/// Name of the data directory under the home directory.
pub const DATA_DIR_NAME: &'static str = ".lexiang";

/// `base` joined with a relative name: separated by one `/` unless `base` is
/// empty or already ends with `/`.
pub open spec fn spec_join(base: Seq<char>, name: Seq<char>) -> Seq<char> {
    if base.len() == 0 {
        name
    } else if base.last() == '/' {
        base + name
    } else {
        base + "/"@ + name
    }
}

/// Joins a relative name onto a directory path.
pub fn join_path(base: &str, name: &str) -> (p: String)
    ensures
        p@ == spec_join(base@, name@),
{
    let b = str_to_chars(base);
    let mut out = b.clone();
    assert(out@ == base@);
    if b.len() == 0 {
        let mut empty: Vec<char> = Vec::new();
        push_str(&mut empty, name);
        assert(empty@ == name@);
        return chars_to_string(empty.as_slice());
    }
    if b[b.len() - 1] != '/' {
        push_str(&mut out, "/");
    }
    push_str(&mut out, name);
    chars_to_string(out.as_slice())
}

/// The data directory `~/.lexiang` for a home directory.
pub fn datadir_in(home: &str) -> (p: String)
    ensures
        p@ == spec_join(home@, DATA_DIR_NAME@),
{
    join_path(home, DATA_DIR_NAME)
}

/// The legacy data directory `~/.lefs` for a home directory.
pub fn legacy_datadir_in(home: &str) -> (p: String)
    ensures
        p@ == spec_join(home@, LEGACY_DIR_NAME@),
{
    join_path(home, LEGACY_DIR_NAME)
}

/// The legacy directory to migrate from, if the home directory is known and
/// the legacy directory exists there.
pub fn check_migration_needed(home: Option<&str>, legacy_exists: bool) -> (r: Option<String>)
    ensures
        match home {
            Some(h) => if legacy_exists {
                r matches Some(p) && p@ == spec_join(h@, LEGACY_DIR_NAME@)
            } else {
                r is None
            },
            None => r is None,
        },
{
    match home {
        Some(h) => if legacy_exists {
            Some(legacy_datadir_in(h))
        } else {
            None
        },
        None => None,
    }
}

/// The subdirectory `name` of the data directory.
pub fn data_subdir(home: &str, name: &str) -> (p: String)
    ensures
        p@ == spec_join(spec_join(home@, DATA_DIR_NAME@), name@),
{
    let d = datadir_in(home);
    join_path(d.as_str(), name)
}

/// The worktree registry `~/.lexiang/worktrees.json`.
pub fn worktrees_registry_path(home: &str) -> (p: String)
    ensures
        p@ == spec_join(spec_join(home@, DATA_DIR_NAME@), "worktrees.json"@),
{
    data_subdir(home, "worktrees.json")
}

/// The subdirectories that a migration copies from the legacy directory.
pub fn migrated_subdirs() -> (v: Vec<&'static str>)
    ensures
        v@.len() == 3,
        v@[0]@ == "auth"@,
        v@[1]@ == "tools"@,
        v@[2]@ == "skills"@,
{
    let mut v: Vec<&'static str> = Vec::new();
    v.push("auth");
    v.push("tools");
    v.push("skills");
    v
}

/// Whether a legacy subdirectory is copied: it exists and its target does not.
pub fn should_copy_subdir(legacy_exists: bool, target_exists: bool) -> (b: bool)
    ensures
        b == (legacy_exists && !target_exists),
{
    legacy_exists && !target_exists
}


/// The user's home directory, by `dirs::home_dir`, as a string; `None`
/// where there is none or it is not valid Unicode. It depends on the
/// environment, so nothing is stated of it.
#[verifier::external_body]
fn home_dir() -> (r: Option<String>) {
    dirs::home_dir().and_then(|p| p.into_os_string().into_string().ok())
}

/// The data directory `~/.lexiang` of the current user (`None` where the
/// home directory cannot be found).
pub fn datadir() -> (r: Option<String>)
    ensures
        r matches Some(p) ==> exists|h: Seq<char>| p@ == spec_join(h, DATA_DIR_NAME@),
{
    match home_dir() {
        Some(h) => Some(datadir_in(h.as_str())),
        None => None,
    }
}

/// The skill files that `lx tools skill` writes by default lie in
/// `~/.lexiang/skills/`: a file `name` there is the data directory, then
/// `/skills/`, then `name`, for any home directory.
pub proof fn law_default_skills_under_data_dir(home: Seq<char>, name: Seq<char>)
    ensures
        spec_join(spec_join(spec_join(home, DATA_DIR_NAME@), "skills"@), name) == spec_join(
            home,
            DATA_DIR_NAME@,
        ) + "/skills/"@ + name,
{
    reveal_strlit(".lexiang");
    reveal_strlit("skills");
    reveal_strlit("/");
    reveal_strlit("/skills/");
    let d = spec_join(home, DATA_DIR_NAME@);
    assert(d.len() > 0 && d.last() == 'g');
    let sk = spec_join(d, "skills"@);
    assert(sk == d + "/"@ + "skills"@);
    assert(sk.len() > 0 && sk.last() == 's');
    assert(sk + "/"@ + name =~= d + "/skills/"@ + name);
}

} // verus!
