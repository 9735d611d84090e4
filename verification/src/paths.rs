//! Which files a configuration may include and where screenshots may be written: checks
//! on paths that the caller has already made canonical.
use vstd::prelude::*;

use crate::config::ConfigError;
use crate::text::{chars_of, concat_str, copy_str};

verus! {

/// Whether `path` is absolute: it starts at the root directory.
pub open spec fn is_absolute_path(path: Seq<char>) -> bool {
    path.len() > 0 && path[0] == '/'
}

/// Whether the canonical path `path` lies at or below the directory `root`: it is the
/// root itself, or continues it after a `/` (for a canonical path, the same as the
/// root's components being the first components of the path).
pub open spec fn within_root(path: Seq<char>, root: Seq<char>) -> bool {
    ||| path == root
    ||| (root.len() > 0 && root.last() == '/' && root.is_prefix_of(path))
    ||| (root.push('/')).is_prefix_of(path)
}

fn chars_prefix(prefix: &[char], whole: &[char]) -> (r: bool)
    ensures
        r == prefix@.is_prefix_of(whole@),
{
    if prefix.len() > whole.len() {
        return false;
    }
    let mut i: usize = 0;
    while i < prefix.len()
        invariant
            i <= prefix@.len() <= whole@.len(),
            forall|k: int| 0 <= k < i ==> prefix@[k] == whole@[k],
        decreases prefix@.len() - i,
    {
        if prefix[i] != whole[i] {
            return false;
        }
        i += 1;
    }
    true
}

/// Whether the canonical path `path` lies at or below `root` (see `within_root`).
pub fn path_within_root(path: &str, root: &str) -> (r: bool)
    ensures
        r == within_root(path@, root@),
{
    let p = chars_of(path);
    let mut rt = chars_of(root);
    if chars_prefix(p.as_slice(), rt.as_slice()) && p.len() == rt.len() {
        assert(p@ =~= rt@);
        return true;
    }
    assert(p@ != rt@ ==> !(p@.is_prefix_of(rt@) && p@.len() == rt@.len()));
    if rt.len() > 0 && rt[rt.len() - 1] == '/' && chars_prefix(rt.as_slice(), p.as_slice()) {
        return true;
    }
    let ghost plain = rt@;
    rt.push('/');
    assert(rt@ == plain.push('/'));
    let r = chars_prefix(rt.as_slice(), p.as_slice());
    proof {
        if p@ == plain {
            assert(p@.is_prefix_of(plain) && p@.len() == plain.len());
        }
    }
    r
}

/// Checks the path handed to `include()` before it is resolved: it must be relative.
pub fn check_include_request(relative: &str) -> (r: Result<(), ConfigError>)
    ensures
        is_absolute_path(relative@) ==> (r matches Err(ConfigError::Validation(m)) && m@ == "include() only accepts relative paths inside the config root"@),
        !is_absolute_path(relative@) ==> r is Ok,
{
    let v = chars_of(relative);
    if v.len() > 0 && v[0] == '/' {
        return Err(ConfigError::Validation(copy_str("include() only accepts relative paths inside the config root")));
    }
    Ok(())
}

/// Checks where an `include()` of `relative` resolved to: the canonical path must lie
/// within the canonical config root.
pub fn check_include_target(relative: &str, canonical_root: &str, canonical_path: &str) -> (r: Result<(), ConfigError>)
    ensures
        within_root(canonical_path@, canonical_root@) ==> r is Ok,
        !within_root(canonical_path@, canonical_root@) ==> (r matches Err(ConfigError::Validation(m)) && m@ == "include() path escapes the config root: "@ + relative@),
{
    if path_within_root(canonical_path, canonical_root) {
        Ok(())
    } else {
        Err(ConfigError::Validation(concat_str("include() path escapes the config root: ", relative)))
    }
}

/// Checks where a screenshot requested over IPC would be written: the canonical path
/// must lie within one of `allowed_roots` (the home directory, when known, and the
/// temporary directory, shown as `temp_dir`).
pub fn check_screenshot_target(canonical: &str, allowed_roots: &[String], temp_dir: &str) -> (r: Result<(), String>)
    ensures
        (exists|i: int| 0 <= i < allowed_roots@.len() && within_root(canonical@, (#[trigger] allowed_roots@[i])@)) ==> r is Ok,
        !(exists|i: int| 0 <= i < allowed_roots@.len() && within_root(canonical@, (#[trigger] allowed_roots@[i])@))
            ==> (r matches Err(m) && m@ == "screenshot path must be under $HOME or "@ + temp_dir@),
{
    let mut i: usize = 0;
    while i < allowed_roots.len()
        invariant
            i <= allowed_roots@.len(),
            forall|k: int| 0 <= k < i ==> !within_root(canonical@, (#[trigger] allowed_roots@[k])@),
        decreases allowed_roots@.len() - i,
    {
        if path_within_root(canonical, allowed_roots[i].as_str()) {
            return Ok(());
        }
        i += 1;
    }
    Err(concat_str("screenshot path must be under $HOME or ", temp_dir))
}

} // verus!
