//! The path jail: given the canonical component paths of the served root
//! and of the requested target, decides whether the target may be served.
//! The check runs on canonical forms (symlinks and `..` already resolved),
//! which is the sole traversal defense. Also holds the file readability
//! rule shared by the static and script paths.

use vstd::prelude::*;
use crate::text::str_eq;

verus! {

/// Outcome of the jail check.
#[derive(Clone, Copy, PartialEq, Eq, Structural, Debug)]
pub enum JailOutcome {
    /// The canonical target lies under the canonical root.
    Authorized,
    /// The canonical target lies outside the root.
    Escaped,
    /// The target could not be canonicalized (absent or broken).
    NotFound,
    /// The root itself could not be canonicalized.
    Misconfigured,
}

/// Whether `root` is a component-wise prefix of `target`.
pub open spec fn is_component_prefix(root: Seq<Seq<char>>, target: Seq<Seq<char>>) -> bool {
    root.len() <= target.len() && forall|i: int| 0 <= i < root.len() ==> target[i] == root[i]
}

/// The components of a canonicalized path, when canonicalization
/// succeeded.
pub open spec fn opt_components(o: Option<Vec<String>>) -> Option<Seq<Seq<char>>> {
    match o {
        Some(v) => Some(v.deep_view()),
        None => None,
    }
}

/// The jail decision over the two canonicalization results.
pub open spec fn spec_jail(root: Option<Seq<Seq<char>>>, target: Option<Seq<Seq<char>>>)
    -> JailOutcome {
    match root {
        None => JailOutcome::Misconfigured,
        Some(r) => match target {
            None => JailOutcome::NotFound,
            Some(t) => if is_component_prefix(r, t) {
                JailOutcome::Authorized
            } else {
                JailOutcome::Escaped
            },
        },
    }
}

fn components_prefix(root: &Vec<String>, target: &Vec<String>) -> (r: bool)
    ensures
        r == is_component_prefix(root.deep_view(), target.deep_view()),
{
    let ghost rv = root.deep_view();
    let ghost tv = target.deep_view();
    let n = root.len();
    if n > target.len() {
        return false;
    }
    let mut i: usize = 0;
    while i < n
        invariant
            0 <= i <= n,
            n == root@.len(),
            n <= target@.len(),
            rv == root.deep_view(),
            tv == target.deep_view(),
            rv.len() == n,
            tv.len() == target@.len(),
            forall|j: int| 0 <= j < i ==> tv[j] == rv[j],
        decreases n - i,
    {
        proof {
            assert(rv[i as int] == root@[i as int]@);
            assert(tv[i as int] == target@[i as int]@);
        }
        if !str_eq(root[i].as_str(), target[i].as_str()) {
            return false;
        }
        i += 1;
    }
    true
}

/// Decides whether a resolved target may be served: `root` and `target`
/// hold the canonical path components of the served root and of the
/// requested file, or `None` where canonicalization failed.
pub fn jail_check(root: &Option<Vec<String>>, target: &Option<Vec<String>>) -> (r: JailOutcome)
    ensures
        r == spec_jail(opt_components(*root), opt_components(*target)),
{
    match root {
        None => JailOutcome::Misconfigured,
        Some(rc) => match target {
            None => JailOutcome::NotFound,
            Some(tc) => {
                if components_prefix(rc, tc) {
                    JailOutcome::Authorized
                } else {
                    JailOutcome::Escaped
                }
            },
        },
    }
}

/// The jail rejects, as an escape, every target whose canonical
/// components do not extend the root's canonical components; this covers
/// both syntactic (`..`) and symlink-based escapes, since both are
/// resolved away by canonicalization before the check.
pub proof fn lemma_jail_rejects_escapes(root: Seq<Seq<char>>, target: Seq<Seq<char>>)
    requires
        !is_component_prefix(root, target),
    ensures
        spec_jail(Some(root), Some(target)) == JailOutcome::Escaped,
{
}

/// A file counts as readable when any of the owner, group or other read
/// permission bits is set in its mode.
pub open spec fn spec_readable(mode: u32) -> bool {
    mode & 0o444 != 0
}

/// Decides whether a file's permission bits grant read access to anyone.
pub fn is_readable(mode: u32) -> (r: bool)
    ensures
        r == spec_readable(mode),
{
    mode & 0o444 != 0
}

} // verus!
