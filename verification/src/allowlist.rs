//! The allowlist guard: a mutating operation may only touch a path that
//! textually begins with one of a fixed set of approved policy directories.
//! This is a deliberate plain prefix test on the path as given — no symlink
//! resolution and no canonicalization — so callers must not rely on it to
//! defeat symlink-based escapes.
use vstd::prelude::*;

use crate::text::{is_prefix_of, starts_with_str};

verus! {

/// The approved directory prefixes under which patching is permitted.
pub open spec fn allowed_prefixes() -> Seq<Seq<char>> {
    seq!["/etc/pam.d"@]
}

/// Whether `path` begins with an approved directory prefix.
pub open spec fn path_allowed(path: Seq<char>) -> bool {
    exists|k: int|
        0 <= k < allowed_prefixes().len() && is_prefix_of(#[trigger] allowed_prefixes()[k], path)
}

/// Whether `path` lies under one of the approved policy directories; every
/// mutating operation must pass this check before touching the file.
pub fn is_allowlisted_path(path: &str) -> (r: bool)
    ensures
        r == path_allowed(path@),
{
    let r = starts_with_str(path, "/etc/pam.d");
    proof {
        if r {
            assert(allowed_prefixes()[0] == "/etc/pam.d"@);
        } else {
            assert(forall|k: int|
                0 <= k < allowed_prefixes().len() ==> #[trigger] allowed_prefixes()[k]
                    == "/etc/pam.d"@);
        }
    }
    r
}

} // verus!
