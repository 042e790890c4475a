//! The patch-content resolver: maps a target path to the patch-fragment
//! file that holds its configuration text, and normalizes the text read
//! from that file.  Resolution is injective over absolute targets: the
//! target is mirrored under the patches directory and `.patch` is
//! appended, so distinct targets never share a patch file.
use vstd::prelude::*;

use crate::text::{trim_end_spec, trim_end_str};

verus! {

/// The fixed directory under which patch fragments are stored, mirroring
/// target paths.
pub open spec fn patches_base_spec() -> Seq<char> {
    "/opt/xfprintd-gui/patches"@
}

/// The fixed directory under which patch fragments are stored.
pub fn patches_base_dir() -> (r: &'static str)
    ensures
        r@ == patches_base_spec(),
{
    "/opt/xfprintd-gui/patches"
}

/// `target` with one leading slash removed, making it relative to the
/// patches directory.
pub open spec fn rel_of(target: Seq<char>) -> Seq<char> {
    if target.len() > 0 && target[0] == '/' {
        target.drop_first()
    } else {
        target
    }
}

/// The target path joined under the patches directory.
pub open spec fn joined_of(target: Seq<char>) -> Seq<char> {
    patches_base_spec() + seq!['/'] + rel_of(target)
}

/// The patch-fragment path for a target: the target mirrored under the
/// patches directory, with `.patch` appended.
pub open spec fn patch_path_spec(target: Seq<char>) -> Seq<char> {
    joined_of(target) + ".patch"@
}

/// Maps a target path to the patch-fragment path that holds its
/// configuration text.
pub fn get_patch_path(target_path: &str) -> (r: String)
    ensures
        r@ == patch_path_spec(target_path@),
{
    let n = target_path.unicode_len();
    let mut out = String::new();
    out.append(patches_base_dir());
    out.append("/");
    if n > 0 && target_path.get_char(0) == '/' {
        out.append(target_path.substring_char(1, n));
        proof {
            assert(target_path@.subrange(1, n as int) =~= rel_of(target_path@));
        }
    } else {
        out.append(target_path);
    }
    out.append(".patch");
    proof {
        reveal_strlit("/");
        assert("/"@ =~= seq!['/']);
        assert(out@ =~= patch_path_spec(target_path@));
    }
    out
}

/// Resolution is injective: two distinct absolute targets never resolve to
/// the same patch-fragment file.
pub proof fn lemma_patch_path_injective(t1: Seq<char>, t2: Seq<char>)
    requires
        t1.len() > 0 && t1[0] == '/',
        t2.len() > 0 && t2[0] == '/',
        t1 != t2,
    ensures
        patch_path_spec(t1) != patch_path_spec(t2),
{
    let p1 = patch_path_spec(t1);
    let p2 = patch_path_spec(t2);
    let base = patches_base_spec().len() as int;
    if p1 == p2 {
        // Equal results force equal lengths, hence equal targets.
        assert(p1.len() == base + 1 + (t1.len() - 1) + ".patch"@.len());
        assert(p2.len() == base + 1 + (t2.len() - 1) + ".patch"@.len());
        assert(t1.len() == t2.len());
        assert forall|k: int| 0 <= k < t1.len() implies t1[k] == t2[k] by {
            if k == 0 {
            } else {
                assert(p1[base + k] == t1.drop_first()[k - 1]);
                assert(p2[base + k] == t2.drop_first()[k - 1]);
            }
        }
        assert(t1 =~= t2);
    }
}

/// Normalizes patch text read from a fragment file: trailing whitespace is
/// removed so the inserted block is stable across rereads.
pub fn normalize_patch_text(content: &str) -> (r: String)
    ensures
        r@ == trim_end_spec(content@),
{
    trim_end_str(content)
}

} // verus!
