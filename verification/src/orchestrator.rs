//! The operation orchestrator: the apply / remove / check decisions for one
//! target, the privilege gate, and the batch exit-code rules.  Every
//! function here is a pure decision over values the caller observed on
//! disk; the caller performs the reads and the atomic write around it.
use vstd::prelude::*;

use crate::allowlist::{is_allowlisted_path, path_allowed};
use crate::codec::{
    begin_mark_spec, clean_text, content_has_marker, ensure_nl, insert_block_after_header,
    insert_spec, lemma_marker_facts, lemma_round_trip, lemma_strip_clean_text,
    lemma_strip_idempotent, pam_header, pam_header_spec, remove_fenced_blocks, strip_spec,
};
use crate::text::{contains_seq, trim_end_spec, trim_end_str};

verus! {

/// Why an operation on a target failed.
#[derive(Debug, Clone)]
pub enum PatchError {
    /// The target path is not under an approved directory prefix.
    Forbidden,
    /// No patch content is configured for the target path.
    UnknownTarget,
    /// A required resource, such as the patch-fragment file, is missing.
    NotFound,
    /// The target path gives the writer no parent directory to work in.
    InvalidPath,
    /// An operating-system level read, write, rename or permission failure,
    /// with its cause.
    IoFailure(String),
    /// A mutating operation was attempted without elevated privilege.
    PermissionDenied,
}

impl PatchError {
    /// A short description of the failure for diagnostic lines.
    pub fn message(&self) -> (r: String)
        ensures
            (match self {
                PatchError::Forbidden => r@ == "target path is not allowlisted"@,
                PatchError::UnknownTarget => r@ == "no patch content for target"@,
                PatchError::NotFound => r@ == "patch file not found"@,
                PatchError::InvalidPath => r@ == "path has no parent directory"@,
                PatchError::IoFailure(cause) => r@ == "io failure: "@ + cause@,
                PatchError::PermissionDenied => r@ == "permission denied"@,
            }),
    {
        let mut out = String::new();
        match self {
            PatchError::Forbidden => {
                out.append("target path is not allowlisted");
            },
            PatchError::UnknownTarget => {
                out.append("no patch content for target");
            },
            PatchError::NotFound => {
                out.append("patch file not found");
            },
            PatchError::InvalidPath => {
                out.append("path has no parent directory");
            },
            PatchError::IoFailure(cause) => {
                out.append("io failure: ");
                out.append(cause.as_str());
            },
            PatchError::PermissionDenied => {
                out.append("permission denied");
            },
        }
        out
    }
}

/// One target: the policy file to patch, and optionally a template file
/// whose content seeds it when the policy file does not yet exist.
#[derive(Debug, Clone)]
pub struct TargetConfig {
    /// Absolute path of the policy file.
    pub file: String,
    /// Absolute path of an optional read-only template.
    pub default: Option<String>,
}

impl TargetConfig {
    /// A target with no template fallback.
    pub fn new(file: String) -> (r: Self)
        ensures
            r.file@ == file@,
            r.default is None,
    {
        TargetConfig { file, default: None }
    }
}

/// The views of an observed optional file content.
pub open spec fn opt_view(o: Option<String>) -> Option<Seq<char>> {
    match o {
        Some(s) => Some(s@),
        None => None,
    }
}

/// The base content an apply starts from: the file itself when present,
/// else the template when present, else the bare standard header line.
pub open spec fn base_content_spec(fc: Option<Seq<char>>, dc: Option<Seq<char>>) -> Seq<char> {
    match fc {
        Some(c) => c,
        None => match dc {
            Some(d) => d,
            None => pam_header_spec() + seq!['\n'],
        },
    }
}

/// What a successful apply writes: the base with any stale block stripped
/// and the fresh block for the trimmed patch text inserted after the header
/// line.
pub open spec fn apply_output_spec(base: Seq<char>, patch: Seq<char>) -> Seq<char> {
    insert_spec(strip_spec(base), trim_end_spec(patch))
}

/// Decides an apply for one target from what the caller observed on disk:
/// `patch` is the raw patch-fragment text (`None` when its file is
/// missing), `file_content` the target's current content (`None` when the
/// file is missing), `default_content` the template's content (`None` when
/// the target has no template or it is not a regular file).  Returns the
/// exact content to write atomically, or the error to report.
pub fn plan_apply(
    target: &TargetConfig,
    patch: &Option<String>,
    file_content: &Option<String>,
    default_content: &Option<String>,
) -> (r: Result<String, PatchError>)
    ensures
        !path_allowed(target.file@) ==> (r matches Err(e) && e is Forbidden),
        path_allowed(target.file@) && *patch is None ==> (r matches Err(e) && e is NotFound),
        *patch matches Some(p) ==> (path_allowed(target.file@) ==> (r matches Ok(out) && out@
            == apply_output_spec(
            base_content_spec(opt_view(*file_content), opt_view(*default_content)),
            p@,
        ))),
{
    if !is_allowlisted_path(target.file.as_str()) {
        return Err(PatchError::Forbidden);
    }
    match patch {
        None => Err(PatchError::NotFound),
        Some(p) => {
            let trimmed = trim_end_str(p.as_str());
            let base: String = match file_content {
                Some(c) => c.clone(),
                None => match default_content {
                    Some(d) => d.clone(),
                    None => {
                        let mut h = String::new();
                        h.append(pam_header());
                        h.append("\n");
                        proof {
                            reveal_strlit("\n");
                            assert(h@ =~= pam_header_spec() + seq!['\n']);
                        }
                        h
                    },
                },
            };
            let cleaned = remove_fenced_blocks(base.as_str());
            let out = insert_block_after_header(cleaned, trimmed.as_str());
            Ok(out)
        },
    }
}

/// Decides a remove for one target: `None` means nothing is to be written
/// (missing file, disallowed path, or content already free of blocks);
/// `Some` carries the exact stripped content to write atomically.
pub fn plan_remove(path: &str, file_content: &Option<String>) -> (r: Option<String>)
    ensures
        *file_content is None ==> r is None,
        !path_allowed(path@) ==> r is None,
        *file_content matches Some(c) ==> (path_allowed(path@) ==> (if strip_spec(c@) == c@ {
            r is None
        } else {
            r matches Some(out) && out@ == strip_spec(c@)
        })),
{
    match file_content {
        None => None,
        Some(c) => {
            if !is_allowlisted_path(path) {
                return None;
            }
            let cleaned = remove_fenced_blocks(c.as_str());
            if cleaned.eq(c) {
                None
            } else {
                Some(cleaned)
            }
        },
    }
}

/// Decides a check for one target: applied exactly when the file exists and
/// its content holds the begin marker anywhere.  Never requires privilege
/// and never writes.
pub fn is_config_applied(file_content: &Option<String>) -> (r: bool)
    ensures
        *file_content is None ==> r == false,
        *file_content matches Some(c) ==> r == contains_seq(c@, begin_mark_spec()),
{
    match file_content {
        None => false,
        Some(c) => content_has_marker(c.as_str()),
    }
}

/// The six operations the tool accepts.
#[derive(Debug, Clone, Copy, PartialEq, Eq, Structural)]
pub enum Operation {
    Apply,
    Remove,
    Check,
    ApplyAll,
    RemoveAll,
    CheckAll,
}

/// Whether the operation mutates files and so requires elevation.
pub open spec fn requires_root_spec(op: Operation) -> bool {
    op is Apply || op is Remove || op is ApplyAll || op is RemoveAll
}

/// Whether the operation mutates files and so requires elevation; checks
/// never do.
pub fn operation_requires_root(op: Operation) -> (r: bool)
    ensures
        r == requires_root_spec(op),
{
    match op {
        Operation::Apply => true,
        Operation::Remove => true,
        Operation::ApplyAll => true,
        Operation::RemoveAll => true,
        Operation::Check => false,
        Operation::CheckAll => false,
    }
}

/// The privilege gate: a mutating operation run without effective user id
/// zero exits immediately with code 126, before any file access.
pub fn privilege_gate(op: Operation, euid: u32) -> (r: Option<u8>)
    ensures
        requires_root_spec(op) && euid != 0 ==> r == Some(126u8),
        !(requires_root_spec(op) && euid != 0) ==> r is None,
{
    if operation_requires_root(op) && euid != 0 {
        Some(126)
    } else {
        None
    }
}

/// The exit code of a mutating batch: zero only when every target
/// succeeded.
pub fn mutate_exit_code(error_count: usize) -> (r: i32)
    ensures
        error_count == 0 ==> r == 0,
        error_count > 0 ==> r == 1,
{
    if error_count == 0 {
        0
    } else {
        1
    }
}

/// The exit code of a check batch: 2 on any read failure, else 0 exactly
/// when every target was applied.
pub fn check_exit_code(any_io_error: bool, all_applied: bool) -> (r: i32)
    ensures
        any_io_error ==> r == 2,
        !any_io_error && all_applied ==> r == 0,
        !any_io_error && !all_applied ==> r == 1,
{
    if any_io_error {
        2
    } else if all_applied {
        0
    } else {
        1
    }
}

/// One per-target report line: a status word, a colon and space, and the
/// detail.
pub fn status_line(word: &str, detail: &str) -> (r: String)
    ensures
        r@ == word@ + ": "@ + detail@,
{
    let mut out = String::new();
    out.append(word);
    out.append(": ");
    out.append(detail);
    out
}

/// The idempotence law for apply: running the operation a second time over
/// its own output, with the same patch free of marker lines, writes the
/// byte-identical file again — no blocks accumulate, and a further strip
/// agrees with a strip of the first output.
pub proof fn lemma_apply_twice(base: Seq<char>, patch: Seq<char>)
    requires
        clean_text(trim_end_spec(patch)),
    ensures
        apply_output_spec(apply_output_spec(base, patch), patch) == apply_output_spec(
            base,
            patch,
        ),
        strip_spec(apply_output_spec(apply_output_spec(base, patch), patch)) == strip_spec(
            apply_output_spec(base, patch),
        ),
{
    let p = trim_end_spec(patch);
    let s1 = strip_spec(base);
    let a1 = apply_output_spec(base, patch);
    lemma_strip_idempotent(base);
    lemma_round_trip(s1, p);
    if s1.len() == 0 {
        // The first output strips to the bare header line; inserting into
        // that line rebuilds the first output exactly.
        lemma_marker_facts();
        let h = pam_header_spec();
        let hn = h + seq!['\n'];
        assert(strip_spec(a1) == hn);
        assert(hn.last() == '\n');
        let cn = ensure_nl(hn);
        assert(cn == hn);
        assert forall|k: int| 0 <= k < h.len() implies cn[k] != '\n' by {
            assert(cn[k] == h[k]);
        }
        assert(cn[h.len() as int] == '\n');
        crate::text::lemma_first_nl_char(cn, h.len() as int);
        assert(cn.subrange(0, h.len() as int) =~= h);
        assert(cn.subrange(h.len() as int + 1, cn.len() as int).len() == 0);
        assert(insert_spec(hn, p) =~= insert_spec(Seq::<char>::empty(), p));
        assert(s1 =~= Seq::<char>::empty());
    } else {
        // The first output strips back to `s1` itself, so the second
        // insert repeats the first.
        assert(ensure_nl(s1) == s1);
        assert(strip_spec(a1) == s1);
    }
}

/// After any apply, a check reports applied: the written content always
/// holds the begin marker.
pub proof fn lemma_apply_sets_marker(base: Seq<char>, patch: Seq<char>)
    ensures
        contains_seq(apply_output_spec(base, patch), begin_mark_spec()),
{
    crate::codec::lemma_insert_has_marker(strip_spec(base), trim_end_spec(patch));
}

/// The template-fallback law: when the target file is missing but its
/// template exists with content free of marker lines, the apply output is
/// exactly the template's newline-normalized content with the fresh block
/// inserted after its first line.
pub proof fn lemma_default_template(dc: Seq<char>, patch: Seq<char>)
    requires
        clean_text(dc),
    ensures
        apply_output_spec(base_content_spec(None, Some(dc)), patch) == insert_spec(
            if dc.len() == 0 {
                Seq::<char>::empty()
            } else {
                ensure_nl(dc)
            },
            trim_end_spec(patch),
        ),
{
    lemma_strip_clean_text(dc);
}

} // verus!
