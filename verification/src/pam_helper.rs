//! The desktop application's interface to the privileged helper tool: the
//! login-path selection, the target argument it passes for an apply, and
//! the parser for the helper's per-target report lines.  Launching the
//! helper itself is the caller's business.
use vstd::prelude::*;

use crate::pam_config::{polkit_path_spec, sudo_path_spec};
use crate::text::{lines_of, split_lines, starts_with_str, str_eq, views_of};

verus! {

/// The generic login policy path.
pub open spec fn login_generic_spec() -> Seq<char> {
    "/etc/pam.d/login"@
}

/// The login policy path used when the sddm display manager is enabled.
pub open spec fn login_sddm_spec() -> Seq<char> {
    "/etc/pam.d/sddm"@
}

/// The login policy path to manage: the sddm one when that display manager
/// is enabled, else the generic one.
pub fn get_login_path(sddm_enabled: bool) -> (r: &'static str)
    ensures
        sddm_enabled ==> r@ == login_sddm_spec(),
        !sddm_enabled ==> r@ == login_generic_spec(),
{
    if sddm_enabled {
        "/etc/pam.d/sddm"
    } else {
        "/etc/pam.d/login"
    }
}

/// Whether `l` is the helper's applied-report line for `path`.
pub open spec fn is_applied_line_for(l: Seq<char>, path: Seq<char>) -> bool {
    l == "applied: "@ + path
}

/// Whether some line reports `path` as applied.
pub open spec fn has_applied_line(ls: Seq<Seq<char>>, path: Seq<char>) -> bool {
    exists|j: int| 0 <= j < ls.len() && is_applied_line_for(#[trigger] ls[j], path)
}

/// The application's handle on the privileged helper tool.
pub struct PamHelper;

impl PamHelper {
    /// The target argument passed to the helper for an apply: the file
    /// path, and for the privilege-prompt file also its stock template as
    /// the default.
    pub fn target_json_arg(path: &str) -> (r: String)
        ensures
            path@ == polkit_path_spec() ==> r@ == "{\"file\":\""@ + path@
                + "\",\"default\":\"/usr/lib/pam.d/polkit-1\"}"@,
            path@ != polkit_path_spec() ==> r@ == "{\"file\":\""@ + path@ + "\"}"@,
    {
        let mut out = String::new();
        out.append("{\"file\":\"");
        out.append(path);
        if str_eq(path, "/etc/pam.d/polkit-1") {
            out.append("\",\"default\":\"/usr/lib/pam.d/polkit-1\"}");
        } else {
            out.append("\"}");
        }
        out
    }

    /// Parses the helper's check report: one flag per managed service,
    /// true exactly when some line reports that service's path as applied.
    /// The login flag accepts either login path, whichever display manager
    /// produced it.
    pub fn parse_check_output(stdout: &str) -> (r: (bool, bool, bool))
        ensures
            r.0 == (has_applied_line(lines_of(stdout@), login_generic_spec())
                || has_applied_line(lines_of(stdout@), login_sddm_spec())),
            r.1 == has_applied_line(lines_of(stdout@), sudo_path_spec()),
            r.2 == has_applied_line(lines_of(stdout@), polkit_path_spec()),
    {
        let ls = split_lines(stdout);
        let n = ls.len();
        let mut login_generic = false;
        let mut login_sddm = false;
        let mut sudo = false;
        let mut polkit = false;
        let mut i: usize = 0;
        while i < n
            invariant
                0 <= i <= n,
                n == lines_of(stdout@).len(),
                views_of(ls@) == lines_of(stdout@),
                login_generic == (exists|j: int|
                    0 <= j < i && is_applied_line_for(
                        #[trigger] lines_of(stdout@)[j],
                        login_generic_spec(),
                    )),
                login_sddm == (exists|j: int|
                    0 <= j < i && is_applied_line_for(
                        #[trigger] lines_of(stdout@)[j],
                        login_sddm_spec(),
                    )),
                sudo == (exists|j: int|
                    0 <= j < i && is_applied_line_for(
                        #[trigger] lines_of(stdout@)[j],
                        sudo_path_spec(),
                    )),
                polkit == (exists|j: int|
                    0 <= j < i && is_applied_line_for(
                        #[trigger] lines_of(stdout@)[j],
                        polkit_path_spec(),
                    )),
            decreases n - i,
        {
            let line = &ls[i];
            proof {
                assert(views_of(ls@)[i as int] == ls@[i as int]@);
            }
            if Self::line_is_applied_for(line.as_str(), "/etc/pam.d/login") {
                login_generic = true;
            }
            if Self::line_is_applied_for(line.as_str(), "/etc/pam.d/sddm") {
                login_sddm = true;
            }
            if Self::line_is_applied_for(line.as_str(), "/etc/pam.d/sudo") {
                sudo = true;
            }
            if Self::line_is_applied_for(line.as_str(), "/etc/pam.d/polkit-1") {
                polkit = true;
            }
            i = i + 1;
        }
        (login_generic || login_sddm, sudo, polkit)
    }

    /// Whether one report line marks `path` as applied.
    fn line_is_applied_for(line: &str, path: &str) -> (r: bool)
        ensures
            r == is_applied_line_for(line@, path@),
    {
        let n = line.unicode_len();
        if !starts_with_str(line, "applied: ") {
            proof {
                reveal_strlit("applied: ");
                if is_applied_line_for(line@, path@) {
                    assert(line@.subrange(0, 9) =~= "applied: "@);
                }
            }
            return false;
        }
        proof {
            reveal_strlit("applied: ");
        }
        let rest_eq = crate::text::range_eq(line, 9, n, path);
        proof {
            if rest_eq {
                assert(line@ =~= "applied: "@ + path@);
            }
            if is_applied_line_for(line@, path@) {
                assert(line@.subrange(9, n as int) =~= path@);
            }
        }
        rest_eq
    }
}

} // verus!
