//! The desktop application's own view of the three policy files it
//! manages: the expected configuration lines per file, a content test for
//! whether they are present, and builders for the shell commands the
//! elevation launcher runs to insert or delete those lines.  Everything
//! here is a pure function; running the built commands is the caller's
//! business.
use vstd::prelude::*;

use crate::orchestrator::PatchError;
use crate::text::{
    find_line_end, lines_of, str_eq, trim_spec, trim_str, split_lines, views_of,
};

verus! {

/// The login policy file path.
pub open spec fn login_path_spec() -> Seq<char> {
    "/etc/pam.d/login"@
}

/// The sudo policy file path.
pub open spec fn sudo_path_spec() -> Seq<char> {
    "/etc/pam.d/sudo"@
}

/// The privilege-prompt policy file path.
pub open spec fn polkit_path_spec() -> Seq<char> {
    "/etc/pam.d/polkit-1"@
}

/// The login policy file path.
pub fn login_path() -> (r: &'static str)
    ensures
        r@ == login_path_spec(),
{
    "/etc/pam.d/login"
}

/// The sudo policy file path.
pub fn sudo_path() -> (r: &'static str)
    ensures
        r@ == sudo_path_spec(),
{
    "/etc/pam.d/sudo"
}

/// The privilege-prompt policy file path.
pub fn polkit_path() -> (r: &'static str)
    ensures
        r@ == polkit_path_spec(),
{
    "/etc/pam.d/polkit-1"
}

/// The configuration lines expected in the login policy file.
pub open spec fn login_config_spec() -> Seq<char> {
    "auth    [success=1 default=ignore]  pam_succeed_if.so service in sudo:su:su-l tty in :unknown\nauth    sufficient  pam_fprintd.so"@
}

/// The configuration lines expected in the sudo policy file.
pub open spec fn sudo_config_spec() -> Seq<char> {
    "auth    [success=1  default=ignore] pam_succeed_if.so service in sudo:su:su-l tty in :unknown\nauth    sufficient  pam_fprintd.so"@
}

/// The configuration lines expected in the privilege-prompt policy file.
pub open spec fn polkit_config_spec() -> Seq<char> {
    "auth    [success=1 default=ignore]  pam_succeed_if.so service in sudo:su:su-l tty in :unknown\nauth    sufficient  pam_fprintd.so\nauth    sufficient  pam_unix.so try_first_pass likeauth nullok"@
}

/// The configuration text for a recognized policy file path, if any.
pub open spec fn expected_config_spec(path: Seq<char>) -> Option<Seq<char>> {
    if path == login_path_spec() {
        Some(login_config_spec())
    } else if path == sudo_path_spec() {
        Some(sudo_config_spec())
    } else if path == polkit_path_spec() {
        Some(polkit_config_spec())
    } else {
        None
    }
}

/// The configuration text this tool manages for `path`, or `UnknownTarget`
/// when the path is not one of the recognized policy files.
pub fn expected_config(path: &str) -> (r: Result<&'static str, PatchError>)
    ensures
        (match expected_config_spec(path@) {
            Some(c) => r matches Ok(s) && s@ == c,
            None => r matches Err(e) && e is UnknownTarget,
        }),
{
    if str_eq(path, "/etc/pam.d/login") {
        Ok(
            "auth    [success=1 default=ignore]  pam_succeed_if.so service in sudo:su:su-l tty in :unknown\nauth    sufficient  pam_fprintd.so",
        )
    } else if str_eq(path, "/etc/pam.d/sudo") {
        Ok(
            "auth    [success=1  default=ignore] pam_succeed_if.so service in sudo:su:su-l tty in :unknown\nauth    sufficient  pam_fprintd.so",
        )
    } else if str_eq(path, "/etc/pam.d/polkit-1") {
        Ok(
            "auth    [success=1 default=ignore]  pam_succeed_if.so service in sudo:su:su-l tty in :unknown\nauth    sufficient  pam_fprintd.so\nauth    sufficient  pam_unix.so try_first_pass likeauth nullok",
        )
    } else {
        Err(PatchError::UnknownTarget)
    }
}

/// Whether `c` is escaped before being placed in a sed regular expression.
pub open spec fn sed_escaped(c: char) -> bool {
    c == '\\' || c == '/' || c == '.' || c == '*' || c == '[' || c == ']' || c == '(' || c == ')'
        || c == '?' || c == '+' || c == '{' || c == '}' || c == '^' || c == '$' || c == '|'
}

/// The escaped rendering of one character.
pub open spec fn esc_char(c: char) -> Seq<char> {
    if sed_escaped(c) {
        seq!['\\', c]
    } else {
        seq![c]
    }
}

/// The escaped rendering of a whole line.
pub open spec fn escape_spec(s: Seq<char>) -> Seq<char>
    decreases s.len(),
{
    if s.len() == 0 {
        Seq::empty()
    } else {
        esc_char(s[0]) + escape_spec(s.drop_first())
    }
}

/// Escapes a literal line so sed matches it verbatim.
pub fn escape_for_sed_regex(s: &str) -> (r: String)
    ensures
        r@ == escape_spec(s@),
{
    let n = s.unicode_len();
    let mut out = String::new();
    let mut i: usize = 0;
    proof {
        assert(s@.subrange(0, n as int) =~= s@);
        assert(out@ + escape_spec(s@) =~= escape_spec(s@));
    }
    while i < n
        invariant
            0 <= i <= n,
            n == s@.len(),
            out@ + escape_spec(s@.subrange(i as int, n as int)) == escape_spec(s@),
        decreases n - i,
    {
        let c = s.get_char(i);
        let escaped = c == '\\' || c == '/' || c == '.' || c == '*' || c == '[' || c == ']'
            || c == '(' || c == ')' || c == '?' || c == '+' || c == '{' || c == '}' || c == '^'
            || c == '$' || c == '|';
        if escaped {
            crate::text::push_char(&mut out, '\\');
        }
        crate::text::push_char(&mut out, c);
        proof {
            let t = s@.subrange(i as int, n as int);
            assert(t[0] == c);
            assert(t.drop_first() =~= s@.subrange(i + 1, n as int));
            assert(out@ + escape_spec(s@.subrange(i + 1, n as int)) =~= escape_spec(s@));
        }
        i = i + 1;
    }
    proof {
        assert(s@.subrange(n as int, n as int).len() == 0);
        assert(out@ + Seq::<char>::empty() =~= out@);
    }
    out
}

/// The sed delete script for a list of lines: one exact-match delete per
/// line, closed by a delete of empty lines.
pub open spec fn del_script_spec(ls: Seq<Seq<char>>) -> Seq<char>
    decreases ls.len(),
{
    if ls.len() == 0 {
        "/^$/d"@
    } else {
        "/^"@ + escape_spec(ls[0]) + "$/d\n"@ + del_script_spec(ls.drop_first())
    }
}

/// Builds the sed script that deletes each given configuration line, and
/// any resulting empty lines, from a policy file.
pub fn build_del_script(content: &str) -> (r: String)
    ensures
        r@ == del_script_spec(lines_of(content@)),
{
    let n = content.unicode_len();
    let mut out = String::new();
    let mut i: usize = 0;
    proof {
        assert(content@.subrange(0, n as int) =~= content@);
        assert(out@ + del_script_spec(lines_of(content@)) =~= del_script_spec(
            lines_of(content@),
        ));
    }
    while i < n
        invariant
            0 <= i <= n,
            n == content@.len(),
            out@ + del_script_spec(lines_of(content@.subrange(i as int, n as int)))
                == del_script_spec(lines_of(content@)),
        decreases n - i,
    {
        let j = find_line_end(content, i, n);
        let ghost line = content@.subrange(i as int, j as int);
        let ghost rest_i: int = if j < n {
            j + 1
        } else {
            j as int
        };
        proof {
            crate::text::lemma_lines_step_text(content@, i as int, j as int);
        }
        out.append("/^");
        let esc = escape_for_sed_regex(content.substring_char(i, j));
        out.append(esc.as_str());
        out.append("$/d\n");
        proof {
            let ls = seq![line] + lines_of(content@.subrange(rest_i, n as int));
            assert(ls[0] == line);
            assert(ls.drop_first() =~= lines_of(content@.subrange(rest_i, n as int)));
            assert(out@ + del_script_spec(lines_of(content@.subrange(rest_i, n as int)))
                =~= del_script_spec(lines_of(content@)));
        }
        i = if j < n {
            j + 1
        } else {
            j
        };
    }
    out.append("/^$/d");
    proof {
        assert(lines_of(content@.subrange(n as int, n as int)) =~= Seq::<Seq<char>>::empty());
    }
    out
}

/// Whether some line of the list trims to exactly `t`.
pub open spec fn line_present(ls: Seq<Seq<char>>, t: Seq<char>) -> bool {
    exists|j: int| 0 <= j < ls.len() && trim_spec(#[trigger] ls[j]) == t
}

/// Whether every expected line appears, trim-compared, somewhere in the
/// file content.
pub open spec fn configured_spec(expected: Seq<char>, content: Seq<char>) -> bool {
    forall|i: int|
        0 <= i < lines_of(expected).len() ==> line_present(
            lines_of(content),
            trim_spec(#[trigger] lines_of(expected)[i]),
        )
}

/// Whether the file content already holds every expected configuration
/// line, compared after trimming, in any order and position.
pub fn is_configured_content(expected: &str, content: &str) -> (r: bool)
    ensures
        r == configured_spec(expected@, content@),
{
    let exp_lines = split_lines(expected);
    let con_lines = split_lines(content);
    let en = exp_lines.len();
    let cn = con_lines.len();
    let mut i: usize = 0;
    while i < en
        invariant
            0 <= i <= en,
            en == lines_of(expected@).len(),
            cn == lines_of(content@).len(),
            views_of(exp_lines@) == lines_of(expected@),
            views_of(con_lines@) == lines_of(content@),
            forall|ii: int|
                0 <= ii < i ==> line_present(
                    lines_of(content@),
                    trim_spec(#[trigger] lines_of(expected@)[ii]),
                ),
        decreases en - i,
    {
        let e_trim = trim_str(exp_lines[i].as_str());
        let mut found = false;
        let mut j: usize = 0;
        proof {
            assert(views_of(exp_lines@)[i as int] == exp_lines@[i as int]@);
        }
        while j < cn
            invariant
                0 <= j <= cn,
                cn == lines_of(content@).len(),
                views_of(con_lines@) == lines_of(content@),
                e_trim@ == trim_spec(lines_of(expected@)[i as int]),
                i < en == lines_of(expected@).len(),
                found ==> line_present(lines_of(content@), e_trim@),
                !found ==> forall|jj: int|
                    0 <= jj < j ==> trim_spec(#[trigger] lines_of(content@)[jj]) != e_trim@,
            decreases cn - j,
        {
            let c_trim = trim_str(con_lines[j].as_str());
            proof {
                assert(views_of(con_lines@)[j as int] == con_lines@[j as int]@);
            }
            if str_eq(c_trim.as_str(), e_trim.as_str()) {
                found = true;
                proof {
                    assert(trim_spec(lines_of(content@)[j as int]) == e_trim@);
                }
            }
            j = j + 1;
        }
        if !found {
            proof {
                assert(!line_present(lines_of(content@), trim_spec(
                    lines_of(expected@)[i as int],
                )));
                assert(!configured_spec(expected@, content@));
            }
            return false;
        }
        i = i + 1;
    }
    true
}

/// The grouped status of the three managed policy files.
pub struct PamConfig;

impl PamConfig {
    /// Whether the content of a recognized policy file at `path` already
    /// holds its expected configuration lines; unrecognized paths and
    /// missing content report false.
    pub fn is_configured(path: &str, content: &Option<String>) -> (r: bool)
        ensures
            *content is None ==> r == false,
            expected_config_spec(path@) is None ==> r == false,
            *content matches Some(c) ==> (expected_config_spec(path@) matches Some(e) ==> r
                == configured_spec(e, c@)),
    {
        match content {
            None => false,
            Some(c) => match expected_config(path) {
                Err(_) => false,
                Ok(e) => is_configured_content(e, c.as_str()),
            },
        }
    }

    /// The status of the three managed policy files, given each file's
    /// observed content: login, sudo, then privilege prompt.
    pub fn check_configurations(
        login: &Option<String>,
        sudo: &Option<String>,
        polkit: &Option<String>,
    ) -> (r: (bool, bool, bool))
        ensures
            *login is None ==> r.0 == false,
            *login matches Some(c) ==> r.0 == configured_spec(login_config_spec(), c@),
            *sudo is None ==> r.1 == false,
            *sudo matches Some(c) ==> r.1 == configured_spec(sudo_config_spec(), c@),
            *polkit is None ==> r.2 == false,
            *polkit matches Some(c) ==> r.2 == configured_spec(polkit_config_spec(), c@),
    {
        proof {
            reveal_strlit("/etc/pam.d/login");
            reveal_strlit("/etc/pam.d/sudo");
            reveal_strlit("/etc/pam.d/polkit-1");
            assert(login_path_spec().len() == 16);
            assert(sudo_path_spec().len() == 15);
            assert(polkit_path_spec().len() == 19);
            assert(sudo_path_spec() != login_path_spec());
            assert(polkit_path_spec() != login_path_spec());
            assert(polkit_path_spec() != sudo_path_spec());
        }
        let l = Self::is_configured(login_path(), login);
        let s = Self::is_configured(sudo_path(), sudo);
        let p = Self::is_configured(polkit_path(), polkit);
        (l, s, p)
    }

    /// Builds the shell command that inserts the expected configuration
    /// lines for `path` after the policy file's header line, creating the
    /// file with the standard header first when missing; the elevation
    /// launcher runs it.
    pub fn apply_patch(path: &str) -> (r: Result<String, PatchError>)
        ensures
            expected_config_spec(path@) is None ==> (r matches Err(e) && e is UnknownTarget),
            expected_config_spec(path@) matches Some(c) ==> (r matches Ok(cmd) && cmd@
                == "if [ ! -f '"@ + path@ + "' ]; then\n  echo '#%PAM-1.0' > '"@ + path@
                + "'\nfi\nsed -i '1r /dev/fd/3' '"@ + path@ + "' 3<<'PATCH'\n"@ + c
                + "\nPATCH"@),
    {
        let content = match expected_config(path) {
            Ok(c) => c,
            Err(e) => {
                return Err(e);
            },
        };
        let mut cmd = String::new();
        cmd.append("if [ ! -f '");
        cmd.append(path);
        cmd.append("' ]; then\n  echo '#%PAM-1.0' > '");
        cmd.append(path);
        cmd.append("'\nfi\nsed -i '1r /dev/fd/3' '");
        cmd.append(path);
        cmd.append("' 3<<'PATCH'\n");
        cmd.append(content);
        cmd.append("\nPATCH");
        Ok(cmd)
    }

    /// Builds the shell command that deletes the expected configuration
    /// lines for `path`, and any resulting empty lines, from the policy
    /// file if it exists; the elevation launcher runs it.
    pub fn remove_patch(path: &str) -> (r: Result<String, PatchError>)
        ensures
            expected_config_spec(path@) is None ==> (r matches Err(e) && e is UnknownTarget),
            expected_config_spec(path@) matches Some(c) ==> (r matches Ok(cmd) && cmd@
                == "if [ -f '"@ + path@ + "' ]; then\n  sed -i -f /dev/fd/3 '"@ + path@
                + "' 3<<'SED'\n"@ + del_script_spec(lines_of(c)) + "\nSED\nfi"@),
    {
        let content = match expected_config(path) {
            Ok(c) => c,
            Err(e) => {
                return Err(e);
            },
        };
        let script = build_del_script(content);
        let mut cmd = String::new();
        cmd.append("if [ -f '");
        cmd.append(path);
        cmd.append("' ]; then\n  sed -i -f /dev/fd/3 '");
        cmd.append(path);
        cmd.append("' 3<<'SED'\n");
        cmd.append(script.as_str());
        cmd.append("\nSED\nfi");
        Ok(cmd)
    }

    /// Builds the shell command that seeds the privilege-prompt policy file
    /// from the stock template when the live file is missing; the elevation
    /// launcher runs it.
    pub fn copy_default_polkit() -> (r: String)
        ensures
            r@
                == "if [ ! -f '/etc/pam.d/polkit-1' ] && [ -f '/usr/lib/pam.d/polkit-1' ]; then echo 'Copying default polkit config' && cp '/usr/lib/pam.d/polkit-1' '/etc/pam.d/polkit-1'; else echo 'polkit config exists or default missing, skipping copy'; fi"@,
    {
        let mut cmd = String::new();
        cmd.append(
            "if [ ! -f '/etc/pam.d/polkit-1' ] && [ -f '/usr/lib/pam.d/polkit-1' ]; then echo 'Copying default polkit config' && cp '/usr/lib/pam.d/polkit-1' '/etc/pam.d/polkit-1'; else echo 'polkit config exists or default missing, skipping copy'; fi",
        );
        cmd
    }
}

} // verus!
