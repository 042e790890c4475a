//! Display helpers of the desktop application: finger-name formatting and
//! the distribution check, each a pure text transform with a verified
//! model; Unicode case folding is delegated to the standard library and
//! named, not restated.
use vstd::prelude::*;

use crate::text::{
    contains_seq, contains_str, is_prefix_of, lines_of, push_char, range_eq, split_lines,
    starts_with_str, views_of,
};

verus! {

/// `s` with every non-overlapping occurrence of `pat` replaced by `to`,
/// scanning left to right.
pub open spec fn replace_spec(s: Seq<char>, pat: Seq<char>, to: Seq<char>) -> Seq<char>
    decreases s.len(),
{
    if pat.len() == 0 || s.len() < pat.len() {
        s
    } else if s.subrange(0, pat.len() as int) == pat {
        to + replace_spec(s.skip(pat.len() as int), pat, to)
    } else {
        seq![s[0]] + replace_spec(s.drop_first(), pat, to)
    }
}

/// Replaces every non-overlapping occurrence of `pat` in `s` by `to`.
pub fn replace_str(s: &str, pat: &str, to: &str) -> (r: String)
    requires
        pat@.len() > 0,
    ensures
        r@ == replace_spec(s@, pat@, to@),
{
    let n = s.unicode_len();
    let m = pat.unicode_len();
    let mut out = String::new();
    let mut i: usize = 0;
    proof {
        assert(s@.subrange(0, n as int) =~= s@);
        assert(out@ + replace_spec(s@, pat@, to@) =~= replace_spec(s@, pat@, to@));
    }
    while i < n
        invariant
            0 <= i <= n,
            n == s@.len(),
            m == pat@.len(),
            m > 0,
            out@ + replace_spec(s@.subrange(i as int, n as int), pat@, to@) == replace_spec(
                s@,
                pat@,
                to@,
            ),
        decreases n - i,
    {
        let ghost t = s@.subrange(i as int, n as int);
        if m <= n - i && range_eq(s, i, i + m, pat) {
            out.append(to);
            proof {
                assert(t.subrange(0, m as int) =~= s@.subrange(i as int, (i + m) as int));
                assert(t.skip(m as int) =~= s@.subrange((i + m) as int, n as int));
            }
            i = i + m;
        } else {
            let c = s.get_char(i);
            push_char(&mut out, c);
            proof {
                assert(t[0] == c);
                if i + m <= n {
                    assert(t.subrange(0, m as int) =~= s@.subrange(i as int, (i + m) as int));
                }
                assert(t.drop_first() =~= s@.subrange(i + 1, n as int));
            }
            i = i + 1;
        }
    }
    proof {
        assert(s@.subrange(n as int, n as int).len() == 0);
        assert(out@ + Seq::<char>::empty() =~= out@);
    }
    out
}

/// The ASCII uppercase of `c`: lowercase letters map to their uppercase,
/// everything else is unchanged.
pub open spec fn ascii_upper_spec(c: char) -> char {
    if c == 'a' {
        'A'
    } else if c == 'b' {
        'B'
    } else if c == 'c' {
        'C'
    } else if c == 'd' {
        'D'
    } else if c == 'e' {
        'E'
    } else if c == 'f' {
        'F'
    } else if c == 'g' {
        'G'
    } else if c == 'h' {
        'H'
    } else if c == 'i' {
        'I'
    } else if c == 'j' {
        'J'
    } else if c == 'k' {
        'K'
    } else if c == 'l' {
        'L'
    } else if c == 'm' {
        'M'
    } else if c == 'n' {
        'N'
    } else if c == 'o' {
        'O'
    } else if c == 'p' {
        'P'
    } else if c == 'q' {
        'Q'
    } else if c == 'r' {
        'R'
    } else if c == 's' {
        'S'
    } else if c == 't' {
        'T'
    } else if c == 'u' {
        'U'
    } else if c == 'v' {
        'V'
    } else if c == 'w' {
        'W'
    } else if c == 'x' {
        'X'
    } else if c == 'y' {
        'Y'
    } else if c == 'z' {
        'Z'
    } else {
        c
    }
}

/// The ASCII uppercase of `c`.
pub fn ascii_upper_char(c: char) -> (r: char)
    ensures
        r == ascii_upper_spec(c),
{
    match c {
        'a' => 'A',
        'b' => 'B',
        'c' => 'C',
        'd' => 'D',
        'e' => 'E',
        'f' => 'F',
        'g' => 'G',
        'h' => 'H',
        'i' => 'I',
        'j' => 'J',
        'k' => 'K',
        'l' => 'L',
        'm' => 'M',
        'n' => 'N',
        'o' => 'O',
        'p' => 'P',
        'q' => 'Q',
        'r' => 'R',
        's' => 'S',
        't' => 'T',
        'u' => 'U',
        'v' => 'V',
        'w' => 'W',
        'x' => 'X',
        'y' => 'Y',
        'z' => 'Z',
        _ => c,
    }
}

/// What `display_finger_name` produces: dashes become spaces and the first
/// character is ASCII-uppercased.
pub open spec fn display_name_spec(s: Seq<char>) -> Seq<char> {
    if s.len() == 0 {
        Seq::empty()
    } else {
        let r = replace_spec(s, "-"@, " "@);
        if r.len() == 0 {
            r
        } else {
            seq![ascii_upper_spec(r[0])] + r.drop_first()
        }
    }
}

/// Formats a finger name for display: dashes become spaces and the first
/// letter is capitalized.
pub fn display_finger_name(name: &str) -> (r: String)
    ensures
        r@ == display_name_spec(name@),
{
    if name.is_empty() {
        return String::new();
    }
    proof {
        reveal_strlit("-");
    }
    let rep = replace_str(name, "-", " ");
    let rn = rep.as_str().unicode_len();
    if rn == 0 {
        return rep;
    }
    let c0 = rep.as_str().get_char(0);
    let up = ascii_upper_char(c0);
    let mut out = String::new();
    push_char(&mut out, up);
    out.append(rep.as_str().substring_char(1, rn));
    proof {
        assert(rep@.subrange(1, rn as int) =~= rep@.drop_first());
        assert(out@ =~= seq![ascii_upper_spec(rep@[0])] + rep@.drop_first());
    }
    out
}

/// A name for what char::to_uppercase yields: the uppercase mapping of one
/// character, which may be several characters long.
pub uninterp spec fn upper_of(c: char) -> Seq<char>;

/// Relies on char::to_uppercase: the result depends on the character
/// alone, and for an ASCII character it is the single ASCII uppercase
/// character.
#[verifier::external_body]
fn upper_chars(c: char) -> (r: String)
    ensures
        r@ == upper_of(c),
        (c as u32) < 128 ==> r@ == seq![ascii_upper_spec(c)],
{
    c.to_uppercase().to_string()
}

/// The shortened finger label before its first character is uppercased.
pub open spec fn short_name_base_spec(s: Seq<char>) -> Seq<char> {
    replace_spec(
        replace_spec(replace_spec(s, " finger"@, ""@), "Left "@, ""@),
        "Right "@,
        ""@,
    )
}

/// What `create_short_finger_name` produces: common words dropped, then
/// the first character Unicode-uppercased.
pub open spec fn short_name_spec(s: Seq<char>) -> Seq<char> {
    let r = short_name_base_spec(s);
    if r.len() == 0 {
        r
    } else {
        upper_of(r[0]) + r.drop_first()
    }
}

/// Creates a shortened finger label by dropping common words and
/// capitalizing what is left.
pub fn create_short_finger_name(display_name: &str) -> (r: String)
    ensures
        r@ == short_name_spec(display_name@),
{
    proof {
        reveal_strlit(" finger");
        reveal_strlit("Left ");
        reveal_strlit("Right ");
    }
    let r1 = replace_str(display_name, " finger", "");
    let r2 = replace_str(r1.as_str(), "Left ", "");
    let r3 = replace_str(r2.as_str(), "Right ", "");
    let rn = r3.as_str().unicode_len();
    if rn == 0 {
        return r3;
    }
    let c0 = r3.as_str().get_char(0);
    let up = upper_chars(c0);
    let mut out = String::new();
    out.append(up.as_str());
    out.append(r3.as_str().substring_char(1, rn));
    proof {
        assert(r3@.subrange(1, rn as int) =~= r3@.drop_first());
    }
    out
}

/// A name for what str::to_lowercase yields: the lowercase folding of the
/// text, which depends on its characters alone.
pub uninterp spec fn lower_of(s: Seq<char>) -> Seq<char>;

/// Relies on str::to_lowercase: the result depends on the characters
/// alone, and empty text stays empty.
#[verifier::external_body]
fn lowercase(s: &str) -> (r: String)
    ensures
        r@ == lower_of(s@),
        s@.len() == 0 ==> r@.len() == 0,
{
    s.to_lowercase()
}

/// Whether a distribution name is the supported one: its lowercase folding
/// mentions the supported distribution.
pub fn is_supported_distribution(name: &str) -> (r: bool)
    ensures
        r == contains_seq(lower_of(name@), "xerolinux"@),
{
    let low = lowercase(name);
    contains_str(low.as_str(), "xerolinux")
}

/// `s` with every leading repetition of `p` removed.
pub open spec fn strip_prefix_reps(s: Seq<char>, p: Seq<char>) -> Seq<char>
    decreases s.len(),
{
    if p.len() > 0 && is_prefix_of(p, s) {
        strip_prefix_reps(s.skip(p.len() as int), p)
    } else {
        s
    }
}

/// `s` with all leading double quotes removed.
pub open spec fn trim_quotes_start(s: Seq<char>) -> Seq<char>
    decreases s.len(),
{
    if s.len() > 0 && s[0] == '"' {
        trim_quotes_start(s.drop_first())
    } else {
        s
    }
}

/// `s` with all trailing double quotes removed.
pub open spec fn trim_quotes_end(s: Seq<char>) -> Seq<char>
    decreases s.len(),
{
    if s.len() > 0 && s.last() == '"' {
        trim_quotes_end(s.drop_last())
    } else {
        s
    }
}

/// The value a release-file line yields for a field prefix: the text after
/// the repeated prefix, unquoted.
pub open spec fn field_value_spec(l: Seq<char>, p: Seq<char>) -> Seq<char> {
    trim_quotes_end(trim_quotes_start(strip_prefix_reps(l, p)))
}

/// The first nonempty field value among the lines carrying the prefix.
pub open spec fn release_value_spec(ls: Seq<Seq<char>>, p: Seq<char>) -> Option<Seq<char>>
    decreases ls.len(),
{
    if ls.len() == 0 {
        None
    } else if is_prefix_of(p, ls[0]) && field_value_spec(ls[0], p).len() > 0 {
        Some(field_value_spec(ls[0], p))
    } else {
        release_value_spec(ls.drop_first(), p)
    }
}

/// Dropping a maximal run of leading prefix repetitions realizes
/// `strip_prefix_reps`.
proof fn lemma_strip_reps_step(s: Seq<char>, p: Seq<char>, a: int)
    requires
        p.len() > 0,
        0 <= a <= s.len(),
        strip_prefix_reps(s, p) == strip_prefix_reps(s.subrange(a, s.len() as int), p),
        is_prefix_of(p, s.subrange(a, s.len() as int)),
    ensures
        a + p.len() <= s.len(),
        strip_prefix_reps(s, p) == strip_prefix_reps(
            s.subrange(a + p.len(), s.len() as int),
            p,
        ),
{
    let t = s.subrange(a, s.len() as int);
    assert(t.skip(p.len() as int) =~= s.subrange(a + p.len(), s.len() as int));
}

/// Extracts the unquoted field value of one line for the prefix.
fn field_value(line: &str, p: &str) -> (r: String)
    requires
        p@.len() > 0,
    ensures
        r@ == field_value_spec(line@, p@),
{
    let n = line.unicode_len();
    let m = p.unicode_len();
    let mut a: usize = 0;
    proof {
        assert(line@.subrange(0, n as int) =~= line@);
    }
    while m <= n - a && range_eq(line, a, a + m, p)
        invariant
            0 <= a <= n,
            n == line@.len(),
            m == p@.len(),
            m > 0,
            strip_prefix_reps(line@, p@) == strip_prefix_reps(
                line@.subrange(a as int, n as int),
                p@,
            ),
        decreases n - a,
    {
        proof {
            let t = line@.subrange(a as int, n as int);
            assert(t.subrange(0, m as int) =~= line@.subrange(a as int, (a + m) as int));
            assert(is_prefix_of(p@, t));
            lemma_strip_reps_step(line@, p@, a as int);
        }
        a = a + m;
    }
    proof {
        let t = line@.subrange(a as int, n as int);
        if a + m <= n {
            assert(t.subrange(0, m as int) =~= line@.subrange(a as int, (a + m) as int));
        }
        assert(!is_prefix_of(p@, t));
        assert(strip_prefix_reps(line@, p@) == t);
    }
    // Trim quotes from both ends of `line[a..n]`.
    let mut lo = a;
    while lo < n && line.get_char(lo) == '"'
        invariant
            a <= lo <= n,
            n == line@.len(),
            trim_quotes_start(line@.subrange(a as int, n as int)) == trim_quotes_start(
                line@.subrange(lo as int, n as int),
            ),
        decreases n - lo,
    {
        proof {
            let t = line@.subrange(lo as int, n as int);
            assert(t[0] == '"');
            assert(t.drop_first() =~= line@.subrange(lo + 1, n as int));
        }
        lo = lo + 1;
    }
    proof {
        let t = line@.subrange(lo as int, n as int);
        if lo < n {
            assert(t[0] != '"');
        }
        assert(trim_quotes_start(t) == t);
    }
    let mut hi = n;
    while hi > lo && line.get_char(hi - 1) == '"'
        invariant
            lo <= hi <= n,
            n == line@.len(),
            trim_quotes_end(line@.subrange(lo as int, n as int)) == trim_quotes_end(
                line@.subrange(lo as int, hi as int),
            ),
        decreases hi,
    {
        proof {
            let t = line@.subrange(lo as int, hi as int);
            assert(t.last() == '"');
            assert(t.drop_last() =~= line@.subrange(lo as int, hi - 1));
        }
        hi = hi - 1;
    }
    proof {
        let t = line@.subrange(lo as int, hi as int);
        if hi > lo {
            assert(t.last() != '"');
        }
        assert(trim_quotes_end(t) == t);
    }
    let mut out = String::new();
    out.append(line.substring_char(lo, hi));
    proof {
        assert(out@ =~= line@.subrange(lo as int, hi as int));
    }
    out
}

/// Parses the distribution name field from release-file content for the
/// given field prefix: the first line carrying the prefix whose unquoted
/// value is nonempty.
pub fn parse_release_value(content: &str, prefix: &str) -> (r: Option<String>)
    requires
        prefix@.len() > 0,
    ensures
        (match r {
            Some(v) => release_value_spec(lines_of(content@), prefix@) == Some(v@),
            None => release_value_spec(lines_of(content@), prefix@) is None,
        }),
{
    let ls = split_lines(content);
    let n = ls.len();
    let mut i: usize = 0;
    proof {
        assert(lines_of(content@).subrange(0, n as int) =~= lines_of(content@));
    }
    while i < n
        invariant
            0 <= i <= n,
            n == lines_of(content@).len(),
            views_of(ls@) == lines_of(content@),
            prefix@.len() > 0,
            release_value_spec(lines_of(content@), prefix@) == release_value_spec(
                lines_of(content@).subrange(i as int, n as int),
                prefix@,
            ),
        decreases n - i,
    {
        let line = &ls[i];
        proof {
            assert(views_of(ls@)[i as int] == ls@[i as int]@);
        }
        let ghost rest = lines_of(content@).subrange(i as int, n as int);
        proof {
            assert(rest[0] == lines_of(content@)[i as int]);
            assert(rest.drop_first() =~= lines_of(content@).subrange(i + 1, n as int));
        }
        if starts_with_str(line.as_str(), prefix) {
            let v = field_value(line.as_str(), prefix);
            if v.as_str().unicode_len() > 0 {
                return Some(v);
            }
        }
        i = i + 1;
    }
    proof {
        assert(lines_of(content@).subrange(n as int, n as int).len() == 0);
    }
    None
}

/// Parses the NAME field from os-release content.
pub fn parse_os_release_name(content: &str) -> (r: Option<String>)
    ensures
        (match r {
            Some(v) => release_value_spec(lines_of(content@), "NAME="@) == Some(v@),
            None => release_value_spec(lines_of(content@), "NAME="@) is None,
        }),
{
    proof {
        reveal_strlit("NAME=");
    }
    parse_release_value(content, "NAME=")
}

/// The fallback chain for the distribution name: the os-release NAME from
/// the system directory, else from the vendor directory, else the
/// DISTRIB_ID from the legacy release file.
pub open spec fn distribution_name_spec(
    etc_os: Option<Seq<char>>,
    usr_os: Option<Seq<char>>,
    lsb: Option<Seq<char>>,
) -> Option<Seq<char>> {
    let a = (match etc_os {
        Some(c) => release_value_spec(lines_of(c), "NAME="@),
        None => None,
    });
    let b = (match usr_os {
        Some(c) => release_value_spec(lines_of(c), "NAME="@),
        None => None,
    });
    let d = (match lsb {
        Some(c) => release_value_spec(lines_of(c), "DISTRIB_ID="@),
        None => None,
    });
    if a is Some {
        a
    } else if b is Some {
        b
    } else {
        d
    }
}

/// Chooses the distribution name from the three observed release files,
/// trying each source in order.
pub fn get_distribution_name(
    etc_os: &Option<String>,
    usr_os: &Option<String>,
    lsb: &Option<String>,
) -> (r: Option<String>)
    ensures
        (match r {
            Some(v) => distribution_name_spec(
                crate::orchestrator::opt_view(*etc_os),
                crate::orchestrator::opt_view(*usr_os),
                crate::orchestrator::opt_view(*lsb),
            ) == Some(v@),
            None => distribution_name_spec(
                crate::orchestrator::opt_view(*etc_os),
                crate::orchestrator::opt_view(*usr_os),
                crate::orchestrator::opt_view(*lsb),
            ) is None,
        }),
{
    proof {
        reveal_strlit("NAME=");
        reveal_strlit("DISTRIB_ID=");
    }
    if let Some(c) = etc_os {
        let v = parse_os_release_name(c.as_str());
        if v.is_some() {
            return v;
        }
    }
    if let Some(c) = usr_os {
        let v = parse_os_release_name(c.as_str());
        if v.is_some() {
            return v;
        }
    }
    match lsb {
        Some(c) => parse_release_value(c.as_str(), "DISTRIB_ID="),
        None => None,
    }
}

} // verus!
