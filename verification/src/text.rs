//! Character-sequence primitives shared by the whole crate: ASCII whitespace,
//! trimming, line structure, and substring search, each with a spec-level
//! model and a verified executable counterpart.
use vstd::prelude::*;

verus! {

/// ASCII whitespace, the character class used for trimming marker lines.
pub open spec fn is_space(c: char) -> bool {
    c == ' ' || c == '\t' || c == '\n' || c == '\r' || c == '\x0b' || c == '\x0c'
}

/// `s` with leading ASCII whitespace removed.
pub open spec fn trim_start_spec(s: Seq<char>) -> Seq<char>
    decreases s.len(),
{
    if s.len() > 0 && is_space(s[0]) {
        trim_start_spec(s.drop_first())
    } else {
        s
    }
}

/// `s` with trailing ASCII whitespace removed.
pub open spec fn trim_end_spec(s: Seq<char>) -> Seq<char>
    decreases s.len(),
{
    if s.len() > 0 && is_space(s.last()) {
        trim_end_spec(s.drop_last())
    } else {
        s
    }
}

/// `s` with both leading and trailing ASCII whitespace removed.
pub open spec fn trim_spec(s: Seq<char>) -> Seq<char> {
    trim_end_spec(trim_start_spec(s))
}

/// Index of the first newline in `s`, or `s.len()` if there is none.
pub open spec fn first_nl(s: Seq<char>) -> int
    decreases s.len(),
{
    if s.len() == 0 {
        0
    } else if s[0] == '\n' {
        0
    } else {
        1 + first_nl(s.drop_first())
    }
}

/// `first_nl` returns a position in bounds, with no newline before it and a
/// newline at it unless it is the end.
pub proof fn lemma_first_nl_props(s: Seq<char>)
    ensures
        0 <= first_nl(s) <= s.len(),
        forall|k: int| 0 <= k < first_nl(s) ==> s[k] != '\n',
        first_nl(s) < s.len() ==> s[first_nl(s)] == '\n',
    decreases s.len(),
{
    if s.len() > 0 && s[0] != '\n' {
        lemma_first_nl_props(s.drop_first());
        assert forall|k: int| 0 <= k < first_nl(s) implies s[k] != '\n' by {
            if k > 0 {
                assert(s.drop_first()[k - 1] != '\n');
            }
        }
    }
}

/// A position with no newline before it, and a newline at it unless it is the
/// end, is exactly `first_nl`.
pub proof fn lemma_first_nl_char(s: Seq<char>, j: int)
    requires
        0 <= j <= s.len(),
        forall|k: int| 0 <= k < j ==> s[k] != '\n',
        j < s.len() ==> s[j] == '\n',
    ensures
        first_nl(s) == j,
    decreases s.len(),
{
    if s.len() > 0 && s[0] != '\n' {
        assert forall|k: int| 0 <= k < j - 1 implies s.drop_first()[k] != '\n' by {
            assert(s[k + 1] != '\n');
        }
        lemma_first_nl_char(s.drop_first(), j - 1);
    }
}

/// The lines of `s`, split on newlines; a trailing newline yields no final
/// empty line, matching line-by-line readers.
pub open spec fn lines_of(s: Seq<char>) -> Seq<Seq<char>>
    decreases s.len(),
    via lines_of_decreases
{
    if s.len() == 0 {
        Seq::empty()
    } else {
        let j = first_nl(s);
        if j == s.len() {
            seq![s]
        } else {
            seq![s.subrange(0, j)] + lines_of(s.subrange(j + 1, s.len() as int))
        }
    }
}

#[via_fn]
proof fn lines_of_decreases(s: Seq<char>) {
    lemma_first_nl_props(s);
}

/// The inverse of line splitting: each line followed by one newline.
pub open spec fn unlines(ls: Seq<Seq<char>>) -> Seq<char>
    decreases ls.len(),
{
    if ls.len() == 0 {
        Seq::empty()
    } else {
        ls[0] + seq!['\n'] + unlines(ls.drop_first())
    }
}

/// `l` contains no newline.
pub open spec fn no_nl(l: Seq<char>) -> bool {
    forall|k: int| 0 <= k < l.len() ==> l[k] != '\n'
}

/// `needle` occurs as a contiguous run inside `hay`.
pub open spec fn contains_seq(hay: Seq<char>, needle: Seq<char>) -> bool {
    exists|k: int|
        0 <= k && k + needle.len() <= hay.len() && #[trigger] hay.subrange(k, k + needle.len())
            == needle
}

/// `p` is a prefix of `s`.
pub open spec fn is_prefix_of(p: Seq<char>, s: Seq<char>) -> bool {
    p.len() <= s.len() && s.subrange(0, p.len() as int) == p
}

/// Every line of `ls` satisfies `no_nl`.
pub open spec fn lines_no_nl(ls: Seq<Seq<char>>) -> bool {
    forall|k: int| 0 <= k < ls.len() ==> no_nl(#[trigger] ls[k])
}

/// Splitting produces newline-free lines.
pub proof fn lemma_lines_no_nl(s: Seq<char>)
    ensures
        lines_no_nl(lines_of(s)),
    decreases s.len(),
{
    if s.len() > 0 {
        let j = first_nl(s);
        lemma_first_nl_props(s);
        if j == s.len() {
            assert(no_nl(s));
        } else {
            assert(no_nl(s.subrange(0, j)));
            lemma_lines_no_nl(s.subrange(j + 1, s.len() as int));
            let ls = lines_of(s);
            assert forall|k: int| 0 <= k < ls.len() implies no_nl(#[trigger] ls[k]) by {
                if k > 0 {
                    assert(ls[k] == lines_of(s.subrange(j + 1, s.len() as int))[k - 1]);
                }
            }
        }
    }
}

/// Splitting after a newline-terminated prefix splits each part on its own.
pub proof fn lemma_lines_concat(a: Seq<char>, b: Seq<char>)
    requires
        a.len() == 0 || a.last() == '\n',
    ensures
        lines_of(a + b) == lines_of(a) + lines_of(b),
    decreases a.len(),
{
    if a.len() == 0 {
        assert(a + b =~= b);
        assert(lines_of(a + b) =~= lines_of(a) + lines_of(b));
    } else {
        let j = first_nl(a);
        lemma_first_nl_props(a);
        if j == a.len() {
            // `a` ends with a newline, so the last character is one.
            assert(a[a.len() - 1] == '\n');
            assert(false);
        }
        let s = a + b;
        lemma_first_nl_props(s);
        assert forall|k: int| 0 <= k < j implies s[k] != '\n' by {
            assert(s[k] == a[k]);
        }
        assert(s[j] == a[j]);
        lemma_first_nl_char(s, j);
        let a2 = a.subrange(j + 1, a.len() as int);
        assert(s.subrange(j + 1, s.len() as int) =~= a2 + b);
        if a2.len() > 0 {
            assert(a2.last() == a.last());
        }
        lemma_lines_concat(a2, b);
        assert(s.subrange(0, j) =~= a.subrange(0, j));
        assert(lines_of(a + b) =~= lines_of(a) + lines_of(b));
    }
}

/// Splitting inverts joining when every line is newline-free.
pub proof fn lemma_lines_unlines(ls: Seq<Seq<char>>)
    requires
        lines_no_nl(ls),
    ensures
        lines_of(unlines(ls)) == ls,
    decreases ls.len(),
{
    if ls.len() > 0 {
        let l = ls[0];
        let s = unlines(ls);
        assert(s =~= l + seq!['\n'] + unlines(ls.drop_first()));
        assert forall|k: int| 0 <= k < l.len() implies s[k] != '\n' by {
            assert(s[k] == l[k]);
        }
        assert(s[l.len() as int] == '\n');
        lemma_first_nl_char(s, l.len() as int);
        assert(s.subrange(0, l.len() as int) =~= l);
        assert(s.subrange(l.len() as int + 1, s.len() as int) =~= unlines(ls.drop_first()));
        lemma_lines_unlines(ls.drop_first());
        assert(lines_of(s) =~= ls);
    }
}

/// Dropping a run of leading whitespace is exactly `trim_start_spec` when the
/// run is maximal.
pub proof fn lemma_trim_start_char(s: Seq<char>, m: int)
    requires
        0 <= m <= s.len(),
        forall|k: int| 0 <= k < m ==> is_space(s[k]),
        m < s.len() ==> !is_space(s[m]),
    ensures
        trim_start_spec(s) == s.subrange(m, s.len() as int),
    decreases m,
{
    if m == 0 {
        assert(s.subrange(0, s.len() as int) =~= s);
    } else {
        let d = s.drop_first();
        assert forall|k: int| 0 <= k < m - 1 implies is_space(d[k]) by {
            assert(d[k] == s[k + 1]);
        }
        lemma_trim_start_char(d, m - 1);
        assert(d.subrange(m - 1, d.len() as int) =~= s.subrange(m, s.len() as int));
    }
}

/// Dropping a run of trailing whitespace is exactly `trim_end_spec` when the
/// run is maximal.
pub proof fn lemma_trim_end_char(s: Seq<char>, m: int)
    requires
        0 <= m <= s.len(),
        forall|k: int| m <= k < s.len() ==> is_space(s[k]),
        m > 0 ==> !is_space(s[m - 1]),
    ensures
        trim_end_spec(s) == s.subrange(0, m),
    decreases s.len() - m,
{
    if m == s.len() {
        assert(s.subrange(0, m) =~= s);
        if s.len() > 0 && is_space(s.last()) {
            let d = s.drop_last();
            lemma_trim_end_char(d, m - 1);
        }
    } else {
        let d = s.drop_last();
        lemma_trim_end_char(d, m);
        assert(d.subrange(0, m) =~= s.subrange(0, m));
    }
}

/// Relies on String::push: it appends exactly the one character.
#[verifier::external_body]
pub(crate) fn push_char(s: &mut String, c: char)
    ensures
        final(s)@ == old(s)@.push(c),
{
    s.push(c)
}

/// Whether `c` is ASCII whitespace.
pub fn is_space_char(c: char) -> (r: bool)
    ensures
        r == is_space(c),
{
    c == ' ' || c == '\t' || c == '\n' || c == '\r' || c == '\x0b' || c == '\x0c'
}

/// Position of the next newline at or after `start`, or the end of `s`.
pub fn find_line_end(s: &str, start: usize, n: usize) -> (j: usize)
    requires
        n == s@.len(),
        start <= n,
    ensures
        start <= j <= n,
        forall|k: int| start <= k < j ==> s@[k] != '\n',
        j < n ==> s@[j as int] == '\n',
{
    let mut j = start;
    while j < n
        invariant
            start <= j <= n,
            n == s@.len(),
            forall|k: int| start <= k < j ==> s@[k] != '\n',
        decreases n - j,
    {
        if s.get_char(j) == '\n' {
            return j;
        }
        j = j + 1;
    }
    j
}

/// Whether the characters of `s` between `from` and `to` equal `t`.
pub fn range_eq(s: &str, from: usize, to: usize, t: &str) -> (r: bool)
    requires
        from <= to <= s@.len(),
    ensures
        r == (s@.subrange(from as int, to as int) == t@),
{
    let tn = t.unicode_len();
    if to - from != tn {
        proof {
            assert(s@.subrange(from as int, to as int).len() != t@.len());
        }
        return false;
    }
    let mut i: usize = 0;
    while i < tn
        invariant
            0 <= i <= tn,
            from + tn <= to <= s@.len(),
            to - from == tn,
            tn == t@.len(),
            forall|k: int| 0 <= k < i ==> s@[from + k] == t@[k],
        decreases tn - i,
    {
        if s.get_char(from + i) != t.get_char(i) {
            proof {
                assert(s@.subrange(from as int, to as int)[i as int] != t@[i as int]);
            }
            return false;
        }
        i = i + 1;
    }
    proof {
        assert(s@.subrange(from as int, to as int) =~= t@);
    }
    true
}

/// Bounds of the range of `s` between `from` and `to` once leading and
/// trailing ASCII whitespace is dropped.
pub fn trimmed_range(s: &str, from: usize, to: usize) -> (r: (usize, usize))
    requires
        from <= to <= s@.len(),
    ensures
        from <= r.0 <= r.1 <= to,
        s@.subrange(r.0 as int, r.1 as int) == trim_spec(
            s@.subrange(from as int, to as int),
        ),
{
    let ghost l = s@.subrange(from as int, to as int);
    let mut a = from;
    while a < to && is_space_char(s.get_char(a))
        invariant
            from <= a <= to <= s@.len(),
            forall|k: int| from <= k < a ==> is_space(s@[k]),
        decreases to - a,
    {
        a = a + 1;
    }
    proof {
        assert forall|k: int| 0 <= k < a - from implies is_space(l[k]) by {
            assert(l[k] == s@[from + k]);
        }
        if a < to {
            assert(!is_space(l[a - from]));
        }
        lemma_trim_start_char(l, a - from);
    }
    let ghost l1 = trim_start_spec(l);
    // l1 == s@.subrange(a, to)
    let mut b = to;
    while b > a && is_space_char(s.get_char(b - 1))
        invariant
            a <= b <= to <= s@.len(),
            forall|k: int| b <= k < to ==> is_space(s@[k]),
        decreases b,
    {
        b = b - 1;
    }
    proof {
        assert(l1 =~= s@.subrange(a as int, to as int));
        assert forall|k: int| b - a <= k < l1.len() implies is_space(l1[k]) by {
            assert(l1[k] == s@[a + k]);
        }
        if b > a {
            assert(!is_space(l1[b - a - 1]));
        }
        lemma_trim_end_char(l1, b - a);
        assert(l1.subrange(0, b - a) =~= s@.subrange(a as int, b as int));
    }
    (a, b)
}

/// Index of the last occurrence of `c` in `s`, or `-1` if there is none.
pub open spec fn rfind(s: Seq<char>, c: char) -> int
    decreases s.len(),
{
    if s.len() == 0 {
        -1
    } else if s.last() == c {
        s.len() - 1
    } else {
        rfind(s.drop_last(), c)
    }
}

/// A position holding `c` with no later occurrence is exactly `rfind`.
pub proof fn lemma_rfind_char(s: Seq<char>, c: char, j: int)
    requires
        0 <= j < s.len(),
        s[j] == c,
        forall|k: int| j < k < s.len() ==> s[k] != c,
    ensures
        rfind(s, c) == j,
    decreases s.len(),
{
    if j < s.len() - 1 {
        let d = s.drop_last();
        assert(s.last() != c);
        assert forall|k: int| j < k < d.len() implies d[k] != c by {
            assert(d[k] == s[k]);
        }
        assert(d[j] == c);
        lemma_rfind_char(d, c, j);
    }
}

/// If `c` occurs nowhere in `s`, `rfind` is `-1`.
pub proof fn lemma_rfind_none(s: Seq<char>, c: char)
    requires
        forall|k: int| 0 <= k < s.len() ==> s[k] != c,
    ensures
        rfind(s, c) == -1,
    decreases s.len(),
{
    if s.len() > 0 {
        let d = s.drop_last();
        assert forall|k: int| 0 <= k < d.len() implies d[k] != c by {
            assert(d[k] == s[k]);
        }
        lemma_rfind_none(d, c);
    }
}

/// Position just past the last occurrence of `c` in `s`; `0` if `c` does not
/// occur.
pub fn rfind_char(s: &str, c: char) -> (r: Option<usize>)
    ensures
        (match r {
            Some(j) => rfind(s@, c) == j && j < s@.len(),
            None => rfind(s@, c) == -1,
        }),
{
    let n = s.unicode_len();
    let mut i = n;
    while i > 0
        invariant
            0 <= i <= n,
            n == s@.len(),
            forall|k: int| i <= k < n ==> s@[k] != c,
        decreases i,
    {
        if s.get_char(i - 1) == c {
            proof {
                lemma_rfind_char(s@, c, i - 1);
            }
            return Some(i - 1);
        }
        i = i - 1;
    }
    proof {
        lemma_rfind_none(s@, c);
    }
    None
}

/// `s` with trailing ASCII whitespace removed.
pub fn trim_end_str(s: &str) -> (r: String)
    ensures
        r@ == trim_end_spec(s@),
{
    let n = s.unicode_len();
    let mut b = n;
    while b > 0 && is_space_char(s.get_char(b - 1))
        invariant
            0 <= b <= n,
            n == s@.len(),
            forall|k: int| b <= k < n ==> is_space(s@[k]),
        decreases b,
    {
        b = b - 1;
    }
    proof {
        if b > 0 {
            assert(!is_space(s@[b - 1]));
        }
        lemma_trim_end_char(s@, b as int);
    }
    let piece = s.substring_char(0, b);
    let mut out = String::new();
    out.append(piece);
    proof {
        assert(out@ =~= s@.subrange(0, b as int));
    }
    out
}

/// Whether `needle` occurs as a contiguous run inside `hay`.
pub fn contains_str(hay: &str, needle: &str) -> (r: bool)
    ensures
        r == contains_seq(hay@, needle@),
{
    let hn = hay.unicode_len();
    let nn = needle.unicode_len();
    if nn > hn {
        return false;
    }
    if nn == 0 {
        proof {
            assert(hay@.subrange(0, 0 + needle@.len() as int) =~= needle@);
        }
        return true;
    }
    let bound = hn - nn;
    let mut k: usize = 0;
    while k <= bound
        invariant
            0 <= k <= bound + 1,
            1 <= nn <= hn,
            bound == hn - nn,
            hn == hay@.len(),
            nn == needle@.len(),
            forall|m: int|
                0 <= m < k ==> #[trigger] hay@.subrange(m, m + needle@.len()) != needle@,
        decreases bound + 1 - k,
    {
        if range_eq(hay, k, k + nn, needle) {
            return true;
        }
        k = k + 1;
    }
    false
}

/// Whether two strings hold the same characters.
pub fn str_eq(a: &str, b: &str) -> (r: bool)
    ensures
        r == (a@ == b@),
{
    let n = a.unicode_len();
    let req = range_eq(a, 0, n, b);
    proof {
        assert(a@.subrange(0, n as int) =~= a@);
    }
    req
}

/// `s` with leading and trailing ASCII whitespace removed.
pub fn trim_str(s: &str) -> (r: String)
    ensures
        r@ == trim_spec(s@),
{
    let n = s.unicode_len();
    let (a, b) = trimmed_range(s, 0, n);
    let mut out = String::new();
    out.append(s.substring_char(a, b));
    proof {
        assert(s@.subrange(0, n as int) =~= s@);
        assert(out@ =~= s@.subrange(a as int, b as int));
    }
    out
}

/// The views of a vector of strings.
pub open spec fn views_of(v: Seq<String>) -> Seq<Seq<char>> {
    v.map_values(|x: String| x@)
}

/// The lines of `s` as owned strings, exactly `lines_of` the view.
pub fn split_lines(s: &str) -> (r: Vec<String>)
    ensures
        views_of(r@) == lines_of(s@),
{
    let n = s.unicode_len();
    let mut r: Vec<String> = Vec::new();
    let mut i: usize = 0;
    proof {
        assert(s@.subrange(0, n as int) =~= s@);
        assert(views_of(r@) + lines_of(s@) =~= lines_of(s@));
    }
    while i < n
        invariant
            0 <= i <= n,
            n == s@.len(),
            views_of(r@) + lines_of(s@.subrange(i as int, n as int)) == lines_of(s@),
        decreases n - i,
    {
        let j = find_line_end(s, i, n);
        let mut line = String::new();
        line.append(s.substring_char(i, j));
        let ghost old_r = r@;
        r.push(line);
        let ghost rest_i: int = if j < n {
            j + 1
        } else {
            j as int
        };
        proof {
            lemma_lines_step_text(s@, i as int, j as int);
            assert(views_of(r@) =~= views_of(old_r) + seq![s@.subrange(i as int, j as int)]);
            assert(views_of(r@) + lines_of(s@.subrange(rest_i, n as int)) =~= lines_of(s@));
        }
        i = if j < n {
            j + 1
        } else {
            j
        };
    }
    proof {
        assert(lines_of(s@.subrange(n as int, n as int)) =~= Seq::<Seq<char>>::empty());
        assert(views_of(r@) =~= views_of(r@) + lines_of(s@.subrange(n as int, n as int)));
    }
    r
}

/// One step of line splitting, phrased over a subrange of the whole text.
pub proof fn lemma_lines_step_text(s: Seq<char>, i: int, j: int)
    requires
        0 <= i < s.len(),
        i <= j <= s.len(),
        forall|k: int| i <= k < j ==> s[k] != '\n',
        j < s.len() ==> s[j] == '\n',
    ensures
        lines_of(s.subrange(i, s.len() as int)) == seq![s.subrange(i, j)] + lines_of(
            s.subrange(if j < s.len() { j + 1 } else { j }, s.len() as int),
        ),
{
    let t = s.subrange(i, s.len() as int);
    assert forall|k: int| 0 <= k < j - i implies t[k] != '\n' by {
        assert(t[k] == s[i + k]);
    }
    if j < s.len() {
        assert(t[j - i] == s[j]);
    }
    lemma_first_nl_char(t, j - i);
    if j == s.len() {
        assert(t =~= s.subrange(i, j));
        assert(s.subrange(j, s.len() as int).len() == 0);
        assert(lines_of(t) =~= seq![s.subrange(i, j)] + lines_of(s.subrange(j, s.len() as int)));
    } else {
        assert(t.subrange(0, j - i) =~= s.subrange(i, j));
        assert(t.subrange(j - i + 1, t.len() as int) =~= s.subrange(j + 1, s.len() as int));
    }
}

/// Whether `p` is a prefix of `s`.
pub fn starts_with_str(s: &str, p: &str) -> (r: bool)
    ensures
        r == is_prefix_of(p@, s@),
{
    let n = s.unicode_len();
    let pn = p.unicode_len();
    if pn > n {
        return false;
    }
    range_eq(s, 0, pn, p)
}

} // verus!
