//! The fenced-block codec: inserting a marked configuration block right
//! after a policy file's header line, removing every such block, and
//! testing for the block's presence.  All operations are pure text
//! transforms over the character sequence of the file.
use vstd::prelude::*;

use crate::text::{
    contains_seq, contains_str, find_line_end, first_nl, lemma_first_nl_char,
    lemma_first_nl_props, lemma_lines_concat, lines_of, range_eq, trim_spec, trimmed_range,
    unlines,
};

verus! {

/// The marker line that opens a fenced block.
pub open spec fn begin_mark_spec() -> Seq<char> {
    "# BEGIN xfprintd-gui"@
}

/// The marker line that closes a fenced block.
pub open spec fn end_mark_spec() -> Seq<char> {
    "# END xfprintd-gui"@
}

/// The standard header line expected at the top of a policy file.
pub open spec fn pam_header_spec() -> Seq<char> {
    "#%PAM-1.0"@
}

/// The literal that opens a fenced configuration block.
pub fn begin_mark() -> (r: &'static str)
    ensures
        r@ == begin_mark_spec(),
{
    "# BEGIN xfprintd-gui"
}

/// The literal that closes a fenced configuration block.
pub fn end_mark() -> (r: &'static str)
    ensures
        r@ == end_mark_spec(),
{
    "# END xfprintd-gui"
}

/// The standard header line for a freshly created policy file.
pub fn pam_header() -> (r: &'static str)
    ensures
        r@ == pam_header_spec(),
{
    "#%PAM-1.0"
}

/// A line that, once trimmed, is neither marker: it survives `strip` intact.
pub open spec fn line_clean(l: Seq<char>) -> bool {
    trim_spec(l) != begin_mark_spec() && trim_spec(l) != end_mark_spec()
}

/// Every line of the list is clean.
pub open spec fn all_clean(ls: Seq<Seq<char>>) -> bool {
    forall|k: int| 0 <= k < ls.len() ==> line_clean(#[trigger] ls[k])
}

/// Every line of the text is clean: the text holds no marker line.
pub open spec fn clean_text(s: Seq<char>) -> bool {
    all_clean(lines_of(s))
}

/// Line-by-line block removal: marker lines are dropped, lines between a
/// begin marker and the next end marker are dropped, everything else is kept.
pub open spec fn strip_lines(ls: Seq<Seq<char>>, inside: bool) -> Seq<Seq<char>>
    decreases ls.len(),
{
    if ls.len() == 0 {
        Seq::empty()
    } else {
        let l = ls[0];
        let rest = ls.drop_first();
        if trim_spec(l) == begin_mark_spec() {
            strip_lines(rest, true)
        } else if trim_spec(l) == end_mark_spec() {
            strip_lines(rest, false)
        } else if inside {
            strip_lines(rest, true)
        } else {
            seq![l] + strip_lines(rest, false)
        }
    }
}

/// The text with every fenced block removed, each kept line terminated by a
/// newline.
pub open spec fn strip_spec(s: Seq<char>) -> Seq<char> {
    unlines(strip_lines(lines_of(s), false))
}

/// The fenced block for patch text `p`: begin marker, `p`, end marker, each
/// line newline-terminated.
pub open spec fn fenced_block_spec(p: Seq<char>) -> Seq<char> {
    begin_mark_spec() + seq!['\n'] + p + seq!['\n'] + end_mark_spec() + seq!['\n']
}

/// `s` guaranteed to end with a newline.
pub open spec fn ensure_nl(s: Seq<char>) -> Seq<char> {
    if s.len() > 0 && s.last() == '\n' {
        s
    } else {
        s.push('\n')
    }
}

/// The text with the fenced block for `p` inserted right after the first
/// line; empty text receives the standard header line first.
pub open spec fn insert_spec(c: Seq<char>, p: Seq<char>) -> Seq<char> {
    if c.len() == 0 {
        pam_header_spec() + seq!['\n'] + fenced_block_spec(p)
    } else {
        let cn = ensure_nl(c);
        let j = first_nl(cn);
        cn.subrange(0, j) + seq!['\n'] + fenced_block_spec(p) + cn.subrange(
            j + 1,
            cn.len() as int,
        )
    }
}

/// Removes every fenced block from `content`; kept lines come out verbatim,
/// each terminated with a newline.
pub fn remove_fenced_blocks(content: &str) -> (r: String)
    ensures
        r@ == strip_spec(content@),
{
    let n = content.unicode_len();
    let mut out = String::new();
    let mut i: usize = 0;
    let mut inside = false;
    proof {
        assert(content@.subrange(0, content@.len() as int) =~= content@);
    }
    while i < n
        invariant
            0 <= i <= n,
            n == content@.len(),
            out@ + unlines(
                strip_lines(lines_of(content@.subrange(i as int, n as int)), inside),
            ) == strip_spec(content@),
        decreases n - i,
    {
        let j = find_line_end(content, i, n);
        let (a, b) = trimmed_range(content, i, j);
        let ghost line = content@.subrange(i as int, j as int);
        let ghost rest_i: int = if j < n {
            j + 1
        } else {
            j as int
        };
        proof {
            crate::text::lemma_lines_step_text(content@, i as int, j as int);
            let ls = seq![line] + lines_of(content@.subrange(rest_i, n as int));
            assert(ls[0] == line);
            assert(ls.drop_first() =~= lines_of(content@.subrange(rest_i, n as int)));
        }
        let is_begin = range_eq(content, a, b, "# BEGIN xfprintd-gui");
        let is_end = range_eq(content, a, b, "# END xfprintd-gui");
        if is_begin {
            inside = true;
        } else if is_end {
            inside = false;
        } else if !inside {
            out.append(content.substring_char(i, j));
            out.append("\n");
            proof {
                reveal_strlit("\n");
                assert("\n"@ =~= seq!['\n']);
                let tail = strip_lines(
                    lines_of(content@.subrange(rest_i, n as int)),
                    false,
                );
                assert((seq![line] + tail)[0] == line);
                assert((seq![line] + tail).drop_first() =~= tail);
                assert(unlines(seq![line] + tail) =~= line + seq!['\n'] + unlines(tail));
            }
        }
        i = if j < n {
            j + 1
        } else {
            j
        };
    }
    proof {
        assert(content@.subrange(n as int, n as int).len() == 0);
        assert(out@ + Seq::<char>::empty() =~= out@);
    }
    out
}

/// Builds the fenced block for `content`: begin marker, content, end marker,
/// each on its own newline-terminated line.
pub fn create_fenced_block(content: &str) -> (r: String)
    ensures
        r@ == fenced_block_spec(content@),
{
    let mut out = String::new();
    out.append("# BEGIN xfprintd-gui");
    out.append("\n");
    out.append(content);
    out.append("\n");
    out.append("# END xfprintd-gui");
    out.append("\n");
    proof {
        reveal_strlit("\n");
        assert("\n"@ =~= seq!['\n']);
    }
    out
}

/// Inserts the fenced block for `block` right after the first line of
/// `base_content`; empty content gets the standard header line first.
pub fn insert_block_after_header(base_content: String, block: &str) -> (r: String)
    ensures
        r@ == insert_spec(base_content@, block@),
{
    let s = base_content.as_str();
    let n = s.unicode_len();
    let mut out = String::new();
    if n == 0 {
        out.append("#%PAM-1.0");
        out.append("\n");
        let fenced = create_fenced_block(block);
        out.append(fenced.as_str());
        proof {
            reveal_strlit("\n");
            assert("\n"@ =~= seq!['\n']);
        }
        return out;
    }
    let ends_nl = s.get_char(n - 1) == '\n';
    let ghost cn = ensure_nl(s@);
    let j = find_line_end(s, 0, n);
    proof {
        assert forall|k: int| 0 <= k < j implies cn[k] != '\n' by {
            assert(cn[k] == s@[k]);
        }
        if j < n {
            assert(cn[j as int] == s@[j as int]);
        } else {
            assert(!ends_nl);
            assert(cn[j as int] == '\n');
        }
        lemma_first_nl_char(cn, j as int);
    }
    out.append(s.substring_char(0, j));
    out.append("\n");
    let fenced = create_fenced_block(block);
    out.append(fenced.as_str());
    if j < n {
        out.append(s.substring_char(j + 1, n));
        if !ends_nl {
            out.append("\n");
        }
    }
    proof {
        reveal_strlit("\n");
        assert("\n"@ =~= seq!['\n']);
        assert(cn.subrange(0, j as int) =~= s@.subrange(0, j as int));
        if j < n {
            if ends_nl {
                assert(cn.subrange(j + 1, cn.len() as int) =~= s@.subrange(
                    j + 1,
                    n as int,
                ));
            } else {
                assert(cn.subrange(j + 1, cn.len() as int) =~= s@.subrange(j + 1, n as int)
                    + seq!['\n']);
            }
        } else {
            assert(cn.subrange(j + 1, cn.len() as int).len() == 0);
        }
        assert(out@ =~= insert_spec(base_content@, block@));
    }
    out
}

/// Whether the text contains the begin marker anywhere: the loose presence
/// test used by `check`.
pub fn content_has_marker(content: &str) -> (r: bool)
    ensures
        r == contains_seq(content@, begin_mark_spec()),
{
    contains_str(content, "# BEGIN xfprintd-gui")
}

/// Ground facts about the three literal lines: none holds a newline, the
/// markers are trim-fixed and distinct, and the header and the empty line are
/// clean.
pub proof fn lemma_marker_facts()
    ensures
        crate::text::no_nl(begin_mark_spec()),
        crate::text::no_nl(end_mark_spec()),
        crate::text::no_nl(pam_header_spec()),
        trim_spec(begin_mark_spec()) == begin_mark_spec(),
        trim_spec(end_mark_spec()) == end_mark_spec(),
        begin_mark_spec() != end_mark_spec(),
        begin_mark_spec().len() > 0,
        end_mark_spec().len() > 0,
        pam_header_spec().len() > 0,
        line_clean(pam_header_spec()),
        line_clean(Seq::<char>::empty()),
{
    reveal_strlit("# BEGIN xfprintd-gui");
    reveal_strlit("# END xfprintd-gui");
    reveal_strlit("#%PAM-1.0");
    assert(trim_spec(begin_mark_spec()) == begin_mark_spec());
    assert(trim_spec(end_mark_spec()) == end_mark_spec());
    assert(trim_spec(pam_header_spec()) == pam_header_spec());
    assert(trim_spec(Seq::<char>::empty()) == Seq::<char>::empty());
}

/// A newline-free line followed by a newline splits as that single line.
proof fn lemma_single_line(x: Seq<char>)
    requires
        crate::text::no_nl(x),
    ensures
        lines_of(x + seq!['\n']) == seq![x],
{
    let t = x + seq!['\n'];
    assert forall|k: int| 0 <= k < x.len() implies t[k] != '\n' by {
        assert(t[k] == x[k]);
    }
    assert(t[x.len() as int] == '\n');
    lemma_first_nl_char(t, x.len() as int);
    assert(t.subrange(0, x.len() as int) =~= x);
    assert(t.subrange(x.len() as int + 1, t.len() as int).len() == 0);
    assert(lines_of(t.subrange(x.len() as int + 1, t.len() as int))
        =~= Seq::<Seq<char>>::empty());
    assert(lines_of(t) =~= seq![x]);
}

/// Joining a single line appends just its newline.
proof fn lemma_unlines_singleton(l: Seq<char>)
    ensures
        unlines(seq![l]) == l + seq!['\n'],
{
    assert(seq![l].drop_first() =~= Seq::<Seq<char>>::empty());
    assert(unlines(seq![l].drop_first()) =~= Seq::<char>::empty());
    assert(unlines(seq![l]) =~= l + seq!['\n']);
}

/// Appending a newline to text not already ending in one leaves its line
/// split unchanged.
proof fn lemma_lines_push_nl(p: Seq<char>)
    requires
        p.len() > 0,
        p.last() != '\n',
    ensures
        lines_of(p.push('\n')) == lines_of(p),
    decreases p.len(),
{
    let j = first_nl(p);
    lemma_first_nl_props(p);
    let q = p.push('\n');
    assert forall|k: int| 0 <= k < j implies q[k] != '\n' by {
        assert(q[k] == p[k]);
    }
    if j == p.len() {
        assert(q[j] == '\n');
        lemma_first_nl_char(q, j);
        assert(q.subrange(0, j) =~= p);
        assert(q.subrange(j + 1, q.len() as int).len() == 0);
        assert(lines_of(q) =~= seq![p] + lines_of(q.subrange(j + 1, q.len() as int)));
        assert(lines_of(q) =~= lines_of(p));
    } else {
        assert(q[j] == p[j]);
        lemma_first_nl_char(q, j);
        // `p` does not end in a newline, so the newline at `j` is not last.
        assert(j < p.len() - 1);
        let p2 = p.subrange(j + 1, p.len() as int);
        assert(p2.len() > 0);
        assert(p2.last() == p.last());
        lemma_lines_push_nl(p2);
        assert(q.subrange(j + 1, q.len() as int) =~= p2.push('\n'));
        assert(q.subrange(0, j) =~= p.subrange(0, j));
        assert(lines_of(q) =~= lines_of(p));
    }
}

/// Normalizing the trailing newline leaves the line split unchanged.
proof fn lemma_lines_ensure_nl(c: Seq<char>)
    requires
        c.len() > 0,
    ensures
        lines_of(ensure_nl(c)) == lines_of(c),
{
    if c.last() != '\n' {
        lemma_lines_push_nl(c);
    }
}

/// Joining the lines of newline-terminated (or empty) text restores it.
proof fn lemma_unlines_lines(s: Seq<char>)
    requires
        s.len() == 0 || s.last() == '\n',
    ensures
        unlines(lines_of(s)) == s,
    decreases s.len(),
{
    if s.len() > 0 {
        let j = first_nl(s);
        lemma_first_nl_props(s);
        assert(j < s.len());
        let t0 = s.subrange(0, j);
        let s2 = s.subrange(j + 1, s.len() as int);
        if s2.len() > 0 {
            assert(s2.last() == s.last());
        }
        lemma_unlines_lines(s2);
        let ls = lines_of(s);
        assert(ls =~= seq![t0] + lines_of(s2));
        assert(ls[0] == t0);
        assert(ls.drop_first() =~= lines_of(s2));
        assert(unlines(ls) =~= t0 + seq!['\n'] + s2);
        assert(unlines(ls) =~= s);
    }
}

/// A nonempty line list joins to nonempty text ending in a newline.
proof fn lemma_unlines_last(ls: Seq<Seq<char>>)
    requires
        ls.len() > 0,
    ensures
        unlines(ls).len() > 0,
        unlines(ls).last() == '\n',
    decreases ls.len(),
{
    if ls.len() > 1 {
        lemma_unlines_last(ls.drop_first());
        assert(unlines(ls) =~= ls[0] + seq!['\n'] + unlines(ls.drop_first()));
        assert(unlines(ls).last() == unlines(ls.drop_first()).last());
    } else {
        lemma_unlines_singleton(ls[0]);
        assert(seq![ls[0]] =~= ls);
        assert((ls[0] + seq!['\n']).last() == '\n');
    }
}

/// Stripping clean lines keeps every one of them.
proof fn lemma_strip_clean_id(ls: Seq<Seq<char>>)
    requires
        all_clean(ls),
    ensures
        strip_lines(ls, false) == ls,
    decreases ls.len(),
{
    if ls.len() > 0 {
        assert(line_clean(ls[0]));
        let rest = ls.drop_first();
        assert forall|k: int| 0 <= k < rest.len() implies line_clean(#[trigger] rest[k]) by {
            assert(rest[k] == ls[k + 1]);
        }
        lemma_strip_clean_id(rest);
        assert(strip_lines(ls, false) =~= ls);
    }
}

/// Whatever `strip` keeps is clean, and newline-freedom is preserved.
proof fn lemma_strip_output_clean(ls: Seq<Seq<char>>, inside: bool)
    ensures
        all_clean(strip_lines(ls, inside)),
        crate::text::lines_no_nl(ls) ==> crate::text::lines_no_nl(strip_lines(ls, inside)),
    decreases ls.len(),
{
    if ls.len() > 0 {
        let l = ls[0];
        let rest = ls.drop_first();
        assert forall|k: int| 0 <= k < rest.len() implies rest[k] == ls[k + 1] by {}
        if trim_spec(l) == begin_mark_spec() {
            lemma_strip_output_clean(rest, true);
        } else if trim_spec(l) == end_mark_spec() {
            lemma_strip_output_clean(rest, false);
        } else if inside {
            lemma_strip_output_clean(rest, true);
        } else {
            lemma_strip_output_clean(rest, false);
            let out = seq![l] + strip_lines(rest, false);
            assert forall|k: int| 0 <= k < out.len() implies line_clean(#[trigger] out[k]) by {
                if k > 0 {
                    assert(out[k] == strip_lines(rest, false)[k - 1]);
                }
            }
            if crate::text::lines_no_nl(ls) {
                assert(crate::text::no_nl(l));
                assert forall|k: int| 0 <= k < out.len() implies crate::text::no_nl(
                    #[trigger] out[k],
                ) by {
                    if k > 0 {
                        assert(out[k] == strip_lines(rest, false)[k - 1]);
                    }
                }
            }
        }
    }
}

/// Inside a block, clean lines up to the closing marker are all dropped.
proof fn lemma_strip_region(a: Seq<Seq<char>>, e: Seq<char>, t: Seq<Seq<char>>)
    requires
        all_clean(a),
        trim_spec(e) == end_mark_spec(),
    ensures
        strip_lines(a + seq![e] + t, true) == strip_lines(t, false),
    decreases a.len(),
{
    lemma_marker_facts();
    let ls = a + seq![e] + t;
    if a.len() == 0 {
        assert(ls[0] == e);
        assert(ls.drop_first() =~= t);
    } else {
        assert(ls[0] == a[0]);
        assert(line_clean(a[0]));
        let arest = a.drop_first();
        assert forall|k: int| 0 <= k < arest.len() implies line_clean(#[trigger] arest[k]) by {
            assert(arest[k] == a[k + 1]);
        }
        assert(ls.drop_first() =~= arest + seq![e] + t);
        lemma_strip_region(arest, e, t);
    }
}

/// Clean lines pass through `strip` ahead of whatever follows them.
proof fn lemma_strip_concat_clean(a: Seq<Seq<char>>, b: Seq<Seq<char>>)
    requires
        all_clean(a),
    ensures
        strip_lines(a + b, false) == a + strip_lines(b, false),
    decreases a.len(),
{
    if a.len() == 0 {
        assert(a + b =~= b);
        assert(strip_lines(a + b, false) =~= a + strip_lines(b, false));
    } else {
        assert((a + b)[0] == a[0]);
        assert(line_clean(a[0]));
        let arest = a.drop_first();
        assert forall|k: int| 0 <= k < arest.len() implies line_clean(#[trigger] arest[k]) by {
            assert(arest[k] == a[k + 1]);
        }
        assert((a + b).drop_first() =~= arest + b);
        lemma_strip_concat_clean(arest, b);
        assert(strip_lines(a + b, false) =~= a + strip_lines(b, false));
    }
}

/// The fenced block splits into the begin marker, the patch's lines, and the
/// end marker; clean patch text yields clean inner lines.
proof fn lemma_block_lines(p: Seq<char>)
    ensures
        lines_of(fenced_block_spec(p)) == seq![begin_mark_spec()] + lines_of(p + seq!['\n'])
            + seq![end_mark_spec()],
        clean_text(p) ==> all_clean(lines_of(p + seq!['\n'])),
{
    lemma_marker_facts();
    let nl = seq!['\n'];
    let bpart = begin_mark_spec() + nl;
    let ppart = p + nl;
    let epart = end_mark_spec() + nl;
    assert(fenced_block_spec(p) =~= bpart + (ppart + epart));
    lemma_lines_concat(bpart, ppart + epart);
    lemma_lines_concat(ppart, epart);
    lemma_single_line(begin_mark_spec());
    lemma_single_line(end_mark_spec());
    assert(lines_of(fenced_block_spec(p)) =~= seq![begin_mark_spec()] + lines_of(ppart)
        + seq![end_mark_spec()]);
    if clean_text(p) {
        if p.len() == 0 {
            assert(ppart =~= Seq::<char>::empty() + nl);
            lemma_single_line(Seq::<char>::empty());
            assert(lines_of(ppart) =~= seq![Seq::<char>::empty()]);
            assert(all_clean(lines_of(ppart)));
        } else if p.last() == '\n' {
            lemma_lines_concat(p, nl);
            assert(lines_of(nl) =~= seq![Seq::<char>::empty()]) by {
                assert(nl =~= Seq::<char>::empty() + nl);
                lemma_single_line(Seq::<char>::empty());
            }
            let pl = lines_of(ppart);
            assert(pl =~= lines_of(p) + seq![Seq::<char>::empty()]);
            assert forall|k: int| 0 <= k < pl.len() implies line_clean(#[trigger] pl[k]) by {
                if k < lines_of(p).len() {
                    assert(pl[k] == lines_of(p)[k]);
                } else {
                    assert(pl[k] == Seq::<char>::empty());
                }
            }
        } else {
            assert(ppart =~= p.push('\n'));
            lemma_lines_push_nl(p);
        }
    }
}

/// The round-trip law: inserting a block into clean text and stripping again
/// restores the text, up to trailing-newline normalization; empty text comes
/// back as the bare header line.
pub proof fn lemma_round_trip(c: Seq<char>, p: Seq<char>)
    requires
        clean_text(c),
        clean_text(p),
    ensures
        strip_spec(insert_spec(c, p)) == if c.len() == 0 {
            pam_header_spec() + seq!['\n']
        } else {
            ensure_nl(c)
        },
{
    lemma_marker_facts();
    lemma_block_lines(p);
    let nl = seq!['\n'];
    let pl = lines_of(p + nl);
    let block = fenced_block_spec(p);
    if c.len() == 0 {
        let ins = insert_spec(c, p);
        let hpart = pam_header_spec() + nl;
        assert(ins =~= hpart + block);
        lemma_lines_concat(hpart, block);
        lemma_single_line(pam_header_spec());
        let ls = lines_of(ins);
        assert(ls =~= seq![pam_header_spec()] + (seq![begin_mark_spec()] + pl
            + seq![end_mark_spec()]));
        // strip: the header passes, the block is consumed.
        lemma_strip_concat_clean(seq![pam_header_spec()], seq![begin_mark_spec()] + pl
            + seq![end_mark_spec()]);
        let bl = seq![begin_mark_spec()] + pl + seq![end_mark_spec()];
        assert(bl[0] == begin_mark_spec());
        assert(bl.drop_first() =~= pl + seq![end_mark_spec()] + Seq::<Seq<char>>::empty());
        lemma_strip_region(pl, end_mark_spec(), Seq::empty());
        assert(strip_lines(bl, false) =~= Seq::<Seq<char>>::empty());
        assert(strip_lines(ls, false) =~= seq![pam_header_spec()]);
        lemma_unlines_singleton(pam_header_spec());
    } else {
        let cn = ensure_nl(c);
        let j = first_nl(cn);
        lemma_first_nl_props(cn);
        assert(cn.last() == '\n');
        assert(j < cn.len()) by {
            if j == cn.len() {
                assert(cn[cn.len() - 1] != '\n');
            }
        }
        let l0 = cn.subrange(0, j);
        let tail = cn.subrange(j + 1, cn.len() as int);
        let ins = insert_spec(c, p);
        let apart = l0 + nl;
        assert(ins =~= apart + (block + tail));
        lemma_lines_concat(apart, block + tail);
        assert(crate::text::no_nl(l0));
        lemma_single_line(l0);
        // block + tail splits as the block's lines then the tail's lines.
        let bpart = begin_mark_spec() + nl;
        let ppart = p + nl;
        let epart = end_mark_spec() + nl;
        assert(block + tail =~= bpart + (ppart + (epart + tail)));
        lemma_lines_concat(bpart, ppart + (epart + tail));
        lemma_lines_concat(ppart, epart + tail);
        lemma_lines_concat(epart, tail);
        lemma_single_line(begin_mark_spec());
        lemma_single_line(end_mark_spec());
        let tl = lines_of(tail);
        let ls = lines_of(ins);
        assert(ls =~= seq![l0] + (seq![begin_mark_spec()] + (pl + seq![end_mark_spec()] + tl)));
        // The lines of `cn` are those of `c`: the first is `l0`, the rest `tl`.
        lemma_lines_ensure_nl(c);
        assert(lines_of(cn) =~= seq![l0] + tl);
        assert(line_clean(l0)) by {
            assert(lines_of(c)[0] == l0);
        }
        assert(all_clean(tl)) by {
            assert forall|k: int| 0 <= k < tl.len() implies line_clean(#[trigger] tl[k]) by {
                assert(tl[k] == lines_of(c)[k + 1]);
            }
        }
        lemma_strip_concat_clean(seq![l0], seq![begin_mark_spec()] + (pl
            + seq![end_mark_spec()] + tl));
        let bl = seq![begin_mark_spec()] + (pl + seq![end_mark_spec()] + tl);
        assert(bl[0] == begin_mark_spec());
        assert(bl.drop_first() =~= pl + seq![end_mark_spec()] + tl);
        lemma_strip_region(pl, end_mark_spec(), tl);
        lemma_strip_clean_id(tl);
        assert(strip_lines(ls, false) =~= seq![l0] + tl);
        // Joining `[l0] + tl` gives back `cn`.
        assert(tail.len() == 0 || tail.last() == '\n') by {
            if tail.len() > 0 {
                assert(tail.last() == cn.last());
            }
        }
        lemma_unlines_lines(tail);
        assert((seq![l0] + tl)[0] == l0);
        assert((seq![l0] + tl).drop_first() =~= tl);
        assert(unlines(seq![l0] + tl) =~= l0 + nl + tail);
        assert(strip_spec(ins) =~= cn);
    }
}

/// Stripping text free of marker lines only normalizes its trailing
/// newline.
pub proof fn lemma_strip_clean_text(s: Seq<char>)
    requires
        clean_text(s),
    ensures
        strip_spec(s) == if s.len() == 0 {
            Seq::<char>::empty()
        } else {
            ensure_nl(s)
        },
{
    lemma_strip_clean_id(lines_of(s));
    if s.len() == 0 {
        assert(strip_spec(s) =~= Seq::<char>::empty());
    } else {
        lemma_lines_ensure_nl(s);
        assert(ensure_nl(s).len() > 0 && ensure_nl(s).last() == '\n');
        lemma_unlines_lines(ensure_nl(s));
    }
}

/// Stripping is idempotent, and its output is clean text ending in a newline
/// (or empty).
pub proof fn lemma_strip_idempotent(s: Seq<char>)
    ensures
        strip_spec(strip_spec(s)) == strip_spec(s),
        clean_text(strip_spec(s)),
        strip_spec(s).len() == 0 || strip_spec(s).last() == '\n',
{
    let ls = lines_of(s);
    let kept = strip_lines(ls, false);
    crate::text::lemma_lines_no_nl(s);
    lemma_strip_output_clean(ls, false);
    crate::text::lemma_lines_unlines(kept);
    lemma_strip_clean_id(kept);
    if kept.len() > 0 {
        lemma_unlines_last(kept);
    }
}

/// The idempotence law for apply: a second apply changes nothing that a
/// strip can see, and when the original text kept any content, one
/// apply-then-strip round restores exactly that content.
pub proof fn lemma_apply_idempotent(c: Seq<char>, p: Seq<char>)
    requires
        clean_text(p),
    ensures
        strip_spec(insert_spec(strip_spec(insert_spec(strip_spec(c), p)), p)) == strip_spec(
            insert_spec(strip_spec(c), p),
        ),
        strip_spec(c).len() > 0 ==> strip_spec(insert_spec(strip_spec(c), p)) == strip_spec(c),
{
    lemma_marker_facts();
    let s1 = strip_spec(c);
    lemma_strip_idempotent(c);
    lemma_round_trip(s1, p);
    let a1 = insert_spec(s1, p);
    // After one apply, a strip yields either the bare header or `s1` itself.
    if s1.len() == 0 {
        assert(strip_spec(a1) == pam_header_spec() + seq!['\n']);
    } else {
        assert(ensure_nl(s1) == s1);
        assert(strip_spec(a1) == s1);
    }
    let s2 = strip_spec(a1);
    lemma_strip_idempotent(a1);
    lemma_round_trip(s2, p);
    assert(s2.len() > 0) by {
        if s1.len() == 0 {
            assert(pam_header_spec().len() > 0);
        }
    }
    assert(s2.last() == '\n') by {
        if s1.len() == 0 {
            assert((pam_header_spec() + seq!['\n']).last() == '\n');
        } else {
            lemma_strip_idempotent(c);
        }
    }
    assert(ensure_nl(s2) == s2);
}

/// Inserting a block always leaves the begin marker present: `check` reports
/// applied after any apply.
pub proof fn lemma_insert_has_marker(c: Seq<char>, p: Seq<char>)
    ensures
        contains_seq(insert_spec(c, p), begin_mark_spec()),
{
    let ins = insert_spec(c, p);
    let b = begin_mark_spec();
    if c.len() == 0 {
        let k = pam_header_spec().len() as int + 1;
        assert(ins.subrange(k, k + b.len() as int) =~= b);
    } else {
        let cn = ensure_nl(c);
        let j = first_nl(cn);
        lemma_first_nl_props(cn);
        let k = j + 1;
        assert(ins.subrange(k, k + b.len() as int) =~= b);
    }
}

} // verus!
