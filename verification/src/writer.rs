//! Bookkeeping for the atomic file writer: splitting a target path into
//! parent directory and file name, naming the unique temporary file, and
//! choosing the permission mode for the replacement file.  The writer's
//! actual file operations live outside the library; these functions pin
//! down every value it computes.
use vstd::prelude::*;

use crate::text::{push_char, rfind, rfind_char};

verus! {

/// The decimal digit character for `d`.
pub open spec fn digit_char(d: int) -> char {
    if d == 0 {
        '0'
    } else if d == 1 {
        '1'
    } else if d == 2 {
        '2'
    } else if d == 3 {
        '3'
    } else if d == 4 {
        '4'
    } else if d == 5 {
        '5'
    } else if d == 6 {
        '6'
    } else if d == 7 {
        '7'
    } else if d == 8 {
        '8'
    } else {
        '9'
    }
}

/// The decimal digits of `n`, most significant first.
pub open spec fn dec_spec(n: int) -> Seq<char>
    decreases n,
{
    if n < 10 {
        seq![digit_char(n)]
    } else {
        dec_spec(n / 10).push(digit_char(n % 10))
    }
}

/// Appends the decimal digits of `n` to `out`.
fn push_dec(out: &mut String, n: u64)
    ensures
        final(out)@ == old(out)@ + dec_spec(n as int),
    decreases n,
{
    if n >= 10 {
        push_dec(out, n / 10);
    }
    let d = n % 10;
    let c = if d == 0 {
        '0'
    } else if d == 1 {
        '1'
    } else if d == 2 {
        '2'
    } else if d == 3 {
        '3'
    } else if d == 4 {
        '4'
    } else if d == 5 {
        '5'
    } else if d == 6 {
        '6'
    } else if d == 7 {
        '7'
    } else if d == 8 {
        '8'
    } else {
        '9'
    };
    push_char(out, c);
    proof {
        if n < 10 {
            assert(final(out)@ =~= old(out)@ + seq![digit_char(n as int)]);
        } else {
            assert(final(out)@ =~= old(out)@ + dec_spec(n as int));
        }
    }
}

/// The decimal rendering of `n`.
pub fn u64_to_dec(n: u64) -> (r: String)
    ensures
        r@ == dec_spec(n as int),
{
    let mut out = String::new();
    push_dec(&mut out, n);
    proof {
        assert(Seq::<char>::empty() + dec_spec(n as int) =~= dec_spec(n as int));
    }
    out
}

/// The unique temporary file name used while replacing `file_name`: hidden,
/// tagged with the process id and a high-resolution timestamp, and marked
/// `.tmp`.
pub open spec fn temp_name_spec(file_name: Seq<char>, pid: int, timestamp: int) -> Seq<char> {
    seq!['.'] + file_name + seq!['.'] + dec_spec(pid) + seq!['-'] + dec_spec(timestamp)
        + ".tmp"@
}

/// Builds the temporary file name beside `file_name`; it is never the target
/// file's own name, so creating it cannot clobber the target.
pub fn temp_file_name(file_name: &str, pid: u64, timestamp: u64) -> (r: String)
    ensures
        r@ == temp_name_spec(file_name@, pid as int, timestamp as int),
        r@ != file_name@,
{
    let mut out = String::new();
    push_char(&mut out, '.');
    out.append(file_name);
    push_char(&mut out, '.');
    push_dec(&mut out, pid);
    push_char(&mut out, '-');
    push_dec(&mut out, timestamp);
    out.append(".tmp");
    proof {
        reveal_strlit(".tmp");
        assert(out@ =~= temp_name_spec(file_name@, pid as int, timestamp as int));
        assert(out@.len() > file_name@.len());
    }
    out
}

/// Where the file name of `path` begins: just past the last slash.
pub open spec fn name_start_of(path: Seq<char>) -> int {
    rfind(path, '/') + 1
}

/// The parent directory of `path` as the writer uses it: the text before the
/// last slash, or the root when that text is empty.  A path with no slash,
/// or with nothing after its last slash — the root path included — gives
/// the writer no file to name and is refused.
pub open spec fn parent_spec(path: Seq<char>) -> Option<Seq<char>> {
    let k = rfind(path, '/');
    if k < 0 || k == path.len() - 1 {
        None
    } else if k == 0 {
        Some(seq!['/'])
    } else {
        Some(path.subrange(0, k))
    }
}

/// The file-name part of `path`: the text after the last slash.
pub open spec fn file_name_spec(path: Seq<char>) -> Seq<char> {
    path.subrange(name_start_of(path), path.len() as int)
}

/// Splits `path` into its parent directory and nonempty file name; `None`
/// when the path holds no slash, or no name after its last slash, and so
/// gives the writer nothing to work with.
pub fn split_path(path: &str) -> (r: Option<(String, String)>)
    ensures
        (match r {
            Some(pair) => parent_spec(path@) == Some(pair.0@) && pair.1@ == file_name_spec(
                path@,
            ),
            None => parent_spec(path@) == None::<Seq<char>>,
        }),
{
    let n = path.unicode_len();
    match rfind_char(path, '/') {
        None => None,
        Some(k) if k + 1 == n => None,
        Some(k) => {
            let mut parent = String::new();
            if k == 0 {
                parent.append("/");
                proof {
                    reveal_strlit("/");
                    assert(parent@ =~= seq!['/']);
                }
            } else {
                parent.append(path.substring_char(0, k));
                proof {
                    assert(parent@ =~= path@.subrange(0, k as int));
                }
            }
            let mut name = String::new();
            name.append(path.substring_char(k + 1, n));
            proof {
                assert(name@ =~= file_name_spec(path@));
            }
            Some((parent, name))
        },
    }
}

/// The safe default permission mode for a freshly created policy file:
/// owner read/write, group and others read, no execute.
pub fn default_mode() -> (r: u32)
    ensures
        r == 0o644,
{
    0o644
}

/// The permission mode for the replacement file: the target's own mode when
/// it already existed, else the safe default.
pub fn choose_mode(existing: Option<u32>) -> (r: u32)
    ensures
        (match existing {
            Some(m) => r == m,
            None => r == 0o644,
        }),
{
    match existing {
        Some(m) => m,
        None => 0o644,
    }
}

} // verus!
