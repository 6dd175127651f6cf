//! File utilities: whether a file exists, and selecting lines of a file's text.

use vstd::prelude::*;
use crate::text::{lines, lines_of, views};

verus! {

/// Whether something exists at `file_path` (`std::path::Path::exists`).
/// Trusted, with nothing claimed of the answer: it depends on the file system.
#[verifier::external_body]
pub fn file_exists(file_path: &str) -> bool {
    std::path::Path::new(file_path).exists()
}

/// `min(a, b)`.
pub open spec fn min_int(a: int, b: int) -> int {
    if a <= b { a } else { b }
}

/// Lines `start..end` of `content` (0-based, end exclusive), both bounds clamped
/// to the number of lines: what `read_file_lines` returns for a file holding
/// `content`.
pub fn select_lines(content: &str, start: usize, end: usize) -> (r: Vec<String>)
    requires
        min_int(start as int, lines_of(content@).len() as int) <= min_int(end as int, lines_of(content@).len() as int),
    ensures
        views(r@) == lines_of(content@).subrange(
            min_int(start as int, lines_of(content@).len() as int),
            min_int(end as int, lines_of(content@).len() as int),
        ),
{
    let ls = lines(content);
    let n = ls.len();
    let s = if start < n { start } else { n };
    let e = if end < n { end } else { n };
    let mut out: Vec<String> = Vec::new();
    let mut i = s;
    while i < e
        invariant
            s <= i <= e <= n == ls@.len(),
            views(out@) == views(ls@).subrange(s as int, i as int),
        decreases e - i,
    {
        let ghost before = out@;
        let line = ls[i].clone();
        out.push(line);
        assert(out@ == before.push(ls@[i as int]));
        assert(views(ls@)[i as int] == ls@[i as int]@);
        assert(views(out@) =~= views(before).push(ls@[i as int]@));
        assert(views(ls@).subrange(s as int, i + 1) =~= views(ls@).subrange(s as int, i as int).push(views(ls@)[i as int]));
        assert(views(out@) =~= views(ls@).subrange(s as int, i + 1));
        i += 1;
    }
    out
}

} // verus!
