//! Code snippet extraction: the numbered lines of a file around a target line.

use vstd::prelude::*;
use crate::text::{concat, decimal, decimal_padded, join, joined, lines, lines_of, padded_left, views};

verus! {

/// Maximum lines to include in a snippet.
pub const DEFAULT_SNIPPET_LINES: usize = 50;

/// The first and last-plus-one line index of the snippet before the size
/// limit is applied.
pub open spec fn first_window(len: int, target: int, context: int) -> (int, int) {
    (if target >= context { target - context } else { 0 },
     if target + context + 1 <= len { target + context + 1 } else { len })
}

/// The line range of the snippet: the window of `context` lines on each side,
/// narrowed to the 25 lines before the target and 24 after it when it would
/// exceed 50 lines, so that no snippet is longer than 50 lines.
pub open spec fn snippet_window(len: int, target: int, context: int) -> (int, int) {
    let (s, e) = first_window(len, target, context);
    if e - s > 50 {
        (if target >= 25 { target - 25 } else { 0 }, if target + 25 <= len { target + 25 } else { len })
    } else {
        (s, e)
    }
}

/// The snippet can be cut without running past the file: both windows are
/// well-formed and the arithmetic fits in `usize`.
pub open spec fn snippet_ok(len: int, target: int, context: int) -> bool {
    &&& target + context + 1 <= usize::MAX
    &&& first_window(len, target, context).0 <= first_window(len, target, context).1
    &&& snippet_window(len, target, context).0 <= snippet_window(len, target, context).1
}

/// One numbered snippet line: the 1-based number right-aligned in four columns.
pub open spec fn numbered_line(number: nat, line: Seq<char>) -> Seq<char> {
    padded_left(decimal(number), 4) + ": "@ + line
}

/// The snippet of `content` around line `target` (0-based) with `context` lines
/// on each side.
pub open spec fn spec_snippet(content: Seq<char>, target: int, context: int) -> Seq<char> {
    let ls = lines_of(content);
    let (s, e) = snippet_window(ls.len() as int, target, context);
    joined(Seq::new((e - s) as nat, |i: int| numbered_line((s + i + 1) as nat, ls[s + i])), "\n"@)
}

/// Whether a snippet of `content` around `target_line` can be cut (see `snippet_ok`).
pub fn snippet_in_range(content: &str, target_line: u32, context_lines: usize) -> (r: bool)
    ensures
        r == snippet_ok(lines_of(content@).len() as int, target_line as int, context_lines as int),
{
    let ls = lines(content);
    let len = ls.len();
    let t = target_line as usize;
    if t > usize::MAX - 1 || context_lines > usize::MAX - 1 - t {
        return false;
    }
    let start = if t >= context_lines { t - context_lines } else { 0 };
    let end = if t + context_lines + 1 <= len { t + context_lines + 1 } else { len };
    if start > end {
        return false;
    }
    if end - start > DEFAULT_SNIPPET_LINES {
        let s2 = if t >= 25 { t - 25 } else { 0 };
        let e2 = if t + 25 <= len { t + 25 } else { len };
        s2 <= e2
    } else {
        true
    }
}

/// The numbered lines `lines[start..end]`, joined by newlines.
fn numbered_lines(ls: &Vec<String>, start: usize, end: usize) -> (r: String)
    requires
        start <= end <= ls@.len(),
    ensures
        r@ == joined(Seq::new((end - start) as nat, |i: int| numbered_line((start + i + 1) as nat, ls@[start + i]@)), "\n"@),
{
    let mut parts: Vec<String> = Vec::new();
    let mut i = start;
    while i < end
        invariant
            start <= i <= end <= ls@.len(),
            parts@.len() == i - start,
            forall|j: int| 0 <= j < parts@.len() ==> #[trigger] parts@[j]@ == numbered_line((start + j + 1) as nat, ls@[start + j]@),
        decreases end - i,
    {
        let num = decimal_padded((i + 1) as u64, 4);
        let head = concat(num.as_str(), ": ");
        let line = concat(head.as_str(), ls[i].as_str());
        parts.push(line);
        i += 1;
    }
    let r = join(&parts, "\n");
    assert(views(parts@) =~= Seq::new((end - start) as nat, |i: int| numbered_line((start + i + 1) as nat, ls@[start + i]@)));
    r
}

/// The snippet of `content` around the 0-based `target_line`: the lines within
/// `context_lines` of it (25 before and 24 after it when the window would
/// exceed 50 lines), each prefixed with its 1-based number right-aligned in four
/// columns, joined by newlines.
pub fn render_snippet(content: &str, target_line: u32, context_lines: usize) -> (r: String)
    requires
        snippet_ok(lines_of(content@).len() as int, target_line as int, context_lines as int),
    ensures
        r@ == spec_snippet(content@, target_line as int, context_lines as int),
{
    let ls = lines(content);
    proof {
        assert(ls@.len() == lines_of(content@).len());
    }
    let len = ls.len();
    let t = target_line as usize;
    let mut start = if t >= context_lines { t - context_lines } else { 0 };
    let mut end = if t + context_lines + 1 <= len { t + context_lines + 1 } else { len };
    if end - start > DEFAULT_SNIPPET_LINES {
        let half = DEFAULT_SNIPPET_LINES / 2;
        start = if t >= half { t - half } else { 0 };
        end = if t + half <= len { t + half } else { len };
    }
    let r = numbered_lines(&ls, start, end);
    proof {
        let ghost lsv = lines_of(content@);
        assert(forall|i: int| 0 <= i < ls@.len() ==> ls@[i]@ == #[trigger] lsv[i]) by {
            assert forall|i: int| 0 <= i < ls@.len() implies ls@[i]@ == #[trigger] lsv[i] by {
                assert(views(ls@)[i] == ls@[i]@);
            }
        }
        assert(Seq::new((end - start) as nat, |i: int| numbered_line((start + i + 1) as nat, ls@[start + i]@))
            =~= Seq::new((end - start) as nat, |i: int| numbered_line((start + i + 1) as nat, lsv[start + i])));
    }
    r
}

/// A snippet never holds more than 50 lines, and when the target line is in
/// the file the snippet shows it.
pub proof fn lemma_snippet_window_bounded(len: int, target: int, context: int)
    requires
        0 <= target,
        0 <= context,
        snippet_ok(len, target, context),
    ensures
        snippet_window(len, target, context).1 - snippet_window(len, target, context).0 <= DEFAULT_SNIPPET_LINES,
        target < len ==> snippet_window(len, target, context).0 <= target < snippet_window(len, target, context).1,
{
}

/// Every line of a snippet shows a line of the file under that line's number
/// counted from 1: the snippet is the window's lines in file order, the line
/// numbered `n` holding the file's `n`-th line, its number right-aligned in
/// four columns and followed by `: `; the target line itself is in the window.
pub proof fn lemma_snippet_lines_carry_their_numbers(content: Seq<char>, target: int, context: int)
    requires
        0 <= target < lines_of(content).len(),
        0 <= context,
        snippet_ok(lines_of(content).len() as int, target, context),
    ensures
        ({
            let ls = lines_of(content);
            let w = snippet_window(ls.len() as int, target, context);
            &&& w.0 <= target < w.1
            &&& spec_snippet(content, target, context) == joined(
                Seq::new((w.1 - w.0) as nat, |i: int| padded_left(decimal((w.0 + i + 1) as nat), 4) + ": "@
                    + ls[(w.0 + i + 1) - 1]),
                "\n"@,
            )
        }),
{
    let ls = lines_of(content);
    let w = snippet_window(ls.len() as int, target, context);
    lemma_snippet_window_bounded(ls.len() as int, target, context);
    assert(Seq::new((w.1 - w.0) as nat, |i: int| numbered_line((w.0 + i + 1) as nat, ls[w.0 + i])) =~= Seq::new(
        (w.1 - w.0) as nat,
        |i: int| padded_left(decimal((w.0 + i + 1) as nat), 4) + ": "@ + ls[(w.0 + i + 1) - 1],
    ));
}

/// A successful read can be cut into a snippet (a failed read needs nothing).
pub open spec fn read_fits(read: (Result<String, String>, u32), context: int) -> bool {
    match read.0 {
        Ok(c) => snippet_ok(lines_of(c@).len() as int, read.1 as int, context),
        Err(_) => true,
    }
}

/// `out` is the snippet of a successful read.
pub open spec fn is_snippet_of(read: (Result<String, String>, u32), context: int, out: Seq<char>) -> bool {
    match read.0 {
        Ok(c) => out == spec_snippet(c@, read.1 as int, context),
        Err(_) => false,
    }
}

/// The snippets at several locations, each given by the outcome of reading its
/// file and its target line: the first failed read ends the whole request
/// with that read's error.
pub fn extract_snippets(reads: &Vec<(Result<String, String>, u32)>, context_lines: usize) -> (r: Result<Vec<String>, String>)
    requires
        forall|i: int| 0 <= i < reads@.len() ==> read_fits(#[trigger] reads@[i], context_lines as int),
    ensures
        match r {
            Ok(v) => {
                &&& v@.len() == reads@.len()
                &&& forall|i: int| 0 <= i < reads@.len() ==> is_snippet_of(#[trigger] reads@[i], context_lines as int, v@[i]@)
            },
            Err(e) => exists|i: int| 0 <= i < reads@.len() && (#[trigger] reads@[i]).0 == Err::<String, String>(e)
                && forall|j: int| 0 <= j < i ==> (#[trigger] reads@[j]).0 is Ok,
        },
{
    let mut out: Vec<String> = Vec::new();
    let mut i: usize = 0;
    while i < reads.len()
        invariant
            i <= reads@.len(),
            out@.len() == i,
            forall|j: int| 0 <= j < reads@.len() ==> read_fits(#[trigger] reads@[j], context_lines as int),
            forall|j: int| 0 <= j < i ==> is_snippet_of(#[trigger] reads@[j], context_lines as int, out@[j]@),
        decreases reads@.len() - i,
    {
        assert(read_fits(reads@[i as int], context_lines as int));
        match &reads[i].0 {
            Ok(c) => {
                let s = render_snippet(c.as_str(), reads[i].1, context_lines);
                out.push(s);
                assert(is_snippet_of(reads@[i as int], context_lines as int, out@[i as int]@));
            },
            Err(e) => {
                assert(forall|j: int| 0 <= j < i ==> (#[trigger] reads@[j]).0 is Ok) by {
                    assert forall|j: int| 0 <= j < i implies (#[trigger] reads@[j]).0 is Ok by {
                        assert(is_snippet_of(reads@[j], context_lines as int, out@[j]@));
                    }
                }
                return Err(e.clone());
            },
        }
        i += 1;
    }
    Ok(out)
}

} // verus!
