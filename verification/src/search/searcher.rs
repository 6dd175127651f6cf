//! Text search bookkeeping: the regex pattern, the file-type filter, and the
//! collection of matches up to the result limit.

use vstd::prelude::*;
use grep::regex::RegexMatcher;
use grep::searcher::sinks::Lossy;
use grep::searcher::{BinaryDetection, SearcherBuilder};
use crate::text::{
    chars_of, concat, has_prefix, starts_with, str_eq, string_of, subvec, trim_end, trimmed_end,
};

verus! {

/// A text match result.
pub struct TextMatch {
    /// File path
    pub path: String,
    /// Line number (1-based)
    pub line_number: u64,
    /// Matched line content
    pub line: String,
}

/// Search options.
pub struct SearchOptions {
    /// Root directory to search
    pub root: String,
    /// Maximum number of results
    pub max_results: usize,
    /// File type filters (e.g., ["rs", "toml"])
    pub file_types: Option<Vec<String>>,
    /// Case insensitive search
    pub case_insensitive: bool,
}

impl Default for SearchOptions {
    fn default() -> (o: Self)
        ensures
            o.root@ == "."@,
            o.max_results == 100,
            o.file_types is None,
            o.case_insensitive,
    {
        SearchOptions { root: String::from_str("."), max_results: 100, file_types: None, case_insensitive: true }
    }
}

/// The regex searched for: case-insensitive searches get the `(?i)` flag unless
/// the pattern already starts with it.
pub open spec fn spec_search_pattern(pattern: Seq<char>, case_insensitive: bool) -> Seq<char> {
    if case_insensitive && !has_prefix(pattern, "(?i)"@) {
        "(?i)"@ + pattern
    } else {
        pattern
    }
}

/// The regex for `pattern` under `options`.
pub fn search_pattern(pattern: &str, options: &SearchOptions) -> (r: String)
    ensures
        r@ == spec_search_pattern(pattern@, options.case_insensitive),
{
    if options.case_insensitive && !starts_with(pattern, "(?i)") {
        concat("(?i)", pattern)
    } else {
        String::from_str(pattern)
    }
}

/// The position of the last `c` in `s`, searching from the end.
pub open spec fn last_pos(s: Seq<char>, c: char) -> Option<int>
    decreases s.len(),
{
    if s.len() == 0 {
        None
    } else if s.last() == c {
        Some(s.len() - 1)
    } else {
        last_pos(s.drop_last(), c)
    }
}

/// The last `/`-separated segment of a path.
pub open spec fn file_name(path: Seq<char>) -> Seq<char> {
    match last_pos(path, '/') {
        Some(k) => path.skip(k + 1),
        None => path,
    }
}

/// The extension of a file path: the text after the last dot of the file
/// name, unless the name has no dot, is `..`, or has only a leading dot. This
/// is what `Path::extension` gives for a path that does not end with `/` or
/// `/.` (whose file name `Path` takes from the component before).
pub open spec fn extension(path: Seq<char>) -> Option<Seq<char>> {
    let name = file_name(path);
    if name == ".."@ {
        None
    } else {
        match last_pos(name, '.') {
            None => None,
            Some(k) => if k == 0 { None } else { Some(name.skip(k + 1)) },
        }
    }
}

/// `name` is one of `names`.
pub open spec fn listed(names: Seq<String>, name: Seq<char>) -> bool {
    exists|i: int| 0 <= i < names.len() && names[i]@ == name
}

/// A file is searched when there is no type filter, or its extension is listed.
pub open spec fn spec_accepts(path: Seq<char>, file_types: Option<Vec<String>>) -> bool {
    match file_types {
        None => true,
        Some(types) => match extension(path) {
            Some(e) => listed(types@, e),
            None => false,
        },
    }
}

proof fn lemma_last_pos(s: Seq<char>, c: char, k: int)
    requires
        -1 <= k < s.len(),
        k >= 0 ==> s[k] == c,
        forall|j: int| k < j < s.len() ==> s[j] != c,
    ensures
        last_pos(s, c) == (if k >= 0 { Some(k) } else { None::<int> }),
    decreases s.len(),
{
    if s.len() > 0 && k < s.len() - 1 {
        lemma_last_pos(s.drop_last(), c, k);
    }
}

/// The position after the last `c` in `x` (0 when there is none), with the proof
/// that it is the last.
fn after_last(x: &Vec<char>, c: char) -> (k: usize)
    ensures
        k <= x@.len(),
        last_pos(x@, c) == (if k > 0 { Some(k - 1) } else { None::<int> }),
{
    let mut k = x.len();
    while k > 0 && x[k - 1] != c
        invariant
            k <= x.len(),
            forall|j: int| k <= j < x.len() ==> x@[j] != c,
        decreases k,
    {
        k -= 1;
    }
    proof { lemma_last_pos(x@, c, k - 1); }
    k
}

/// The extension of a file path (`Path::extension`).
pub fn path_extension(path: &str) -> (r: Option<String>)
    ensures
        match r {
            Some(e) => extension(path@) == Some(e@),
            None => extension(path@) is None,
        },
{
    let p = chars_of(path);
    let s = after_last(&p, '/');
    let name = subvec(&p, s, p.len());
    assert(name@ =~= file_name(path@));
    let name_str = string_of(&name);
    if str_eq(name_str.as_str(), "..") {
        return None;
    }
    let d = after_last(&name, '.');
    if d <= 1 {
        return None;
    }
    let ext = subvec(&name, d, name.len());
    Some(string_of(&ext))
}

/// Whether a file is searched under the type filter (`file_types`).
pub fn accepts_file(path: &str, file_types: &Option<Vec<String>>) -> (r: bool)
    ensures
        r == spec_accepts(path@, *file_types),
{
    match file_types {
        None => true,
        Some(types) => match path_extension(path) {
            Some(e) => {
                let mut i: usize = 0;
                while i < types.len()
                    invariant
                        *file_types == Some(*types),
                        extension(path@) == Some(e@),
                        i <= types@.len(),
                        forall|j: int| 0 <= j < i ==> types@[j]@ != e@,
                    decreases types@.len() - i,
                {
                    if str_eq(types[i].as_str(), e.as_str()) {
                        assert(types@[i as int]@ == e@);
                        return true;
                    }
                    i += 1;
                }
                false
            },
            None => false,
        },
    }
}

/// The match recorded for a found line: its path, number, and the line without
/// trailing white space.
pub open spec fn recorded(m: TextMatch, path: Seq<char>, found: (u64, Seq<char>)) -> bool {
    m.path@ == path && m.line_number == found.0 && m.line@ == trimmed_end(found.1)
}

/// The views of found lines: each line number with the line's characters.
pub open spec fn line_views(v: Seq<(u64, String)>) -> Seq<(u64, Seq<char>)> {
    v.map_values(|p: (u64, String)| (p.0, p.1@))
}

/// How many of `n` found lines are recorded when `have` matches are already
/// held: all, or up to the first that brings the count to the limit.
pub open spec fn taken_count(have: int, n: int, max_results: int) -> int {
    if have + n < max_results || n == 0 {
        n
    } else if have >= max_results {
        1
    } else {
        max_results - have
    }
}

/// Recording found lines never takes the matches past the limit while they are
/// below it; with a limit of 0 the first line found is still recorded.
pub proof fn lemma_recording_within_limit(have: int, n: int, max_results: int)
    requires
        0 <= have,
        0 <= n,
        0 <= max_results,
    ensures
        have < max_results ==> have + taken_count(have, n, max_results) <= max_results,
        have == 0 && max_results == 0 ==> taken_count(have, n, max_results) == (if n == 0 { 0int } else { 1int }),
        0 <= taken_count(have, n, max_results) <= n,
{
}

/// Record the lines found in one file, in order, stopping as soon as the number
/// of matches reaches `max_results`; returns whether the limit was reached.
pub fn record_file_matches(
    matches: &mut Vec<TextMatch>,
    path: &str,
    found: &Vec<(u64, String)>,
    max_results: usize,
) -> (stop: bool)
    ensures
        final(matches)@.len() == old(matches)@.len() + taken_count(old(matches)@.len() as int, found@.len() as int, max_results as int),
        final(matches)@.take(old(matches)@.len() as int) == old(matches)@,
        forall|j: int| 0 <= j < taken_count(old(matches)@.len() as int, found@.len() as int, max_results as int)
            ==> recorded(#[trigger] final(matches)@[old(matches)@.len() + j], path@, line_views(found@)[j]),
        stop == (taken_count(old(matches)@.len() as int, found@.len() as int, max_results as int) > 0
            && final(matches)@.len() >= max_results),
{
    let ghost before = matches@;
    let mut i: usize = 0;
    while i < found.len()
        invariant
            before == old(matches)@,
            i <= found@.len(),
            matches@.len() == before.len() + i,
            matches@.take(before.len() as int) == before,
            forall|j: int| 0 <= j < i ==> recorded(#[trigger] matches@[before.len() + j], path@, line_views(found@)[j]),
            i > 0 ==> matches@.len() < max_results,
        decreases found@.len() - i,
    {
        let m = TextMatch { path: String::from_str(path), line_number: found[i].0, line: trim_end(found[i].1.as_str()) };
        let ghost prev = matches@;
        matches.push(m);
        assert(matches@.take(before.len() as int) =~= before);
        assert(recorded(matches@[before.len() + i], path@, line_views(found@)[i as int]));
        assert(forall|j: int| 0 <= j < i ==> #[trigger] matches@[before.len() + j] == prev[before.len() + j]);
        if matches.len() >= max_results {
            assert(taken_count(before.len() as int, found@.len() as int, max_results as int) == i + 1);
            assert(forall|j: int| 0 <= j < i + 1 ==> recorded(#[trigger] matches@[before.len() + j], path@, line_views(found@)[j]));
            return true;
        }
        i += 1;
    }
    false
}

/// What a line search of `content` for the regex `pattern` finds, as the
/// `grep` crate does it: the error text of a pattern that does not compile,
/// or the matching lines in order, each with its 1-based number and its text
/// (invalid UTF-8 replaced), the search ending at the first NUL byte.
pub uninterp spec fn grep_lines(pattern: Seq<char>, content: Seq<u8>) -> Result<Seq<(u64, Seq<char>)>, Seq<char>>;

/// Searches `content` line by line for the regex `pattern` with `grep`
/// (`RegexMatcher::new_line_matcher`, then `Searcher::search_slice` with line
/// numbers, stopping at a NUL byte, through a `Lossy` sink). Trusted: the
/// result is `grep_lines` of the arguments; and since the pattern is compiled
/// before any content is read, whether it fails, and with what text, is what
/// it gives for empty content. A failure of the search itself keeps the lines
/// found before it.
#[verifier::external_body]
pub(crate) fn matching_lines(pattern: &str, content: &Vec<u8>) -> (r: Result<Vec<(u64, String)>, String>)
    ensures
        match r {
            Ok(v) => grep_lines(pattern@, content@) == Ok::<Seq<(u64, Seq<char>)>, Seq<char>>(line_views(v@)),
            Err(e) => grep_lines(pattern@, content@) == Err::<Seq<(u64, Seq<char>)>, Seq<char>>(e@)
                && grep_lines(pattern@, Seq::empty()) == Err::<Seq<(u64, Seq<char>)>, Seq<char>>(e@),
        },
        r is Err <==> grep_lines(pattern@, Seq::empty()) is Err,
{
    let matcher = match RegexMatcher::new_line_matcher(pattern) {
        Ok(m) => m,
        Err(e) => return Err(e.to_string()),
    };
    let mut searcher = SearcherBuilder::new().binary_detection(BinaryDetection::quit(b'\x00')).line_number(true).build();
    let mut found: Vec<(u64, String)> = Vec::new();
    let _ = searcher.search_slice(&matcher, content, Lossy(|n: u64, line: &str| {
        found.push((n, line.to_string()));
        Ok(true)
    }));
    Ok(found)
}

/// Whether the search pattern compiles: `Err` with the error text when it
/// does not (for every file alike).
pub fn check_pattern(pattern: &str, options: &SearchOptions) -> (r: Result<(), String>)
    ensures
        match grep_lines(spec_search_pattern(pattern@, options.case_insensitive), Seq::empty()) {
            Ok(_) => r is Ok,
            Err(e) => r matches Err(x) && x@ == e,
        },
{
    let p = search_pattern(pattern, options);
    let empty: Vec<u8> = Vec::new();
    match matching_lines(p.as_str(), &empty) {
        Ok(_) => Ok(()),
        Err(e) => Err(e),
    }
}

/// Search one file of the walk, given its path and content: a file that the
/// type filter leaves out is skipped; otherwise its matching lines are
/// recorded as `record_file_matches` records them, and the result says
/// whether the limit was reached. A pattern that does not compile is an
/// error, with nothing recorded.
pub fn search_file(
    pattern: &str,
    options: &SearchOptions,
    matches: &mut Vec<TextMatch>,
    path: &str,
    content: &Vec<u8>,
) -> (r: Result<bool, String>)
    ensures
        !spec_accepts(path@, options.file_types) ==> r == Ok::<bool, String>(false) && final(matches)@ == old(matches)@,
        spec_accepts(path@, options.file_types) ==> match grep_lines(spec_search_pattern(pattern@, options.case_insensitive), content@) {
            Err(e) => (r matches Err(x) && x@ == e) && final(matches)@ == old(matches)@,
            Ok(lines) => {
                let n = taken_count(old(matches)@.len() as int, lines.len() as int, options.max_results as int);
                &&& final(matches)@.len() == old(matches)@.len() + n
                &&& final(matches)@.take(old(matches)@.len() as int) == old(matches)@
                &&& forall|j: int| 0 <= j < n ==> recorded(#[trigger] final(matches)@[old(matches)@.len() + j], path@, lines[j])
                &&& r == Ok::<bool, String>(n > 0 && final(matches)@.len() >= options.max_results)
            },
        },
{
    if !accepts_file(path, &options.file_types) {
        return Ok(false);
    }
    let p = search_pattern(pattern, options);
    match matching_lines(p.as_str(), content) {
        Ok(found) => Ok(record_file_matches(matches, path, &found, options.max_results)),
        Err(e) => Err(e),
    }
}

} // verus!
