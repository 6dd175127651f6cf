//! MCP server (stdio mode): routing of requests, planning of tool calls and the
//! rendering of LSP answers into tool results.

use vstd::prelude::*;
use crate::json::{
    Json, JsonValue, elems_view, jarray, jget, jstr, ju64, lemma_elems_view, lemma_members_view, members_view,
    oget, or_default, ostr, ou64,
};
use crate::text::{
    chars_of, concat, decimal, decimal_string, has_prefix, join, joined, lines_of, string_of, strip_prefix, subvec,
    views,
};
use crate::bridge::snippet::{render_snippet, snippet_ok, spec_snippet};
use crate::json::{arg_bool, arg_str, arg_u64, jindex};
use crate::mcp::protocol::{McpError, McpRequest, McpResponse, opt_view};
use crate::mcp::tools::{McpTool, hybrid_tool_def, lsp_tool_defs};
use crate::search::hybrid::{HybridResult, HybridSearchOptions, SymbolResult, TextResult};
use crate::text::{str_eq, trim, trimmed};

verus! {

/// `c` is an ASCII letter.
pub open spec fn is_ascii_alpha(c: char) -> bool {
    ('a' <= c && c <= 'z') || ('A' <= c && c <= 'Z')
}

/// The path of a `file://` URI; a Windows drive path `/d:/x` loses its leading slash.
pub open spec fn spec_server_uri_to_path(uri: Seq<char>) -> Option<Seq<char>> {
    if !has_prefix(uri, "file://"@) {
        None
    } else {
        let w = uri.skip(7);
        if w.len() >= 3 && w[0] == '/' && is_ascii_alpha(w[1]) && w[2] == ':' {
            Some(w.skip(1))
        } else {
            Some(w)
        }
    }
}

/// The path shown for a location URI: its file path, or the URI itself.
pub open spec fn location_path(uri: Seq<char>) -> Seq<char> {
    or_default(spec_server_uri_to_path(uri), uri)
}

/// The start line of the range under `range_key`, 0 when absent.
pub open spec fn start_line(loc: Json, range_key: Seq<char>) -> u64 {
    or_default(ou64(oget(oget(jget(loc, range_key), "start"@), "line"@)), 0)
}

/// The location named by `uri_key` and `range_key` in `loc`, if its URI is a string.
pub open spec fn location_at(loc: Json, uri_key: Seq<char>, range_key: Seq<char>) -> Option<(Seq<char>, u32)> {
    match jstr(or_default(jget(loc, uri_key), Json::Null)) {
        Some(u) => Some((location_path(u), start_line(loc, range_key) as u32)),
        None => None,
    }
}

/// The element of an option as a sequence of zero or one.
pub open spec fn opt_seq<T>(o: Option<T>) -> Seq<T> {
    match o {
        Some(x) => seq![x],
        None => Seq::empty(),
    }
}

/// The locations in an array of `Location`s and `LocationLink`s, in order.
pub open spec fn array_locations(arr: Seq<Json>) -> Seq<(Seq<char>, u32)>
    decreases arr.len(),
{
    if arr.len() == 0 {
        Seq::empty()
    } else {
        array_locations(arr.drop_last())
            + opt_seq(location_at(arr.last(), "uri"@, "range"@))
            + opt_seq(location_at(arr.last(), "targetUri"@, "targetRange"@))
    }
}

/// Every location a definition answer holds: a single `Location`, a single
/// `LocationLink`, then those of an array.
pub open spec fn definition_locations(result: Json) -> Seq<(Seq<char>, u32)> {
    opt_seq(location_at(result, "uri"@, "range"@))
        + opt_seq(location_at(result, "targetUri"@, "targetRange"@))
        + match jarray(result) {
            Some(a) => array_locations(a),
            None => Seq::empty(),
        }
}

/// The locations a definition answer shows: the first three, or all.
pub open spec fn chosen_locations(result: Json, all_implementations: bool) -> Seq<(Seq<char>, u32)> {
    let l = definition_locations(result);
    if all_implementations || l.len() <= 3 { l } else { l.take(3) }
}

/// The tool result that carries `text`: `{"content": [{"type": "text", "text": text}]}`.
pub open spec fn text_content(text: Seq<char>) -> Json {
    Json::Object(seq![("content"@, Json::Array(seq![Json::Object(seq![("type"@, Json::Str("text"@)), ("text"@, Json::Str(text))])]))])
}

/// The views of path/line pairs.
pub open spec fn location_views(v: Seq<(String, u32)>) -> Seq<(Seq<char>, u32)> {
    v.map_values(|p: (String, u32)| (p.0@, p.1))
}

/// The tool result carrying `text`.
pub fn text_result(text: &str) -> (r: JsonValue)
    ensures
        r@ == text_content(text@),
{
    let mut inner: Vec<(String, JsonValue)> = Vec::new();
    inner.push((String::from_str("type"), JsonValue::string("text")));
    inner.push((String::from_str("text"), JsonValue::string(text)));
    let item = JsonValue::object(inner);
    let mut arr: Vec<JsonValue> = Vec::new();
    arr.push(item);
    let content = JsonValue::array(arr);
    let mut outer: Vec<(String, JsonValue)> = Vec::new();
    outer.push((String::from_str("content"), content));
    let r = JsonValue::object(outer);
    proof {
        lemma_members_view(inner@);
        lemma_members_view(outer@);
        lemma_elems_view(arr@);
        assert(members_view(inner@) =~= seq![("type"@, Json::Str("text"@)), ("text"@, Json::Str(text@))]);
        assert(elems_view(arr@) =~= seq![item@]);
        assert(members_view(outer@) =~= seq![("content"@, content@)]);
    }
    r
}

/// `v[k1][k2]...` as a chain of optional lookups.
fn get_path<'a>(v: Option<&'a JsonValue>, key: &str) -> (r: Option<&'a JsonValue>)
    ensures
        match r {
            Some(x) => match v { Some(y) => jget(y@, key@) == Some(x@), None => false },
            None => match v { Some(y) => jget(y@, key@) is None, None => true },
        },
{
    match v {
        Some(y) => y.get(key),
        None => None,
    }
}

/// The start line under `range_key` of a location object.
fn location_start_line(loc: &JsonValue, range_key: &str) -> (r: u64)
    ensures
        r == start_line(loc@, range_key@),
{
    let range = loc.get(range_key);
    let start = get_path(range, "start");
    let line = get_path(start, "line");
    match line {
        Some(l) => match l.as_u64() {
            Some(n) => n,
            None => 0,
        },
        None => 0,
    }
}

/// The location named by `uri_key` and `range_key`, if its URI is a string.
fn location_in(loc: &JsonValue, uri_key: &str, range_key: &str) -> (r: Option<(String, u32)>)
    ensures
        match r {
            Some(p) => location_at(loc@, uri_key@, range_key@) == Some((p.0@, p.1)),
            None => location_at(loc@, uri_key@, range_key@) is None,
        },
{
    match loc.get(uri_key) {
        Some(u) => match u.as_str() {
            Some(uri) => {
                let path = match McpServer::uri_to_path(uri) {
                    Some(p) => p,
                    None => String::from_str(uri),
                };
                let line = location_start_line(loc, range_key);
                Some((path, line as u32))
            },
            None => None,
        },
        None => None,
    }
}


/// The text read from a file, or nothing for a failed read.
pub open spec fn read_text(r: Result<String, String>) -> Seq<char> {
    match r {
        Ok(c) => c@,
        Err(_) => Seq::empty(),
    }
}

/// One definition block: the file, its 1-based line, and the snippet around it.
pub open spec fn definition_block(path: Seq<char>, line: u32, content: Seq<char>) -> Seq<char> {
    "File: "@ + path + ":"@ + decimal((line + 1) as nat) + "\n"@ + spec_snippet(content, line as int, 20)
}

/// A definition answer can be shown: one read per location, no line at the
/// top of the `u32` range, and every read file long enough for its snippet.
pub open spec fn definition_reads_fit(locs: Seq<(Seq<char>, u32)>, reads: Seq<Result<String, String>>) -> bool {
    &&& locs.len() == reads.len()
    &&& forall|i: int| 0 <= i < locs.len() ==> (#[trigger] locs[i]).1 < u32::MAX
    &&& forall|i: int| 0 <= i < reads.len() ==> (#[trigger] reads[i] is Ok ==>
        snippet_ok(lines_of(read_text(reads[i])).len() as int, locs[i].1 as int, 20))
}

/// The text of a definition answer whose files were all read.
pub open spec fn definition_text(locs: Seq<(Seq<char>, u32)>, reads: Seq<Result<String, String>>) -> Seq<char> {
    joined(Seq::new(locs.len(), |i: int| definition_block(locs[i].0, locs[i].1, read_text(reads[i]))), "\n\n---\n\n"@)
}

/// Show the definitions found: for each location (path, 0-based line) and the
/// outcome of reading its file, a block with the 1-based line and a snippet of
/// 20 lines of context, blocks separated by `---`; the first failed read fails
/// the whole answer.
pub fn render_definition(locations: &Vec<(String, u32)>, reads: &Vec<Result<String, String>>) -> (r: Result<JsonValue, String>)
    requires
        definition_reads_fit(location_views(locations@), reads@),
    ensures
        locations@.len() == 0 ==> (r matches Ok(v) && v@ == text_content("No definition found"@)),
        locations@.len() > 0 ==> match r {
            Ok(v) => (forall|i: int| 0 <= i < reads@.len() ==> (#[trigger] reads@[i]) is Ok)
                && v@ == text_content(definition_text(location_views(locations@), reads@)),
            Err(e) => exists|i: int| 0 <= i < reads@.len() && (#[trigger] reads@[i]) == Err::<String, String>(e)
                && forall|j: int| 0 <= j < i ==> (#[trigger] reads@[j]) is Ok,
        },
{
    if locations.len() == 0 {
        return Ok(text_result("No definition found"));
    }
    let ghost locs = location_views(locations@);
    let mut blocks: Vec<String> = Vec::new();
    let mut i: usize = 0;
    while i < locations.len()
        invariant
            locs == location_views(locations@),
            definition_reads_fit(locs, reads@),
            i <= locations@.len(),
            blocks@.len() == i,
            forall|j: int| 0 <= j < i ==> (#[trigger] reads@[j]) is Ok,
            forall|j: int| 0 <= j < i ==> #[trigger] blocks@[j]@ == definition_block(locs[j].0, locs[j].1, read_text(reads@[j])),
        decreases locations@.len() - i,
    {
        assert(locs[i as int] == (locations@[i as int].0@, locations@[i as int].1));
        match &reads[i] {
            Ok(c) => {
                let line = locations[i].1;
                let snippet = render_snippet(c.as_str(), line, 20);
                let num = decimal_string((line + 1) as u64);
                let a = concat("File: ", locations[i].0.as_str());
                let b = concat(a.as_str(), ":");
                let d = concat(b.as_str(), num.as_str());
                let e = concat(d.as_str(), "\n");
                let block = concat(e.as_str(), snippet.as_str());
                blocks.push(block);
            },
            Err(e) => {
                return Err(e.clone());
            },
        }
        i += 1;
    }
    let text = join(&blocks, "\n\n---\n\n");
    assert(views(blocks@) =~= Seq::new(locs.len(), |i: int| definition_block(locs[i].0, locs[i].1, read_text(reads@[i]))));
    Ok(text_result(text.as_str()))
}

/// Each block of a definition answer belongs to its own location: the i-th
/// block is `File: ` with the path of the i-th location, a colon, that
/// location's 1-based line and a newline, followed by the snippet of the i-th
/// file read around that line; the blocks stand in the order of the locations,
/// separated by `---` lines.
pub proof fn lemma_definition_blocks_follow_locations(locs: Seq<(Seq<char>, u32)>, reads: Seq<Result<String, String>>)
    ensures
        definition_text(locs, reads) == joined(
            Seq::new(locs.len(), (|i: int| "File: "@ + locs[i].0 + ":"@ + decimal((locs[i].1 + 1) as nat) + "\n"@
                + spec_snippet(read_text(reads[i]), locs[i].1 as int, 20))),
            "\n\n---\n\n"@,
        ),
        forall|i: int| 0 <= i < locs.len() ==> has_prefix(
            #[trigger] definition_block(locs[i].0, locs[i].1, read_text(reads[i])),
            "File: "@ + locs[i].0 + ":"@ + decimal((locs[i].1 + 1) as nat) + "\n"@,
        ),
{
    let by_block = Seq::new(locs.len(), |k: int| definition_block(locs[k].0, locs[k].1, read_text(reads[k])));
    let spelled = Seq::new(locs.len(), |i: int| "File: "@ + locs[i].0 + ":"@ + decimal((locs[i].1 + 1) as nat) + "\n"@
        + spec_snippet(read_text(reads[i]), locs[i].1 as int, 20));
    assert(by_block =~= spelled);
    assert forall|i: int| 0 <= i < locs.len() implies has_prefix(
        #[trigger] definition_block(locs[i].0, locs[i].1, read_text(reads[i])),
        "File: "@ + locs[i].0 + ":"@ + decimal((locs[i].1 + 1) as nat) + "\n"@,
    ) by {
        let head = "File: "@ + locs[i].0 + ":"@ + decimal((locs[i].1 + 1) as nat) + "\n"@;
        assert((head + spec_snippet(read_text(reads[i]), locs[i].1 as int, 20)).take(head.len() as int) =~= head);
    }
}

/// The reference line of a location: path and 1-based line.
pub open spec fn reference_line(loc: Json) -> Option<Seq<char>> {
    match location_at(loc, "uri"@, "range"@) {
        Some(p) => Some(p.0 + ":"@ + decimal((p.1 + 1) as nat)),
        None => None,
    }
}

/// A location in a file is shown by its file path, not its URI: for a
/// `file://` URI whose path does not begin with a Windows drive (`/C:`), the
/// path is what follows the scheme.
pub proof fn lemma_file_uri_shows_path(p: Seq<char>)
    requires
        !(p.len() >= 3 && p[0] == '/' && is_ascii_alpha(p[1]) && p[2] == ':'),
    ensures
        spec_server_uri_to_path("file://"@ + p) == Some(p),
        location_path("file://"@ + p) == p,
{
    reveal_strlit("file://");
    assert(("file://"@ + p).take(7) =~= "file://"@);
    assert(("file://"@ + p).skip(7) =~= p);
}

/// A reference is shown as the path of its file and its line counted from 1:
/// a location `file://p` whose range starts on line `l` (counted from 0, as
/// LSP counts) reads `p:l+1`.
pub proof fn lemma_reference_line_is_one_based(loc: Json, p: Seq<char>, l: u64)
    requires
        jget(loc, "uri"@) == Some(Json::Str("file://"@ + p)),
        !(p.len() >= 3 && p[0] == '/' && is_ascii_alpha(p[1]) && p[2] == ':'),
        start_line(loc, "range"@) == l,
        l < u32::MAX,
    ensures
        reference_line(loc) == Some(p + ":"@ + decimal((l + 1) as nat)),
{
    lemma_file_uri_shows_path(p);
}

/// The reference lines of an array of locations.
pub open spec fn reference_lines(arr: Seq<Json>) -> Seq<Seq<char>>
    decreases arr.len(),
{
    if arr.len() == 0 {
        Seq::empty()
    } else {
        reference_lines(arr.drop_last()) + opt_seq(reference_line(arr.last()))
    }
}

/// The line of a location is below the top of the `u32` range.
pub open spec fn location_line_fits(loc: Json, uri_key: Seq<char>, range_key: Seq<char>) -> bool {
    match location_at(loc, uri_key, range_key) {
        Some(p) => p.1 < u32::MAX,
        None => true,
    }
}

/// Every location of a references answer has a line below the top of the `u32` range.
pub open spec fn references_fit(result: Json) -> bool {
    match jarray(result) {
        Some(a) => forall|i: int| 0 <= i < a.len() ==> location_line_fits(#[trigger] a[i], "uri"@, "range"@),
        None => true,
    }
}

/// The text of a references answer.
pub open spec fn references_text(result: Json) -> Seq<char> {
    let refs = match jarray(result) {
        Some(a) => reference_lines(a),
        None => Seq::empty(),
    };
    if refs.len() == 0 {
        "No references found"@
    } else {
        "Found "@ + decimal(refs.len()) + " references:\n"@ + joined(refs, "\n"@)
    }
}

/// Whether every location of a references answer has a line below the top of
/// the `u32` range (what `parse_references_result` needs).
pub fn references_in_range(result: &JsonValue) -> (r: bool)
    ensures
        r == references_fit(result@),
{
    match result.as_array() {
        Some(arr) => {
            proof { lemma_elems_view(arr@); }
            let ghost av = elems_view(arr@);
            let mut i: usize = 0;
            while i < arr.len()
                invariant
                    i <= arr@.len(),
                    av == elems_view(arr@),
                    av.len() == arr@.len(),
                    jarray(result@) == Some(av),
                    forall|j: int| 0 <= j < arr@.len() ==> #[trigger] av[j] == arr@[j]@,
                    forall|j: int| 0 <= j < i ==> location_line_fits(#[trigger] av[j], "uri"@, "range"@),
                decreases arr@.len() - i,
            {
                if let Some(l) = location_in(&arr[i], "uri", "range") {
                    if l.1 == u32::MAX {
                        assert(!location_line_fits(av[i as int], "uri"@, "range"@));
                        assert(!references_fit(result@)) by {
                            let a = jarray(result@)->Some_0;
                            assert(a == av);
                            assert(!location_line_fits(a[i as int], "uri"@, "range"@));
                        }
                        return false;
                    }
                }
                i += 1;
            }
            true
        },
        None => true,
    }
}

/// The lines `parts` introduced by "Found {n}" and `heading` (such as " references:\n").
pub fn found_text(heading: &str, parts: &Vec<String>) -> (r: String)
    ensures
        r@ == "Found "@ + decimal(parts@.len()) + heading@ + joined(views(parts@), "\n"@),
{
    let n = decimal_string(parts.len() as u64);
    let a = concat("Found ", n.as_str());
    let d = concat(a.as_str(), heading);
    let body = join(parts, "\n");
    concat(d.as_str(), body.as_str())
}

/// Render a references answer: `path:line` for each location with a URI.
pub fn parse_references_result(result: &JsonValue) -> (r: Result<JsonValue, String>)
    requires
        references_fit(result@),
    ensures
        r matches Ok(v) && v@ == text_content(references_text(result@)),
{
    let mut refs: Vec<String> = Vec::new();
    if let Some(arr) = result.as_array() {
        proof { lemma_elems_view(arr@); }
        let ghost av = elems_view(arr@);
        let mut i: usize = 0;
        assert(av.take(0) =~= Seq::<Json>::empty());
        while i < arr.len()
            invariant
                i <= arr@.len(),
                av == elems_view(arr@),
                av.len() == arr@.len(),
                forall|j: int| 0 <= j < arr@.len() ==> #[trigger] av[j] == arr@[j]@,
                forall|j: int| 0 <= j < av.len() ==> location_line_fits(#[trigger] av[j], "uri"@, "range"@),
                views(refs@) == reference_lines(av.take(i as int)),
            decreases arr@.len() - i,
        {
            assert(av.take(i + 1).drop_last() =~= av.take(i as int));
            assert(av.take(i + 1).last() == arr@[i as int]@);
            assert(location_line_fits(av[i as int], "uri"@, "range"@));
            let ghost before = refs@;
            if let Some(l) = location_in(&arr[i], "uri", "range") {
                let num = decimal_string((l.1 + 1) as u64);
                let a = concat(l.0.as_str(), ":");
                refs.push(concat(a.as_str(), num.as_str()));
            }
            assert(views(refs@) =~= views(before) + opt_seq(reference_line(arr@[i as int]@)));
            i += 1;
        }
        assert(av.take(arr@.len() as int) =~= av);
    }
    let ghost spec_refs = match jarray(result@) {
        Some(a) => reference_lines(a),
        None => Seq::empty(),
    };
    assert(views(refs@) =~= spec_refs);
    if refs.len() == 0 {
        return Ok(text_result("No references found"));
    }
    let t = found_text(" references:\n", &refs);
    Ok(text_result(t.as_str()))
}

/// The text a hover item contributes: its `value`, or the item itself if a string.
pub open spec fn hover_part(item: Json) -> Option<Seq<char>> {
    match jstr(or_default(jget(item, "value"@), Json::Null)) {
        Some(v) => Some(v),
        None => jstr(item),
    }
}

/// The parts of an array of marked strings.
pub open spec fn hover_parts(a: Seq<Json>) -> Seq<Seq<char>>
    decreases a.len(),
{
    if a.len() == 0 {
        Seq::empty()
    } else {
        hover_parts(a.drop_last()) + opt_seq(hover_part(a.last()))
    }
}

/// The text of a hover answer.
pub open spec fn hover_text(result: Json) -> Seq<char> {
    match jget(result, "contents"@) {
        None => "No hover information available"@,
        Some(c) => match jstr(or_default(jget(c, "value"@), Json::Null)) {
            Some(v) => v,
            None => match jstr(c) {
                Some(s) => s,
                None => match jarray(c) {
                    Some(a) => joined(hover_parts(a), "\n"@),
                    None => "Unable to parse hover contents"@,
                },
            },
        },
    }
}

/// The string at `v[key]`.
fn str_member<'a>(v: &'a JsonValue, key: &str) -> (r: Option<&'a str>)
    ensures
        match r {
            Some(s) => jstr(or_default(jget(v@, key@), Json::Null)) == Some(s@),
            None => jstr(or_default(jget(v@, key@), Json::Null)) is None,
        },
{
    match v.get(key) {
        Some(x) => x.as_str(),
        None => None,
    }
}

/// Render a hover answer: the markup, the marked string, or the marked strings
/// joined by newlines.
pub fn parse_hover_result(result: &JsonValue) -> (r: Result<JsonValue, String>)
    ensures
        r matches Ok(v) && v@ == text_content(hover_text(result@)),
{
    let text: String = match result.get("contents") {
        None => String::from_str("No hover information available"),
        Some(c) => match str_member(c, "value") {
            Some(v) => String::from_str(v),
            None => match c.as_str() {
                Some(s) => String::from_str(s),
                None => match c.as_array() {
                    Some(arr) => {
                        proof { lemma_elems_view(arr@); }
                        let ghost av = elems_view(arr@);
                        let mut parts: Vec<String> = Vec::new();
                        let mut i: usize = 0;
                        assert(av.take(0) =~= Seq::<Json>::empty());
                        while i < arr.len()
                            invariant
                                i <= arr@.len(),
                                av == elems_view(arr@),
                                av.len() == arr@.len(),
                                forall|j: int| 0 <= j < arr@.len() ==> #[trigger] av[j] == arr@[j]@,
                                views(parts@) == hover_parts(av.take(i as int)),
                            decreases arr@.len() - i,
                        {
                            assert(av.take(i + 1).drop_last() =~= av.take(i as int));
                            assert(av.take(i + 1).last() == arr@[i as int]@);
                            let ghost before = parts@;
                            match str_member(&arr[i], "value") {
                                Some(v) => parts.push(String::from_str(v)),
                                None => match arr[i].as_str() {
                                    Some(s) => parts.push(String::from_str(s)),
                                    None => {},
                                },
                            }
                            assert(views(parts@) =~= views(before) + opt_seq(hover_part(arr@[i as int]@)));
                            i += 1;
                        }
                        assert(av.take(arr@.len() as int) =~= av);
                        join(&parts, "\n")
                    },
                    None => String::from_str("Unable to parse hover contents"),
                },
            },
        },
    };
    Ok(text_result(text.as_str()))
}

/// The hover text shows what the server sent: a plain marked string `s` as
/// contents is shown as `s` itself; markup contents with a string `value` is
/// shown as that value; an array of plain marked strings is shown as those
/// strings, in order, one per line; an answer without contents says that no
/// hover information is available.
pub proof fn lemma_hover_text_shows_contents(result: Json, s: Seq<char>, strs: Seq<Seq<char>>)
    ensures
        jget(result, "contents"@) == Some(Json::Str(s)) ==> hover_text(result) == s,
        (jget(result, "contents"@) matches Some(c) && jget(c, "value"@) == Some(Json::Str(s)))
            ==> hover_text(result) == s,
        jget(result, "contents"@) == Some(Json::Array(Seq::new(strs.len(), |i: int| Json::Str(strs[i]))))
            ==> hover_text(result) == joined(strs, "\n"@),
        jget(result, "contents"@) is None ==> hover_text(result) == "No hover information available"@,
{
    let items = Seq::new(strs.len(), |i: int| Json::Str(strs[i]));
    lemma_hover_parts_of_strings(items, strs);
}

/// The parts of an array of plain marked strings are those strings.
proof fn lemma_hover_parts_of_strings(items: Seq<Json>, strs: Seq<Seq<char>>)
    requires
        items == Seq::new(strs.len(), |i: int| Json::Str(strs[i])),
    ensures
        hover_parts(items) == strs,
    decreases strs.len(),
{
    if strs.len() > 0 {
        let shorter = strs.drop_last();
        assert(items.drop_last() =~= Seq::new(shorter.len(), |i: int| Json::Str(shorter[i])));
        lemma_hover_parts_of_strings(items.drop_last(), shorter);
        assert(hover_part(items.last()) == Some(strs.last()));
        assert(strs =~= shorter + seq![strs.last()]);
    } else {
        assert(strs =~= Seq::<Seq<char>>::empty());
    }
}


/// The name a symbol kind is shown with: the LSP name of the kinds a symbol
/// answer usually holds, else "Symbol".
pub open spec fn kind_label(kind: u64) -> Seq<char> {
    if kind == 5 { "Class"@ } else if kind == 6 { "Method"@ } else if kind == 9 { "Constructor"@ }
    else if kind == 10 { "Enum"@ } else if kind == 11 { "Interface"@ } else if kind == 12 { "Function"@ }
    else if kind == 13 { "Variable"@ } else if kind == 14 { "Constant"@ } else if kind == 22 { "EnumMember"@ }
    else if kind == 23 { "Struct"@ } else if kind == 24 { "Event"@ } else if kind == 25 { "Operator"@ }
    else if kind == 26 { "TypeParameter"@ } else { "Symbol"@ }
}

/// The name a symbol kind is shown with.
fn kind_name(kind: u64) -> (r: &'static str)
    ensures
        r@ == kind_label(kind),
{
    if kind == 5 { "Class" } else if kind == 6 { "Method" } else if kind == 9 { "Constructor" }
    else if kind == 10 { "Enum" } else if kind == 11 { "Interface" } else if kind == 12 { "Function" }
    else if kind == 13 { "Variable" } else if kind == 14 { "Constant" } else if kind == 22 { "EnumMember" }
    else if kind == 23 { "Struct" } else if kind == 24 { "Event" } else if kind == 25 { "Operator" }
    else if kind == 26 { "TypeParameter" } else { "Symbol" }
}

/// A workspace symbol is shown with the LSP name of its kind number: 5 Class,
/// 6 Method, 9 Constructor, 10 Enum, 11 Interface, 12 Function, 13 Variable,
/// 14 Constant, 22 EnumMember, 23 Struct, 24 Event, 25 Operator,
/// 26 TypeParameter; every other number (or a missing kind) shows as Symbol.
pub proof fn lemma_symbol_kind_labels(kind: u64)
    ensures
        kind == 5 ==> kind_label(kind) == "Class"@,
        kind == 6 ==> kind_label(kind) == "Method"@,
        kind == 9 ==> kind_label(kind) == "Constructor"@,
        kind == 10 ==> kind_label(kind) == "Enum"@,
        kind == 11 ==> kind_label(kind) == "Interface"@,
        kind == 12 ==> kind_label(kind) == "Function"@,
        kind == 13 ==> kind_label(kind) == "Variable"@,
        kind == 14 ==> kind_label(kind) == "Constant"@,
        kind == 22 ==> kind_label(kind) == "EnumMember"@,
        kind == 23 ==> kind_label(kind) == "Struct"@,
        kind == 24 ==> kind_label(kind) == "Event"@,
        kind == 25 ==> kind_label(kind) == "Operator"@,
        kind == 26 ==> kind_label(kind) == "TypeParameter"@,
        (kind != 5 && kind != 6 && kind != 9 && kind != 10 && kind != 11 && kind != 12 && kind != 13 && kind != 14 && kind != 22 && kind != 23 && kind != 24 && kind != 25 && kind != 26) ==> kind_label(kind) == "Symbol"@,
{
}

/// The 0-based line of a symbol's location, 0 when absent.
pub open spec fn symbol_line(sym: Json) -> u64 {
    or_default(ou64(oget(oget(oget(jget(sym, "location"@), "range"@), "start"@), "line"@)), 0)
}

/// The file path of a symbol's location; empty when there is no `file://` URI.
pub open spec fn symbol_path(sym: Json) -> Seq<char> {
    match ostr(oget(jget(sym, "location"@), "uri"@)) {
        Some(u) => or_default(spec_server_uri_to_path(u), Seq::empty()),
        None => Seq::empty(),
    }
}

/// The line shown for one symbol: `name (Kind) @ path:line`, 1-based.
pub open spec fn symbol_entry(sym: Json) -> Seq<char> {
    or_default(jstr(or_default(jget(sym, "name"@), Json::Null)), "unknown"@) + " ("@
        + kind_label(or_default(ju64(or_default(jget(sym, "kind"@), Json::Null)), 0)) + ") @ "@
        + symbol_path(sym) + ":"@ + decimal((symbol_line(sym) + 1) as nat)
}

/// A workspace symbol is shown as its name, its kind's name in brackets, then
/// the path of its file and its line counted from 1: a symbol `n` of kind `k`
/// at `file://p`, line `l` (counted from 0), reads `n (Kind) @ p:l+1`.
pub proof fn lemma_symbol_entry_shows_location(sym: Json, n: Seq<char>, k: u64, p: Seq<char>)
    requires
        jget(sym, "name"@) == Some(Json::Str(n)),
        ju64(or_default(jget(sym, "kind"@), Json::Null)) == Some(k),
        ostr(oget(jget(sym, "location"@), "uri"@)) == Some("file://"@ + p),
        !(p.len() >= 3 && p[0] == '/' && is_ascii_alpha(p[1]) && p[2] == ':'),
    ensures
        symbol_entry(sym) == n + " ("@ + kind_label(k) + ") @ "@ + p + ":"@ + decimal((symbol_line(sym) + 1) as nat),
        has_prefix(symbol_entry(sym), n),
{
    lemma_file_uri_shows_path(p);
    let e = n + " ("@ + kind_label(k) + ") @ "@ + p + ":"@ + decimal((symbol_line(sym) + 1) as nat);
    assert(e.take(n.len() as int) =~= n);
}

/// Every symbol's line is below the top of the `u64` range.
pub open spec fn symbols_fit(result: Json) -> bool {
    match jarray(result) {
        Some(a) => forall|i: int| 0 <= i < a.len() ==> symbol_line(#[trigger] a[i]) < u64::MAX,
        None => true,
    }
}

/// The text of a workspace-symbols answer.
pub open spec fn symbols_text(result: Json) -> Seq<char> {
    match jarray(result) {
        Some(a) if a.len() > 0 =>
            "Found "@ + decimal(a.len()) + " symbols:\n"@ + joined(Seq::new(a.len(), |i: int| symbol_entry(a[i])), "\n"@),
        _ => "No symbols found"@,
    }
}

/// The `u64` at `v[key]`.
fn u64_member(v: &JsonValue, key: &str) -> (r: Option<u64>)
    ensures
        r == ju64(or_default(jget(v@, key@), Json::Null)),
{
    match v.get(key) {
        Some(x) => x.as_u64(),
        None => None,
    }
}

/// The line shown for one symbol.
fn render_symbol(sym: &JsonValue) -> (r: String)
    requires
        symbol_line(sym@) < u64::MAX,
    ensures
        r@ == symbol_entry(sym@),
{
    let name = match str_member(sym, "name") {
        Some(n) => n,
        None => "unknown",
    };
    let kind = match u64_member(sym, "kind") {
        Some(k) => k,
        None => 0,
    };
    let kind_name = kind_name(kind);
    let location = sym.get("location");
    let uri = match get_path(location, "uri") {
        Some(u) => u.as_str(),
        None => None,
    };
    let path = match uri {
        Some(u) => match McpServer::uri_to_path(u) {
            Some(p) => p,
            None => String::new(),
        },
        None => String::new(),
    };
    let line = match get_path(get_path(get_path(location, "range"), "start"), "line") {
        Some(l) => match l.as_u64() {
            Some(n) => n,
            None => 0,
        },
        None => 0,
    };
    let num = decimal_string(line + 1);
    let a = concat(name, " (");
    let b = concat(a.as_str(), kind_name);
    let c = concat(b.as_str(), ") @ ");
    let d = concat(c.as_str(), path.as_str());
    let e = concat(d.as_str(), ":");
    concat(e.as_str(), num.as_str())
}

/// Whether every symbol of a workspace-symbols answer has a line below the top
/// of the `u64` range (what the symbol renderers need).
pub fn symbols_in_range(result: &JsonValue) -> (r: bool)
    ensures
        r == symbols_fit(result@),
{
    match result.as_array() {
        Some(arr) => {
            proof { lemma_elems_view(arr@); }
            let ghost av = elems_view(arr@);
            let mut i: usize = 0;
            while i < arr.len()
                invariant
                    i <= arr@.len(),
                    av == elems_view(arr@),
                    av.len() == arr@.len(),
                    jarray(result@) == Some(av),
                    forall|j: int| 0 <= j < arr@.len() ==> #[trigger] av[j] == arr@[j]@,
                    forall|j: int| 0 <= j < i ==> symbol_line(#[trigger] av[j]) < u64::MAX,
                decreases arr@.len() - i,
            {
                let location = arr[i].get("location");
                let line = match get_path(get_path(get_path(location, "range"), "start"), "line") {
                    Some(l) => match l.as_u64() {
                        Some(n) => n,
                        None => 0,
                    },
                    None => 0,
                };
                assert(line == symbol_line(av[i as int]));
                if line == u64::MAX {
                    assert(!symbols_fit(result@)) by {
                        let a = jarray(result@)->Some_0;
                        assert(a == av);
                        assert(symbol_line(a[i as int]) >= u64::MAX);
                    }
                    return false;
                }
                i += 1;
            }
            true
        },
        None => true,
    }
}

/// Render a workspace-symbols answer: `name (Kind) @ path:line` per symbol,
/// lines 1-based.
pub fn render_symbols(result: &JsonValue) -> (r: JsonValue)
    requires
        symbols_fit(result@),
    ensures
        r@ == text_content(symbols_text(result@)),
{
    match result.as_array() {
        Some(arr) => {
            proof { lemma_elems_view(arr@); }
            let ghost av = elems_view(arr@);
            if arr.len() == 0 {
                return text_result("No symbols found");
            }
            let mut parts: Vec<String> = Vec::new();
            let mut i: usize = 0;
            while i < arr.len()
                invariant
                    i <= arr@.len(),
                    av == elems_view(arr@),
                    av.len() == arr@.len(),
                    forall|j: int| 0 <= j < arr@.len() ==> #[trigger] av[j] == arr@[j]@,
                    forall|j: int| 0 <= j < av.len() ==> symbol_line(#[trigger] av[j]) < u64::MAX,
                    parts@.len() == i,
                    forall|j: int| 0 <= j < i ==> #[trigger] parts@[j]@ == symbol_entry(av[j]),
                decreases arr@.len() - i,
            {
                assert(symbol_line(av[i as int]) < u64::MAX);
                parts.push(render_symbol(&arr[i]));
                i += 1;
            }
            assert(views(parts@) =~= Seq::new(av.len(), |i: int| symbol_entry(av[i])));
            let t = found_text(" symbols:\n", &parts);
            text_result(t.as_str())
        },
        None => text_result("No symbols found"),
    }
}

/// Render a workspace-symbols answer.
pub fn parse_symbols_result(result: &JsonValue) -> (r: Result<JsonValue, String>)
    requires
        symbols_fit(result@),
    ensures
        r matches Ok(v) && v@ == text_content(symbols_text(result@)),
{
    Ok(render_symbols(result))
}

/// The name of a diagnostic severity.
pub open spec fn severity_label(severity: u64) -> Seq<char> {
    if severity == 1 { "Error"@ } else if severity == 2 { "Warning"@ } else if severity == 3 { "Info"@ }
    else if severity == 4 { "Hint"@ } else { "Unknown"@ }
}

/// The line shown for one diagnostic: `[Severity] message`.
pub open spec fn diagnostic_entry(d: Json) -> Seq<char> {
    "["@ + severity_label(or_default(ju64(or_default(jget(d, "severity"@), Json::Null)), 1)) + "] "@
        + or_default(jstr(or_default(jget(d, "message"@), Json::Null)), "Unknown"@)
}

/// A diagnostic is shown as its severity's LSP name in brackets, then its
/// message: 1 Error, 2 Warning, 3 Info, 4 Hint, any other number Unknown; a
/// diagnostic without a severity counts as an error, one without a message
/// shows "Unknown".
pub proof fn lemma_diagnostic_severity_names(d: Json, severity: u64, message: Seq<char>)
    requires
        severity == or_default(ju64(or_default(jget(d, "severity"@), Json::Null)), 1),
        message == or_default(jstr(or_default(jget(d, "message"@), Json::Null)), "Unknown"@),
    ensures
        severity == 1 ==> diagnostic_entry(d) == "[Error] "@ + message,
        severity == 2 ==> diagnostic_entry(d) == "[Warning] "@ + message,
        severity == 3 ==> diagnostic_entry(d) == "[Info] "@ + message,
        severity == 4 ==> diagnostic_entry(d) == "[Hint] "@ + message,
        severity > 4 || severity == 0 ==> diagnostic_entry(d) == "[Unknown] "@ + message,
{
    reveal_strlit("[");
    reveal_strlit("] ");
    reveal_strlit("Error");
    reveal_strlit("Warning");
    reveal_strlit("Info");
    reveal_strlit("Hint");
    reveal_strlit("Unknown");
    reveal_strlit("[Error] ");
    reveal_strlit("[Warning] ");
    reveal_strlit("[Info] ");
    reveal_strlit("[Hint] ");
    reveal_strlit("[Unknown] ");
    assert("["@ + "Error"@ + "] "@ =~= "[Error] "@);
    assert("["@ + "Warning"@ + "] "@ =~= "[Warning] "@);
    assert("["@ + "Info"@ + "] "@ =~= "[Info] "@);
    assert("["@ + "Hint"@ + "] "@ =~= "[Hint] "@);
    assert("["@ + "Unknown"@ + "] "@ =~= "[Unknown] "@);
}

/// The text of a diagnostics answer.
pub open spec fn diagnostics_text(ds: Seq<Json>) -> Seq<char> {
    if ds.len() == 0 {
        "No diagnostics available for this file"@
    } else {
        "Found "@ + decimal(ds.len()) + " diagnostics:\n"@ + joined(Seq::new(ds.len(), |i: int| diagnostic_entry(ds[i])), "\n"@)
    }
}

/// The heading of a list answer counts the entries shown under it, one per
/// line: `Found n symbols:` over the `n` symbols, `Found n diagnostics:` over
/// the `n` diagnostics, `Found n references:` over the `n` references that
/// name a file; an answer with nothing to list says so instead.
pub proof fn lemma_answer_headings_count_entries(syms: Seq<Json>, ds: Seq<Json>, locs: Seq<Json>)
    ensures
        syms.len() > 0 ==> symbols_text(Json::Array(syms)) == "Found "@ + decimal(syms.len()) + " symbols:\n"@
            + joined(Seq::new(syms.len(), |i: int| symbol_entry(syms[i])), "\n"@),
        syms.len() == 0 ==> symbols_text(Json::Array(syms)) == "No symbols found"@,
        ds.len() > 0 ==> diagnostics_text(ds) == "Found "@ + decimal(ds.len()) + " diagnostics:\n"@
            + joined(Seq::new(ds.len(), |i: int| diagnostic_entry(ds[i])), "\n"@),
        ds.len() == 0 ==> diagnostics_text(ds) == "No diagnostics available for this file"@,
        reference_lines(locs).len() > 0 ==> references_text(Json::Array(locs)) == "Found "@
            + decimal(reference_lines(locs).len()) + " references:\n"@ + joined(reference_lines(locs), "\n"@),
        reference_lines(locs).len() == 0 ==> references_text(Json::Array(locs)) == "No references found"@,
        (forall|i: int| 0 <= i < locs.len() ==> (#[trigger] jget(locs[i], "uri"@)) matches Some(Json::Str(_)))
            ==> reference_lines(locs).len() == locs.len(),
{
    lemma_reference_lines_len(locs);
}

/// Every location whose URI is a string gives one reference line.
proof fn lemma_reference_lines_len(locs: Seq<Json>)
    ensures
        (forall|i: int| 0 <= i < locs.len() ==> (#[trigger] jget(locs[i], "uri"@)) matches Some(Json::Str(_)))
            ==> reference_lines(locs).len() == locs.len(),
    decreases locs.len(),
{
    if locs.len() > 0 {
        lemma_reference_lines_len(locs.drop_last());
        if forall|i: int| 0 <= i < locs.len() ==> (#[trigger] jget(locs[i], "uri"@)) matches Some(Json::Str(_)) {
            assert forall|i: int| 0 <= i < locs.drop_last().len() implies (#[trigger] jget(locs.drop_last()[i], "uri"@)) matches Some(Json::Str(_)) by {
                assert(locs.drop_last()[i] == locs[i]);
            }
            assert(jget(locs[locs.len() - 1], "uri"@) matches Some(Json::Str(_)));
        }
    }
}

/// Render the cached diagnostics of a file.
pub fn render_diagnostics(diagnostics: &Vec<JsonValue>) -> (r: JsonValue)
    ensures
        r@ == text_content(diagnostics_text(elems_view(diagnostics@))),
{
    proof { lemma_elems_view(diagnostics@); }
    let ghost dv = elems_view(diagnostics@);
    if diagnostics.len() == 0 {
        return text_result("No diagnostics available for this file");
    }
    let mut parts: Vec<String> = Vec::new();
    let mut i: usize = 0;
    while i < diagnostics.len()
        invariant
            i <= diagnostics@.len(),
            dv == elems_view(diagnostics@),
            dv.len() == diagnostics@.len(),
            forall|j: int| 0 <= j < diagnostics@.len() ==> #[trigger] dv[j] == diagnostics@[j]@,
            parts@.len() == i,
            forall|j: int| 0 <= j < i ==> #[trigger] parts@[j]@ == diagnostic_entry(dv[j]),
        decreases diagnostics@.len() - i,
    {
        let d = &diagnostics[i];
        let message = match str_member(d, "message") {
            Some(m) => m,
            None => "Unknown",
        };
        let severity = match u64_member(d, "severity") {
            Some(s) => s,
            None => 1,
        };
        let label = if severity == 1 { "Error" } else if severity == 2 { "Warning" } else if severity == 3 { "Info" }
            else if severity == 4 { "Hint" } else { "Unknown" };
        let a = concat("[", label);
        let b = concat(a.as_str(), "] ");
        parts.push(concat(b.as_str(), message));
        i += 1;
    }
    assert(views(parts@) =~= Seq::new(dv.len(), |i: int| diagnostic_entry(dv[i])));
    let t = found_text(" diagnostics:\n", &parts);
    text_result(t.as_str())
}

/// The line shown for a hybrid symbol result.
pub open spec fn hybrid_symbol_line(s: SymbolResult) -> Seq<char> {
    let desc = match s.description { Some(d) => d@, None => Seq::empty() };
    let base = s.name@ + " ("@ + s.kind@ + ") @ "@ + s.file@ + ":"@ + decimal(s.line as nat);
    if desc.len() == 0 { base } else { base + " - "@ + desc }
}

/// The line shown for a hybrid text result.
pub open spec fn hybrid_text_line(t: TextResult) -> Seq<char> {
    t.file@ + ":"@ + decimal(t.line as nat) + " | "@ + trimmed(t.content@)
}

/// The lines of a hybrid search answer: a symbols section, then (after a blank
/// line when both are present) a text matches section.
pub open spec fn hybrid_lines(r: HybridResult) -> Seq<Seq<char>> {
    let syms = r.symbol_results@;
    let texts = r.text_results@;
    let sym_part = if syms.len() > 0 {
        seq!["=== Symbols ("@ + decimal(syms.len()) + " found) ==="@]
            + Seq::new(syms.len(), |i: int| hybrid_symbol_line(syms[i]))
    } else {
        Seq::empty()
    };
    let text_part = if texts.len() > 0 {
        (if sym_part.len() > 0 { seq![Seq::<char>::empty()] } else { Seq::empty() })
            + seq!["=== Text Matches ("@ + decimal(texts.len()) + " found) ==="@]
            + Seq::new(texts.len(), |i: int| hybrid_text_line(texts[i]))
    } else {
        Seq::empty()
    };
    sym_part + text_part
}

/// The text of a hybrid search answer.
pub open spec fn hybrid_text(r: HybridResult) -> Seq<char> {
    if hybrid_lines(r).len() == 0 { "No results found"@ } else { joined(hybrid_lines(r), "\n"@) }
}

/// A hybrid answer lists the symbols before the text matches: with `n`
/// symbols, line 0 is the symbols heading with `n` and lines 1 to `n` the
/// symbols in order; the text matches follow under their own heading, after a
/// blank line when there were symbols; with neither, the answer says that
/// nothing was found.
pub proof fn lemma_hybrid_symbols_before_text(r: HybridResult)
    ensures
        ({
            let syms = r.symbol_results@;
            let texts = r.text_results@;
            let n = syms.len() as int;
            let m = texts.len() as int;
            let ls = hybrid_lines(r);
            let t0 = if n > 0 { n + 2 } else { 0 };
            &&& ls.len() == (if n > 0 { n + 1 } else { 0 }) + (if n > 0 && m > 0 { 1int } else { 0 }) + (if m > 0 { m + 1 } else { 0 })
            &&& n > 0 ==> ls[0] == "=== Symbols ("@ + decimal(n as nat) + " found) ==="@
            &&& forall|i: int| 0 <= i < n ==> ls[1 + i] == hybrid_symbol_line(#[trigger] syms[i])
            &&& n > 0 && m > 0 ==> ls[n + 1] == Seq::<char>::empty()
            &&& m > 0 ==> ls[t0] == "=== Text Matches ("@ + decimal(m as nat) + " found) ==="@
            &&& forall|j: int| 0 <= j < m ==> ls[t0 + 1 + j] == hybrid_text_line(#[trigger] texts[j])
            &&& n == 0 && m == 0 ==> hybrid_text(r) == "No results found"@
        }),
{
}

/// A section heading `{opening}{n} found) ===`, as in `=== Symbols (3 found) ===`.
fn section_heading(opening: &str, n: usize) -> (r: String)
    ensures
        r@ == opening@ + decimal(n as nat) + " found) ==="@,
{
    let c = decimal_string(n as u64);
    let d = concat(opening, c.as_str());
    concat(d.as_str(), " found) ===")
}

/// Render a hybrid search result.
pub fn parse_hybrid_result(result: &HybridResult) -> (r: Result<JsonValue, String>)
    ensures
        r matches Ok(v) && v@ == text_content(hybrid_text(*result)),
{
    let mut lines: Vec<String> = Vec::new();
    let syms = &result.symbol_results;
    let texts = &result.text_results;
    if syms.len() > 0 {
        lines.push(section_heading("=== Symbols (", syms.len()));
        let mut i: usize = 0;
        while i < syms.len()
            invariant
                i <= syms@.len(),
                syms@.len() > 0,
                lines@.len() == i + 1,
                lines@[0]@ == "=== Symbols ("@ + decimal(syms@.len()) + " found) ==="@,
                forall|j: int| 0 <= j < i ==> #[trigger] lines@[j + 1]@ == hybrid_symbol_line(syms@[j]),
            decreases syms@.len() - i,
        {
            proof { reveal_strlit(""); }
            let s = &syms[i];
            let a = concat(s.name.as_str(), " (");
            let b = concat(a.as_str(), s.kind.as_str());
            let c = concat(b.as_str(), ") @ ");
            let d = concat(c.as_str(), s.file.as_str());
            let e = concat(d.as_str(), ":");
            let n = decimal_string(s.line as u64);
            let base = concat(e.as_str(), n.as_str());
            let desc: &str = match &s.description {
                Some(d) => d.as_str(),
                None => "",
            };
            let line = if desc.is_empty() {
                base
            } else {
                let f = concat(base.as_str(), " - ");
                concat(f.as_str(), desc)
            };
            assert(base@ == s.name@ + " ("@ + s.kind@ + ") @ "@ + s.file@ + ":"@ + decimal(s.line as nat));
            assert(desc@ == match s.description { Some(d) => d@, None => Seq::<char>::empty() });
            assert(line@ == hybrid_symbol_line(syms@[i as int]));
            let ghost prev = lines@;
            lines.push(line);
            assert(forall|j: int| 0 <= j < i ==> #[trigger] lines@[j + 1] == prev[j + 1]);
            i += 1;
        }
    }
    let ghost sym_lines = lines@;
    let ghost sym_part = if syms@.len() > 0 {
        seq!["=== Symbols ("@ + decimal(syms@.len()) + " found) ==="@]
            + Seq::new(syms@.len(), |i: int| hybrid_symbol_line(syms@[i]))
    } else {
        Seq::empty()
    };
    assert(views(sym_lines) =~= sym_part) by {
        if syms@.len() > 0 {
            assert forall|j: int| 0 <= j < sym_part.len() implies views(sym_lines)[j] == sym_part[j] by {
                if j > 0 {
                    let k = j - 1;
                    assert(sym_lines[k + 1]@ == hybrid_symbol_line(syms@[k]));
                }
            }
        }
    }
    if texts.len() > 0 {
        if lines.len() > 0 {
            let blank = String::new();
            proof { reveal_strlit(""); }
            lines.push(blank);
        }
        lines.push(section_heading("=== Text Matches (", texts.len()));
        let ghost head = lines@;
        let ghost text_pre = (if sym_part.len() > 0 { seq![Seq::<char>::empty()] } else { Seq::empty() })
            + seq!["=== Text Matches ("@ + decimal(texts@.len()) + " found) ==="@];
        assert(views(head) =~= sym_part + text_pre);
        let mut i: usize = 0;
        while i < texts.len()
            invariant
                i <= texts@.len(),
                lines@.len() == head.len() + i,
                lines@.take(head.len() as int) == head,
                forall|j: int| 0 <= j < i ==> #[trigger] lines@[head.len() + j]@ == hybrid_text_line(texts@[j]),
            decreases texts@.len() - i,
        {
            let t = &texts[i];
            let a = concat(t.file.as_str(), ":");
            let n = decimal_string(t.line as u64);
            let b = concat(a.as_str(), n.as_str());
            let c = concat(b.as_str(), " | ");
            let tc = trim(t.content.as_str());
            let ghost prev = lines@;
            lines.push(concat(c.as_str(), tc.as_str()));
            assert(lines@.take(head.len() as int) =~= head);
            assert(forall|j: int| 0 <= j < i ==> #[trigger] lines@[head.len() + j] == prev[head.len() + j]);
            i += 1;
        }
        proof {
            let tail = Seq::new(texts@.len(), |k: int| hybrid_text_line(texts@[k]));
            let whole = sym_part + text_pre + tail;
            assert forall|j: int| 0 <= j < whole.len() implies views(lines@)[j] == whole[j] by {
                if j < head.len() {
                    assert(lines@[j] == lines@.take(head.len() as int)[j]);
                } else {
                    let k = j - head.len();
                    assert(lines@[head.len() + k]@ == hybrid_text_line(texts@[k]));
                }
            }
            assert(views(lines@) =~= whole);
            assert(text_pre + tail =~= (if sym_part.len() > 0 { seq![Seq::<char>::empty()] } else { Seq::empty() })
                + seq!["=== Text Matches ("@ + decimal(texts@.len()) + " found) ==="@]
                + Seq::new(texts@.len(), |i: int| hybrid_text_line(texts@[i])));
            assert(whole =~= sym_part + (text_pre + tail));
        }
    }
    assert(views(lines@) =~= hybrid_lines(*result));
    if lines.len() == 0 {
        return Ok(text_result("No results found"));
    }
    let t = join(&lines, "\n");
    Ok(text_result(t.as_str()))
}

/// The tool call a request asks for, with its arguments read.
pub enum ToolCall {
    GotoDefinition { file_path: String, line: u32, character: u32, all_implementations: bool },
    FindReferences { file_path: String, line: u32, character: u32 },
    Hover { file_path: String, line: u32, character: u32 },
    WorkspaceSymbols { query: String },
    GetDiagnostics { file_path: String },
    HybridSearch(HybridSearchOptions),
}

/// The strings among the elements of an array (`filter_map(as_str)`).
pub open spec fn string_elems(a: Seq<Json>) -> Seq<Seq<char>>
    decreases a.len(),
{
    if a.len() == 0 {
        Seq::empty()
    } else {
        string_elems(a.drop_last()) + opt_seq(jstr(a.last()))
    }
}

/// `c` is the tool call that `tool_name` with `args` plans (on either server).
pub open spec fn planned(tool_name: Seq<char>, args: Json, c: ToolCall) -> bool {
    let fp = arg_str(args, "file_path"@);
    let line = arg_u64(args, "line"@, 0) as u32;
    let ch = arg_u64(args, "character"@, 0) as u32;
    if tool_name == "lsp_goto_definition"@ {
        c matches ToolCall::GotoDefinition { file_path, line: l, character, all_implementations }
            && file_path@ == fp && l == line && character == ch
            && all_implementations == arg_bool(args, "all_implementations"@, false)
    } else if tool_name == "lsp_find_references"@ {
        c matches ToolCall::FindReferences { file_path, line: l, character }
            && file_path@ == fp && l == line && character == ch
    } else if tool_name == "lsp_hover"@ {
        c matches ToolCall::Hover { file_path, line: l, character }
            && file_path@ == fp && l == line && character == ch
    } else if tool_name == "lsp_workspace_symbols"@ {
        c matches ToolCall::WorkspaceSymbols { query } && query@ == arg_str(args, "query"@)
    } else if tool_name == "lsp_get_diagnostics"@ {
        c matches ToolCall::GetDiagnostics { file_path } && file_path@ == fp
    } else if tool_name == "lsp_hybrid_search"@ {
        c matches ToolCall::HybridSearch(o) && {
            &&& o.query@ == arg_str(args, "query"@)
            &&& o.include_symbols == arg_bool(args, "include_symbols"@, true)
            &&& o.include_text == arg_bool(args, "include_text"@, true)
            &&& o.max_results == arg_u64(args, "max_results"@, 10) as usize
            &&& match jarray(jindex(args, "file_types"@)) {
                Some(a) => o.file_types matches Some(v) && views(v@) == string_elems(a),
                None => o.file_types is None,
            }
        }
    } else {
        false
    }
}

/// The tool names a server knows.
pub open spec fn known_tool(tool_name: Seq<char>) -> bool {
    tool_name == "lsp_goto_definition"@ || tool_name == "lsp_find_references"@ || tool_name == "lsp_hover"@
        || tool_name == "lsp_workspace_symbols"@ || tool_name == "lsp_get_diagnostics"@
        || tool_name == "lsp_hybrid_search"@
}

/// Every tool that `tools/list` offers is one that a tool call plans (on
/// either server), so no listed tool is answered with "Unknown tool".
pub proof fn lemma_listed_tools_are_known(i: int)
    requires
        0 <= i < lsp_tool_defs().push(hybrid_tool_def()).len(),
    ensures
        ({
            let def = lsp_tool_defs().push(hybrid_tool_def())[i];
            jstr(jindex(def, "name"@)) matches Some(n) && known_tool(n)
        }),
{
    reveal_strlit("name");
    let defs = lsp_tool_defs().push(hybrid_tool_def());
    assert(defs.len() == 6);
}

/// The position arguments of a call.
fn position_args(arguments: &JsonValue) -> (r: (String, u32, u32))
    ensures
        r.0@ == arg_str(arguments@, "file_path"@),
        r.1 == arg_u64(arguments@, "line"@, 0) as u32,
        r.2 == arg_u64(arguments@, "character"@, 0) as u32,
{
    (String::from_str(arguments.str_arg("file_path")), arguments.u64_arg("line", 0) as u32,
        arguments.u64_arg("character", 0) as u32)
}

/// Plan a tool call: refused while no LSP client is ready, refused for an
/// unknown tool, else the call with its arguments read (missing ones default).
pub fn plan_tool_call(client_ready: bool, tool_name: &str, arguments: &JsonValue) -> (r: Result<ToolCall, String>)
    ensures
        !client_ready ==> r == Err::<ToolCall, String>(r->Err_0) && (r->Err_0)@ == "LSP client not initialized"@,
        client_ready && known_tool(tool_name@) ==> (r matches Ok(c) && planned(tool_name@, arguments@, c)),
        client_ready && !known_tool(tool_name@) ==> (r matches Err(e) && e@ == "Unknown tool: "@ + tool_name@),
{
    if !client_ready {
        return Err(String::from_str("LSP client not initialized"));
    }
    if str_eq(tool_name, "lsp_goto_definition") {
        let (file_path, line, character) = position_args(arguments);
        let all_implementations = arguments.bool_arg("all_implementations", false);
        Ok(ToolCall::GotoDefinition { file_path, line, character, all_implementations })
    } else if str_eq(tool_name, "lsp_find_references") {
        let (file_path, line, character) = position_args(arguments);
        Ok(ToolCall::FindReferences { file_path, line, character })
    } else if str_eq(tool_name, "lsp_hover") {
        let (file_path, line, character) = position_args(arguments);
        Ok(ToolCall::Hover { file_path, line, character })
    } else if str_eq(tool_name, "lsp_workspace_symbols") {
        Ok(ToolCall::WorkspaceSymbols { query: String::from_str(arguments.str_arg("query")) })
    } else if str_eq(tool_name, "lsp_get_diagnostics") {
        Ok(ToolCall::GetDiagnostics { file_path: String::from_str(arguments.str_arg("file_path")) })
    } else if str_eq(tool_name, "lsp_hybrid_search") {
        let query = String::from_str(arguments.str_arg("query"));
        let include_symbols = arguments.bool_arg("include_symbols", true);
        let include_text = arguments.bool_arg("include_text", true);
        let max_results = arguments.u64_arg("max_results", 10) as usize;
        let ft = arguments.get("file_types");
        let file_types = match ft {
            Some(x) => match x.as_array() {
                Some(arr) => {
                    proof { lemma_elems_view(arr@); }
                    let ghost av = elems_view(arr@);
                    let mut v: Vec<String> = Vec::new();
                    let mut i: usize = 0;
                    assert(av.take(0) =~= Seq::<Json>::empty());
                    while i < arr.len()
                        invariant
                            i <= arr@.len(),
                            av == elems_view(arr@),
                            av.len() == arr@.len(),
                            forall|j: int| 0 <= j < arr@.len() ==> #[trigger] av[j] == arr@[j]@,
                            views(v@) == string_elems(av.take(i as int)),
                        decreases arr@.len() - i,
                    {
                        assert(av.take(i + 1).drop_last() =~= av.take(i as int));
                        assert(av.take(i + 1).last() == arr@[i as int]@);
                        let ghost before = v@;
                        if let Some(s) = arr[i].as_str() {
                            v.push(String::from_str(s));
                        }
                        assert(views(v@) =~= views(before) + opt_seq(jstr(arr@[i as int]@)));
                        i += 1;
                    }
                    assert(av.take(arr@.len() as int) =~= av);
                    Some(v)
                },
                None => None,
            },
            None => None,
        };
        Ok(ToolCall::HybridSearch(HybridSearchOptions { query, include_symbols, include_text, file_types, max_results }))
    } else {
        Err(concat("Unknown tool: ", tool_name))
    }
}

/// What the server does with a request: answer at once, or run a tool and
/// answer with its outcome.
pub enum RequestStep {
    Reply(McpResponse),
    CallTool { id: i64, name: String, arguments: JsonValue },
}

/// The `initialize` result.
pub open spec fn initialize_json(name: Seq<char>, version: Seq<char>) -> Json {
    Json::Object(seq![
        ("protocolVersion"@, Json::Str("2024-11-05"@)),
        ("capabilities"@, Json::Object(seq![("tools"@, Json::Object(Seq::empty()))])),
        ("serverInfo"@, Json::Object(seq![("name"@, Json::Str(name)), ("version"@, Json::Str(version))])),
    ])
}

/// The `tools/list` result.
pub open spec fn tools_list_json() -> Json {
    Json::Object(seq![("tools"@, Json::Array(lsp_tool_defs().push(hybrid_tool_def())))])
}

/// A successful response.
pub open spec fn is_result_response(r: McpResponse, id: i64, result: Json) -> bool {
    &&& r.jsonrpc@ == "2.0"@
    &&& r.id == id
    &&& r.error is None
    &&& r.result matches Some(v) && v@ == result
}

/// An error response.
pub open spec fn is_error_response(r: McpResponse, id: i64, code: i64, message: Seq<char>) -> bool {
    &&& r.jsonrpc@ == "2.0"@
    &&& r.id == id
    &&& r.result is None
    &&& r.error matches Some(e) && e.code == code && e.message@ == message && e.data is None
}

/// The parameters of a `tools/call` request, `{}` when absent.
pub open spec fn call_params(request: McpRequest) -> Json {
    or_default(opt_view(request.params), Json::Object(Seq::empty()))
}

/// The step for a request.
pub open spec fn request_step(name: Seq<char>, version: Seq<char>, request: McpRequest, step: RequestStep) -> bool {
    let id = or_default(request.id, 0);
    let m = request.method@;
    if m == "initialize"@ {
        step matches RequestStep::Reply(r) && is_result_response(r, id, initialize_json(name, version))
    } else if m == "initialized"@ {
        step matches RequestStep::Reply(r) && is_result_response(r, id, Json::Object(Seq::empty()))
    } else if m == "tools/list"@ {
        step matches RequestStep::Reply(r) && is_result_response(r, id, tools_list_json())
    } else if m == "tools/call"@ {
        step matches RequestStep::CallTool { id: i, name: n, arguments } && i == id
            && n@ == or_default(jstr(or_default(jget(call_params(request), "name"@), Json::Null)), Seq::empty())
            && arguments@ == or_default(jget(call_params(request), "arguments"@), Json::Object(Seq::empty()))
    } else {
        step matches RequestStep::Reply(r) && is_error_response(r, id, -32601i64, "Method not found: "@ + m)
    }
}

/// Every request is answered under its own id (0 when it has none): a reply
/// given at once carries JSON-RPC "2.0" and exactly one of a result and an
/// error, and a tool call is run for that id.
pub proof fn lemma_request_answered_under_its_id(name: Seq<char>, version: Seq<char>, request: McpRequest, step: RequestStep)
    requires
        request_step(name, version, request, step),
    ensures
        match step {
            RequestStep::Reply(r) => r.id == or_default(request.id, 0) && r.jsonrpc@ == "2.0"@
                && (r.result is Some) != (r.error is Some),
            RequestStep::CallTool { id, .. } => id == or_default(request.id, 0),
        },
{
}

/// A successful response carrying `result`.
pub fn result_response(id: i64, result: JsonValue) -> (r: McpResponse)
    ensures
        is_result_response(r, id, result@),
{
    McpResponse { jsonrpc: String::from_str("2.0"), id, result: Some(result), error: None }
}

/// An error response.
pub fn create_error_response(id: i64, code: i64, message: String) -> (r: McpResponse)
    ensures
        is_error_response(r, id, code, message@),
{
    McpResponse { jsonrpc: String::from_str("2.0"), id, result: None, error: Some(McpError { code, message, data: None }) }
}

/// The `initialize` result for a server called `name`, version `version`.
pub fn initialize_result(name: &str, version: &str) -> (r: JsonValue)
    ensures
        r@ == initialize_json(name@, version@),
{
    let tools: Vec<(String, JsonValue)> = Vec::new();
    let mut caps: Vec<(String, JsonValue)> = Vec::new();
    let tools_v = JsonValue::object(tools);
    caps.push((String::from_str("tools"), tools_v));
    let mut info: Vec<(String, JsonValue)> = Vec::new();
    info.push((String::from_str("name"), JsonValue::string(name)));
    info.push((String::from_str("version"), JsonValue::string(version)));
    let caps_v = JsonValue::object(caps);
    let info_v = JsonValue::object(info);
    let mut m: Vec<(String, JsonValue)> = Vec::new();
    m.push((String::from_str("protocolVersion"), JsonValue::string("2024-11-05")));
    m.push((String::from_str("capabilities"), caps_v));
    m.push((String::from_str("serverInfo"), info_v));
    proof {
        lemma_members_view(tools@);
        lemma_members_view(caps@);
        lemma_members_view(info@);
        lemma_members_view(m@);
        assert(members_view(tools@) =~= Seq::<(Seq<char>, Json)>::empty());
        assert(members_view(caps@) =~= seq![("tools"@, Json::Object(Seq::empty()))]);
        assert(members_view(info@) =~= seq![("name"@, Json::Str(name@)), ("version"@, Json::Str(version@))]);
        assert(members_view(m@) =~= seq![
            ("protocolVersion"@, Json::Str("2024-11-05"@)),
            ("capabilities"@, caps_v@),
            ("serverInfo"@, info_v@),
        ]);
    }
    JsonValue::object(m)
}

/// The `tools/list` result.
pub fn tools_list_result() -> (r: JsonValue)
    ensures
        r@ == tools_list_json(),
{
    let defs = McpTool::definitions();
    let arr = JsonValue::array(defs);
    let mut m: Vec<(String, JsonValue)> = Vec::new();
    m.push((String::from_str("tools"), arr));
    proof {
        lemma_members_view(m@);
        assert(members_view(m@) =~= seq![("tools"@, Json::Array(lsp_tool_defs().push(hybrid_tool_def())))]);
    }
    JsonValue::object(m)
}

/// Route a request for a server called `name`, version `version`.
pub fn route_request(name: &str, version: &str, request: &McpRequest) -> (step: RequestStep)
    ensures
        request_step(name@, version@, *request, step),
{
    proof { reveal_strlit(""); }
    let id = match request.id {
        Some(i) => i,
        None => 0,
    };
    let m = request.method.as_str();
    if str_eq(m, "initialize") {
        RequestStep::Reply(result_response(id, initialize_result(name, version)))
    } else if str_eq(m, "initialized") {
        let empty: Vec<(String, JsonValue)> = Vec::new();
        proof { lemma_members_view(empty@); assert(members_view(empty@) =~= Seq::<(Seq<char>, Json)>::empty()); }
        RequestStep::Reply(result_response(id, JsonValue::object(empty)))
    } else if str_eq(m, "tools/list") {
        RequestStep::Reply(result_response(id, tools_list_result()))
    } else if str_eq(m, "tools/call") {
        let empty: Vec<(String, JsonValue)> = Vec::new();
        proof { lemma_members_view(empty@); assert(members_view(empty@) =~= Seq::<(Seq<char>, Json)>::empty()); }
        let params = match &request.params {
            Some(p) => p.deep_clone(),
            None => JsonValue::object(empty),
        };
        let tool_name = match params.get("name") {
            Some(n) => match n.as_str() {
                Some(s) => String::from_str(s),
                None => String::new(),
            },
            None => String::new(),
        };
        let empty2: Vec<(String, JsonValue)> = Vec::new();
        proof { lemma_members_view(empty2@); assert(members_view(empty2@) =~= Seq::<(Seq<char>, Json)>::empty()); }
        let arguments = match params.get("arguments") {
            Some(a) => a.deep_clone(),
            None => JsonValue::object(empty2),
        };
        RequestStep::CallTool { id, name: tool_name, arguments }
    } else {
        RequestStep::Reply(create_error_response(id, -32601, concat("Method not found: ", m)))
    }
}

/// The MCP server's identity and workspace.
pub struct McpServer {
    /// Server name
    pub name: String,
    /// Server version
    pub version: String,
    /// Workspace root
    pub workspace_root: String,
}

impl Default for McpServer {
    fn default() -> (s: Self)
        ensures
            s.name@ == "lsp-index"@,
            s.version@ == "0.1.0"@,
            s.workspace_root@ == "."@,
    {
        Self::new()
    }
}

impl McpServer {
    /// A server named `lsp-index`, version `0.1.0`, on the workspace `.`.
    pub fn new() -> (s: Self)
        ensures
            s.name@ == "lsp-index"@,
            s.version@ == "0.1.0"@,
            s.workspace_root@ == "."@,
    {
        McpServer {
            name: String::from_str("lsp-index"),
            version: String::from_str("0.1.0"),
            workspace_root: String::from_str("."),
        }
    }

    /// The `initialize` result: protocol version, capabilities, and this server's name and version.
    pub fn handle_initialize(&self) -> (r: JsonValue)
        ensures
            r@ == initialize_json(self.name@, self.version@),
    {
        initialize_result(self.name.as_str(), self.version.as_str())
    }

    /// What to do with a request: answer `initialize`, `initialized` and
    /// `tools/list` at once, run the tool of a `tools/call`, and refuse any other
    /// method with "Method not found" (-32601).
    pub fn handle_request(&self, request: &McpRequest) -> (step: RequestStep)
        ensures
            request_step(self.name@, self.version@, *request, step),
    {
        route_request(self.name.as_str(), self.version.as_str(), request)
    }

    /// The response to a tool call: its result, or its error with code -1.
    pub fn tool_reply(id: i64, outcome: Result<JsonValue, String>) -> (r: McpResponse)
        ensures
            match outcome {
                Ok(v) => is_result_response(r, id, v@),
                Err(e) => is_error_response(r, id, -1i64, e@),
            },
    {
        match outcome {
            Ok(v) => result_response(id, v),
            Err(e) => create_error_response(id, -1, e),
        }
    }

    /// Set the workspace root.
    pub fn set_workspace(&mut self, workspace: String)
        ensures
            final(self).workspace_root == workspace,
            final(self).name == old(self).name,
            final(self).version == old(self).version,
    {
        self.workspace_root = workspace;
    }

    /// Convert a file URI to a path, handling the Windows `file:///d:` form.
    pub fn uri_to_path(uri: &str) -> (r: Option<String>)
        ensures
            match r {
                Some(p) => spec_server_uri_to_path(uri@) == Some(p@),
                None => spec_server_uri_to_path(uri@) is None,
            },
    {
        proof {
            reveal_strlit("file://");
        }
        let w = match strip_prefix(uri, "file://") {
            Some(w) => w,
            None => return None,
        };
        let cs = chars_of(w.as_str());
        if cs.len() >= 3 && cs[0] == '/' && (('a' <= cs[1] && cs[1] <= 'z') || ('A' <= cs[1] && cs[1] <= 'Z'))
            && cs[2] == ':' {
            let rest = string_of(&subvec(&cs, 1, cs.len()));
            assert(rest@ =~= w@.skip(1));
            return Some(rest);
        }
        Some(w)
    }

    /// The locations a definition answer shows, as (path, 0-based line) pairs:
    /// the first three unless `all_implementations`.
    pub fn parse_definition_locations(result: &JsonValue, all_implementations: bool) -> (r: Vec<(String, u32)>)
        ensures
            location_views(r@) == chosen_locations(result@, all_implementations),
    {
        let mut locs: Vec<(String, u32)> = Vec::new();
        if let Some(l) = location_in(result, "uri", "range") {
            locs.push(l);
        }
        if let Some(l) = location_in(result, "targetUri", "targetRange") {
            locs.push(l);
        }
        let ghost head = location_views(locs@);
        assert(head =~= opt_seq(location_at(result@, "uri"@, "range"@))
            + opt_seq(location_at(result@, "targetUri"@, "targetRange"@)));
        if let Some(arr) = result.as_array() {
            proof { lemma_elems_view(arr@); }
            let ghost av = elems_view(arr@);
            let mut i: usize = 0;
            assert(av.take(0) =~= Seq::<Json>::empty());
            while i < arr.len()
                invariant
                    i <= arr@.len(),
                    av == elems_view(arr@),
                    av.len() == arr@.len(),
                    forall|j: int| 0 <= j < arr@.len() ==> #[trigger] av[j] == arr@[j]@,
                    location_views(locs@) == head + array_locations(av.take(i as int)),
                decreases arr@.len() - i,
            {
                let ghost before = locs@;
                assert(av.take(i + 1).drop_last() =~= av.take(i as int));
                assert(av.take(i + 1).last() == arr@[i as int]@);
                let ghost a1 = opt_seq(location_at(arr@[i as int]@, "uri"@, "range"@));
                let ghost a2 = opt_seq(location_at(arr@[i as int]@, "targetUri"@, "targetRange"@));
                if let Some(l) = location_in(&arr[i], "uri", "range") {
                    locs.push(l);
                }
                assert(location_views(locs@) =~= location_views(before) + a1);
                let ghost mid = locs@;
                if let Some(l) = location_in(&arr[i], "targetUri", "targetRange") {
                    locs.push(l);
                }
                assert(location_views(locs@) =~= location_views(mid) + a2);
                assert(array_locations(av.take(i + 1)) == array_locations(av.take(i as int)) + a1 + a2);
                assert(location_views(locs@) =~= head + array_locations(av.take(i + 1)));
                i += 1;
            }
            assert(av.take(arr@.len() as int) =~= av);
        } else {
            assert(location_views(locs@) =~= definition_locations(result@));
        }
        assert(location_views(locs@) =~= definition_locations(result@));
        if !all_implementations && locs.len() > 3 {
            let mut first: Vec<(String, u32)> = Vec::new();
            let mut k: usize = 0;
            while k < 3
                invariant
                    k <= 3 < locs@.len(),
                    first@ =~= locs@.take(k as int),
                decreases 3 - k,
            {
                first.push((locs[k].0.clone(), locs[k].1));
                assert(first@ =~= locs@.take(k + 1));
                k += 1;
            }
            assert(location_views(first@) =~= location_views(locs@).take(3));
            return first;
        }
        locs
    }
}

} // verus!
