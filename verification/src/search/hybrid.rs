//! Hybrid search: LSP workspace symbols merged with text matches, symbols
//! first, within one result limit.

use vstd::prelude::*;
use crate::json::{Json, JsonValue, elems_view, jarray, jget, jstr, ju64, lemma_elems_view, oget, or_default, ostr, ou64};
use crate::mcp::server::{McpServer, location_path};
use crate::search::searcher::{SearchOptions, TextMatch};
use crate::text::str_eq;

verus! {

/// Result of a hybrid search.
pub struct HybridResult {
    pub symbol_results: Vec<SymbolResult>,
    pub text_results: Vec<TextResult>,
}

/// Symbol result from LSP.
pub struct SymbolResult {
    pub name: String,
    pub kind: String,
    pub file: String,
    /// 0-based line, as LSP counts lines
    pub line: u32,
    pub description: Option<String>,
}

/// Text result from text search.
pub struct TextResult {
    pub file: String,
    pub line: u32,
    pub content: String,
}

/// Unified result type for display.
pub enum SearchResult {
    Symbol { name: String, kind: String, location: String },
    TextMatch { content: String, location: String },
}

/// Hybrid search options.
pub struct HybridSearchOptions {
    pub query: String,
    pub include_symbols: bool,
    pub include_text: bool,
    pub file_types: Option<Vec<String>>,
    pub max_results: usize,
}

impl Default for HybridSearchOptions {
    fn default() -> (o: Self)
        ensures
            o.query@ == Seq::<char>::empty(),
            o.include_symbols,
            o.include_text,
            o.file_types is None,
            o.max_results == 10,
    {
        HybridSearchOptions { query: String::new(), include_symbols: true, include_text: true, file_types: None, max_results: 10 }
    }
}

/// The name of an LSP symbol kind number.
pub open spec fn kind_name(kind: u64) -> Seq<char> {
    if kind == 1 { "File"@ } else if kind == 2 { "Module"@ } else if kind == 3 { "Namespace"@ }
    else if kind == 4 { "Package"@ } else if kind == 5 { "Class"@ } else if kind == 6 { "Method"@ }
    else if kind == 7 { "Property"@ } else if kind == 8 { "Field"@ } else if kind == 9 { "Constructor"@ }
    else if kind == 10 { "Enum"@ } else if kind == 11 { "Interface"@ } else if kind == 12 { "Function"@ }
    else if kind == 13 { "Variable"@ } else if kind == 14 { "Constant"@ } else if kind == 15 { "String"@ }
    else if kind == 16 { "Number"@ } else if kind == 17 { "Boolean"@ } else if kind == 18 { "Array"@ }
    else if kind == 19 { "Object"@ } else if kind == 20 { "Key"@ } else if kind == 21 { "Null"@ }
    else if kind == 22 { "EnumMember"@ } else if kind == 23 { "Struct"@ } else if kind == 24 { "Event"@ }
    else if kind == 25 { "Operator"@ } else if kind == 26 { "TypeParameter"@ } else { "Symbol"@ }
}

/// Every LSP symbol kind number names its kind as the protocol does:
/// 1 File, 2 Module, 3 Namespace, 4 Package, 5 Class, 6 Method, 7 Property,
/// 8 Field, 9 Constructor, 10 Enum, 11 Interface, 12 Function, 13 Variable,
/// 14 Constant, 15 String, 16 Number, 17 Boolean, 18 Array, 19 Object, 20 Key,
/// 21 Null, 22 EnumMember, 23 Struct, 24 Event, 25 Operator, 26 TypeParameter;
/// a number outside 1 to 26 names Symbol.
pub proof fn lemma_symbol_kind_names(kind: u64)
    ensures
        kind == 1 ==> kind_name(kind) == "File"@,
        kind == 2 ==> kind_name(kind) == "Module"@,
        kind == 3 ==> kind_name(kind) == "Namespace"@,
        kind == 4 ==> kind_name(kind) == "Package"@,
        kind == 5 ==> kind_name(kind) == "Class"@,
        kind == 6 ==> kind_name(kind) == "Method"@,
        kind == 7 ==> kind_name(kind) == "Property"@,
        kind == 8 ==> kind_name(kind) == "Field"@,
        kind == 9 ==> kind_name(kind) == "Constructor"@,
        kind == 10 ==> kind_name(kind) == "Enum"@,
        kind == 11 ==> kind_name(kind) == "Interface"@,
        kind == 12 ==> kind_name(kind) == "Function"@,
        kind == 13 ==> kind_name(kind) == "Variable"@,
        kind == 14 ==> kind_name(kind) == "Constant"@,
        kind == 15 ==> kind_name(kind) == "String"@,
        kind == 16 ==> kind_name(kind) == "Number"@,
        kind == 17 ==> kind_name(kind) == "Boolean"@,
        kind == 18 ==> kind_name(kind) == "Array"@,
        kind == 19 ==> kind_name(kind) == "Object"@,
        kind == 20 ==> kind_name(kind) == "Key"@,
        kind == 21 ==> kind_name(kind) == "Null"@,
        kind == 22 ==> kind_name(kind) == "EnumMember"@,
        kind == 23 ==> kind_name(kind) == "Struct"@,
        kind == 24 ==> kind_name(kind) == "Event"@,
        kind == 25 ==> kind_name(kind) == "Operator"@,
        kind == 26 ==> kind_name(kind) == "TypeParameter"@,
        kind == 0 || kind > 26 ==> kind_name(kind) == "Symbol"@,
{
}

/// Convert an LSP symbol kind number to its name (`Symbol` for unknown kinds).
pub fn symbol_kind_to_string(kind: u64) -> (r: String)
    ensures
        r@ == kind_name(kind),
{
    let s = if kind == 1 { "File" } else if kind == 2 { "Module" } else if kind == 3 { "Namespace" }
    else if kind == 4 { "Package" } else if kind == 5 { "Class" } else if kind == 6 { "Method" }
    else if kind == 7 { "Property" } else if kind == 8 { "Field" } else if kind == 9 { "Constructor" }
    else if kind == 10 { "Enum" } else if kind == 11 { "Interface" } else if kind == 12 { "Function" }
    else if kind == 13 { "Variable" } else if kind == 14 { "Constant" } else if kind == 15 { "String" }
    else if kind == 16 { "Number" } else if kind == 17 { "Boolean" } else if kind == 18 { "Array" }
    else if kind == 19 { "Object" } else if kind == 20 { "Key" } else if kind == 21 { "Null" }
    else if kind == 22 { "EnumMember" } else if kind == 23 { "Struct" } else if kind == 24 { "Event" }
    else if kind == 25 { "Operator" } else if kind == 26 { "TypeParameter" } else { "Symbol" };
    String::from_str(s)
}

/// The symbol result an entry of a workspace/symbol answer gives (its line as
/// LSP counts lines, from 0).
pub open spec fn symbol_of(sym: Json, s: SymbolResult) -> bool {
    &&& s.name@ == or_default(jstr(or_default(jget(sym, "name"@), Json::Null)), "unknown"@)
    &&& s.kind@ == kind_name(or_default(ju64(or_default(jget(sym, "kind"@), Json::Null)), 0))
    &&& s.file@ == match ostr(oget(jget(sym, "location"@), "uri"@)) {
        Some(u) => location_path(u),
        None => Seq::empty(),
    }
    &&& s.line == or_default(ou64(oget(oget(oget(jget(sym, "location"@), "range"@), "start"@), "line"@)), 0) as u32
    &&& match s.description {
        Some(d) => jstr(or_default(jget(sym, "detail"@), Json::Null)) == Some(d@),
        None => jstr(or_default(jget(sym, "detail"@), Json::Null)) is None,
    }
}

/// `v[k]` through an optional value.
fn member<'a>(v: Option<&'a JsonValue>, key: &str) -> (r: Option<&'a JsonValue>)
    ensures
        match r {
            Some(x) => match v { Some(y) => jget(y@, key@) == Some(x@), None => false },
            None => match v { Some(y) => jget(y@, key@) is None, None => true },
        },
{
    match v {
        Some(y) => y.get(key),
        None => None,
    }
}

/// The symbol result of one entry.
fn parse_symbol(sym: &JsonValue) -> (r: SymbolResult)
    ensures
        symbol_of(sym@, r),
{
    proof { reveal_strlit(""); }
    let name = match member(Some(sym), "name") {
        Some(n) => match n.as_str() {
            Some(s) => String::from_str(s),
            None => String::from_str("unknown"),
        },
        None => String::from_str("unknown"),
    };
    let kind_num = match member(Some(sym), "kind") {
        Some(k) => match k.as_u64() {
            Some(n) => n,
            None => 0,
        },
        None => 0,
    };
    let location = sym.get("location");
    let file = match member(location, "uri") {
        Some(u) => match u.as_str() {
            Some(uri) => match McpServer::uri_to_path(uri) {
                Some(p) => p,
                None => String::from_str(uri),
            },
            None => String::new(),
        },
        None => String::new(),
    };
    let line = match member(member(member(location, "range"), "start"), "line") {
        Some(l) => match l.as_u64() {
            Some(n) => n,
            None => 0,
        },
        None => 0,
    };
    let description = match member(Some(sym), "detail") {
        Some(d) => match d.as_str() {
            Some(s) => Some(String::from_str(s)),
            None => None,
        },
        None => None,
    };
    SymbolResult { name, kind: symbol_kind_to_string(kind_num), file, line: line as u32, description }
}

/// The symbols of a workspace/symbol answer, one per array entry (none when the
/// answer is not an array).
pub fn parse_symbol_results(result: &JsonValue) -> (r: Vec<SymbolResult>)
    ensures
        match jarray(result@) {
            Some(a) => r@.len() == a.len() && forall|i: int| 0 <= i < a.len() ==> symbol_of(a[i], #[trigger] r@[i]),
            None => r@.len() == 0,
        },
{
    let mut out: Vec<SymbolResult> = Vec::new();
    if let Some(arr) = result.as_array() {
        proof { lemma_elems_view(arr@); }
        let mut i: usize = 0;
        while i < arr.len()
            invariant
                i <= arr@.len(),
                jarray(result@) == Some(elems_view(arr@)),
                elems_view(arr@).len() == arr@.len(),
                forall|j: int| 0 <= j < arr@.len() ==> #[trigger] elems_view(arr@)[j] == arr@[j]@,
                out@.len() == i,
                forall|j: int| 0 <= j < i ==> symbol_of(elems_view(arr@)[j], #[trigger] out@[j]),
            decreases arr@.len() - i,
        {
            out.push(parse_symbol(&arr[i]));
            i += 1;
        }
    }
    out
}

/// A symbol covers a text match in its file when the match is on the
/// symbol's own line (the match counts lines from 1, LSP from 0) or carries
/// the symbol's line number as it stands.
pub open spec fn covers(s: SymbolResult, m: TextMatch) -> bool {
    &&& s.file@ == m.path@
    &&& (s.line as int + 1 == m.line_number as int || s.line == m.line_number as u32)
}

/// A text match is covered by one of the symbols found.
pub open spec fn covered(m: TextMatch, symbols: Seq<SymbolResult>) -> bool {
    exists|k: int| 0 <= k < symbols.len() && covers(symbols[k], m)
}

/// The text results of the matches not covered by a symbol, in order.
pub open spec fn kept_matches(matches: Seq<TextMatch>, symbols: Seq<SymbolResult>) -> Seq<TextMatch>
    decreases matches.len(),
{
    if matches.len() == 0 {
        Seq::empty()
    } else {
        let rest = kept_matches(matches.drop_last(), symbols);
        if covered(matches.last(), symbols) { rest } else { rest.push(matches.last()) }
    }
}

/// Deduplication keeps exactly the matches that no symbol covers: every kept
/// match is an uncovered match of the input, and every uncovered match is kept.
pub proof fn lemma_kept_matches_uncovered(matches: Seq<TextMatch>, symbols: Seq<SymbolResult>)
    ensures
        forall|i: int| 0 <= i < kept_matches(matches, symbols).len() ==> {
            &&& !covered(#[trigger] kept_matches(matches, symbols)[i], symbols)
            &&& matches.contains(kept_matches(matches, symbols)[i])
        },
        forall|j: int| 0 <= j < matches.len() && !covered(#[trigger] matches[j], symbols)
            ==> kept_matches(matches, symbols).contains(matches[j]),
    decreases matches.len(),
{
    if matches.len() > 0 {
        let init = matches.drop_last();
        lemma_kept_matches_uncovered(init, symbols);
        let rest = kept_matches(init, symbols);
        let kept = kept_matches(matches, symbols);
        assert forall|i: int| 0 <= i < kept.len() implies {
            &&& !covered(#[trigger] kept[i], symbols)
            &&& matches.contains(kept[i])
        } by {
            if i < rest.len() {
                assert(kept[i] == rest[i]);
                let w = choose|w: int| 0 <= w < init.len() && init[w] == rest[i];
                assert(matches[w] == init[w]);
            } else {
                assert(kept[i] == matches.last());
                assert(matches[matches.len() - 1] == matches.last());
            }
        }
        assert forall|j: int| 0 <= j < matches.len() && !covered(#[trigger] matches[j], symbols)
            implies kept.contains(matches[j]) by {
            if j < matches.len() - 1 {
                assert(init[j] == matches[j]);
                assert(!covered(init[j], symbols));
                let w = choose|w: int| 0 <= w < rest.len() && rest[w] == init[j];
                assert(kept[w] == rest[w]);
            } else {
                assert(kept[kept.len() - 1] == matches.last());
            }
        }
    }
}

/// `t` is the text result of match `m`.
pub open spec fn text_result_of(m: TextMatch, t: TextResult) -> bool {
    t.file@ == m.path@ && t.line == m.line_number as u32 && t.content@ == m.line@
}

/// Remove the text matches that point at lines already found as symbols.
pub fn deduplicate_text_matches(matches: Vec<TextMatch>, symbols: &Vec<SymbolResult>) -> (r: Vec<TextResult>)
    ensures
        r@.len() == kept_matches(matches@, symbols@).len(),
        forall|i: int| 0 <= i < r@.len() ==> text_result_of(kept_matches(matches@, symbols@)[i], #[trigger] r@[i]),
{
    let ghost ms = matches@;
    let mut out: Vec<TextResult> = Vec::new();
    let mut i: usize = 0;
    assert(ms.take(0) =~= Seq::<TextMatch>::empty());
    while i < matches.len()
        invariant
            ms == matches@,
            i <= ms.len(),
            out@.len() == kept_matches(ms.take(i as int), symbols@).len(),
            forall|j: int| 0 <= j < out@.len() ==> text_result_of(kept_matches(ms.take(i as int), symbols@)[j], #[trigger] out@[j]),
        decreases ms.len() - i,
    {
        let m = &matches[i];
        assert(ms.take(i + 1).drop_last() =~= ms.take(i as int));
        assert(ms.take(i + 1).last() == ms[i as int]);
        let mut dup = false;
        let mut k: usize = 0;
        while k < symbols.len()
            invariant
                k <= symbols@.len(),
                *m == ms[i as int],
                dup <==> exists|q: int| 0 <= q < k && covers(symbols@[q], *m),
            decreases symbols@.len() - k,
        {
            if str_eq(symbols[k].file.as_str(), m.path.as_str())
                && (symbols[k].line as u64 + 1 == m.line_number || symbols[k].line == m.line_number as u32) {
                dup = true;
            }
            k += 1;
        }
        if !dup {
            out.push(TextResult { file: m.path.clone(), line: m.line_number as u32, content: m.line.clone() });
        }
        i += 1;
    }
    assert(ms.take(ms.len() as int) =~= ms);
    out
}

/// Two optional string lists hold the same strings.
pub open spec fn same_list(a: Option<Vec<String>>, b: Option<Vec<String>>) -> bool {
    match (a, b) {
        (Some(x), Some(y)) => x@ == y@,
        (None, None) => true,
        _ => false,
    }
}

/// A copy of a list of strings.
pub fn clone_strings(v: &Vec<String>) -> (r: Vec<String>)
    ensures
        r@ == v@,
{
    let mut r: Vec<String> = Vec::new();
    let mut i: usize = 0;
    while i < v.len()
        invariant
            i <= v@.len(),
            r@ == v@.take(i as int),
        decreases v@.len() - i,
    {
        r.push(v[i].clone());
        assert(r@ =~= v@.take(i + 1));
        i += 1;
    }
    assert(v@.take(v@.len() as int) =~= v@);
    r
}

/// The text-search options a hybrid search uses: twice the result limit, to
/// leave room for removing duplicates, and always case-insensitive.
pub fn text_search_options(workspace_root: &str, options: &HybridSearchOptions) -> (r: SearchOptions)
    requires
        options.max_results * 2 <= usize::MAX,
    ensures
        r.root@ == workspace_root@,
        r.max_results == options.max_results * 2,
        same_list(r.file_types, options.file_types),
        r.case_insensitive,
{
    let file_types = match &options.file_types {
        Some(v) => Some(clone_strings(v)),
        None => None,
    };
    SearchOptions { root: String::from_str(workspace_root), max_results: options.max_results * 2, file_types, case_insensitive: true }
}

/// The symbols a hybrid search found before the limit: those of the LSP answer
/// when symbols were asked for and the request succeeded.
pub open spec fn found_symbols(options: HybridSearchOptions, answer: Option<Result<JsonValue, String>>, s: Seq<SymbolResult>) -> bool {
    match answer {
        Some(Ok(v)) if options.include_symbols => match jarray(v@) {
            Some(a) => s.len() == a.len() && forall|i: int| 0 <= i < a.len() ==> symbol_of(a[i], #[trigger] s[i]),
            None => s.len() == 0,
        },
        _ => s.len() == 0,
    }
}

/// `min(a, b)`.
pub open spec fn min_nat(a: int, b: int) -> int {
    if a <= b { a } else { b }
}

/// Merge the outcomes of the two searches of a hybrid search: the LSP symbols
/// (when asked for and answered), the text matches not already found as
/// symbols (when asked for and the search succeeded), then at most
/// `max_results` in all, symbols first.
pub fn merge_hybrid_results(
    options: &HybridSearchOptions,
    symbol_answer: Option<Result<JsonValue, String>>,
    text_outcome: Option<Result<Vec<TextMatch>, String>>,
) -> (r: HybridResult)
    ensures
        exists|all_symbols: Seq<SymbolResult>| {
            &&& found_symbols(*options, symbol_answer, all_symbols)
            &&& r.symbol_results@ == all_symbols.take(min_nat(options.max_results as int, all_symbols.len() as int))
            &&& match text_outcome {
                Some(Ok(ms)) if options.include_text => {
                    let kept = kept_matches(ms@, all_symbols);
                    let n = min_nat(options.max_results - r.symbol_results@.len(), kept.len() as int);
                    &&& r.text_results@.len() == n
                    &&& forall|i: int| 0 <= i < n ==> text_result_of(kept[i], #[trigger] r.text_results@[i])
                },
                _ => r.text_results@.len() == 0,
            }
        },
{
    let mut symbols: Vec<SymbolResult> = Vec::new();
    if options.include_symbols {
        if let Some(Ok(v)) = &symbol_answer {
            symbols = parse_symbol_results(v);
        }
    }
    let ghost all_symbols = symbols@;
    assert(found_symbols(*options, symbol_answer, all_symbols));
    let mut texts: Vec<TextResult> = Vec::new();
    if options.include_text {
        if let Some(Ok(ms)) = text_outcome {
            texts = deduplicate_text_matches(ms, &symbols);
        }
    }
    let ghost all_texts = texts@;
    symbols.truncate(options.max_results);
    let remaining = if options.max_results >= symbols.len() { options.max_results - symbols.len() } else { 0 };
    texts.truncate(remaining);
    assert(symbols@ =~= all_symbols.take(min_nat(options.max_results as int, all_symbols.len() as int)));
    HybridResult { symbol_results: symbols, text_results: texts }
}

/// A hybrid search returns at most `max_results` results, and text matches
/// only where the symbols leave room.
pub proof fn lemma_hybrid_within_limit(
    options: HybridSearchOptions,
    symbol_answer: Option<Result<JsonValue, String>>,
    text_outcome: Option<Result<Vec<TextMatch>, String>>,
    r: HybridResult,
    all_symbols: Seq<SymbolResult>,
)
    requires
        found_symbols(options, symbol_answer, all_symbols),
        r.symbol_results@ == all_symbols.take(min_nat(options.max_results as int, all_symbols.len() as int)),
        match text_outcome {
            Some(Ok(ms)) if options.include_text => {
                let kept = kept_matches(ms@, all_symbols);
                r.text_results@.len() == min_nat(options.max_results - r.symbol_results@.len(), kept.len() as int)
            },
            _ => r.text_results@.len() == 0,
        },
    ensures
        r.symbol_results@.len() + r.text_results@.len() <= options.max_results,
        r.text_results@.len() > 0 ==> r.symbol_results@.len() < options.max_results,
{
}

} // verus!
