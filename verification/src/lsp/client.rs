//! The state of a client of one LSP server, the parameters of the messages it
//! sends, and what it makes of the replies.

use vstd::prelude::*;
use crate::json::{Json, JsonValue, Num, elems_view, jget, lemma_elems_view, lemma_members_view, members_view};
use crate::lsp::types::{parse_url, url_parse};
use crate::text::{char_replaced, concat, has_prefix, replace_char, starts_with, str_eq, chars_of, string_of, subvec};

verus! {

/// `std::time::Instant`, held opaque: a diagnostics entry records when it
/// was published.
#[verifier::external_type_specification]
#[verifier::external_body]
pub struct ExInstant(std::time::Instant);

/// The current instant (`std::time::Instant::now`). Trusted, with nothing
/// claimed of the result: it depends on the clock.
#[verifier::external_body]
fn now() -> (r: std::time::Instant) {
    std::time::Instant::now()
}

/// The diagnostics last published for one document.
pub struct DiagnosticsEntry {
    pub uri: String,
    pub diagnostics: Vec<JsonValue>,
    pub timestamp: std::time::Instant,
}

/// The key under which the diagnostics of a file are looked up: its URI as
/// the client writes it, `file:///` and the path with `/` for `\`.
pub open spec fn diagnostics_key(file_path: Seq<char>) -> Seq<char> {
    "file:///"@ + char_replaced(file_path, '\\', '/')
}

/// The diagnostics held for each URI.
pub open spec fn cache_view(entries: Seq<DiagnosticsEntry>) -> Map<Seq<char>, Seq<Json>> {
    Map::new(
        |k: Seq<char>| exists|i: int| 0 <= i < entries.len() && (#[trigger] entries[i]).uri@ == k,
        |k: Seq<char>| {
            let i = choose|i: int| 0 <= i < entries.len() && (#[trigger] entries[i]).uri@ == k;
            elems_view(entries[i].diagnostics@)
        },
    )
}

/// No URI is held twice.
pub open spec fn distinct_uris(entries: Seq<DiagnosticsEntry>) -> bool {
    forall|i: int, j: int| 0 <= i < entries.len() && 0 <= j < entries.len() && i != j
        ==> (#[trigger] entries[i]).uri@ != (#[trigger] entries[j]).uri@
}

/// What a lookup in the cache gives: the diagnostics held for `key`, none when
/// there are none.
pub open spec fn lookup_diagnostics(cache: Map<Seq<char>, Seq<Json>>, key: Seq<char>) -> Seq<Json> {
    if cache.contains_key(key) { cache[key] } else { Seq::empty() }
}

/// The state of a client: the language it serves, whether the handshake is
/// done, the workspace root, and the diagnostics cache.
pub struct LspClient {
    language: String,
    initialized: bool,
    workspace_root: String,
    diagnostics_cache: Vec<DiagnosticsEntry>,
}

impl LspClient {
    #[verifier::type_invariant]
    spec fn well_formed(self) -> bool {
        distinct_uris(self.diagnostics_cache@)
    }

    /// The language served.
    pub closed spec fn spec_language(&self) -> Seq<char> {
        self.language@
    }

    /// Whether the handshake is done.
    pub closed spec fn spec_initialized(&self) -> bool {
        self.initialized
    }

    /// The workspace root.
    pub closed spec fn spec_workspace_root(&self) -> Seq<char> {
        self.workspace_root@
    }

    /// The diagnostics held per URI.
    pub closed spec fn spec_cache(&self) -> Map<Seq<char>, Seq<Json>> {
        cache_view(self.diagnostics_cache@)
    }

    /// A client for `language`, before the handshake, with no workspace and
    /// no diagnostics.
    pub fn new(language: &str) -> (c: Self)
        ensures
            c.spec_language() == language@,
            !c.spec_initialized(),
            c.spec_workspace_root() == Seq::<char>::empty(),
            c.spec_cache() == Map::<Seq<char>, Seq<Json>>::empty(),
    {
        let c = LspClient {
            language: String::from_str(language),
            initialized: false,
            workspace_root: String::new(),
            diagnostics_cache: Vec::new(),
        };
        assert(c.spec_cache() =~= Map::<Seq<char>, Seq<Json>>::empty());
        c
    }

    /// The language served.
    pub fn language(&self) -> (r: &str)
        ensures
            r@ == self.spec_language(),
    {
        self.language.as_str()
    }

    /// Record the workspace the handshake is for.
    pub fn set_workspace_root(&mut self, workspace_root: &str)
        ensures
            final(self).spec_workspace_root() == workspace_root@,
            final(self).spec_language() == old(self).spec_language(),
            final(self).spec_initialized() == old(self).spec_initialized(),
            final(self).spec_cache() == old(self).spec_cache(),
    {
        proof { use_type_invariant(&*self); }
        self.workspace_root = String::from_str(workspace_root);
    }

    /// Record that the handshake is done.
    pub fn mark_initialized(&mut self)
        ensures
            final(self).spec_initialized(),
            final(self).spec_language() == old(self).spec_language(),
            final(self).spec_workspace_root() == old(self).spec_workspace_root(),
            final(self).spec_cache() == old(self).spec_cache(),
    {
        proof { use_type_invariant(&*self); }
        self.initialized = true;
    }

    /// Record that the server was shut down.
    pub fn mark_shut_down(&mut self)
        ensures
            !final(self).spec_initialized(),
            final(self).spec_language() == old(self).spec_language(),
            final(self).spec_workspace_root() == old(self).spec_workspace_root(),
            final(self).spec_cache() == old(self).spec_cache(),
    {
        proof { use_type_invariant(&*self); }
        self.initialized = false;
    }

    /// The client is ready for requests when the handshake is done and its
    /// server process still runs.
    pub fn is_initialized(&self, process_running: bool) -> (r: bool)
        ensures
            r == (self.spec_initialized() && process_running),
    {
        self.initialized && process_running
    }

    /// The cached diagnostics of a file (none when there are none).
    pub fn get_diagnostics(&self, file_path: &str) -> (r: Vec<JsonValue>)
        ensures
            elems_view(r@) == lookup_diagnostics(self.spec_cache(), diagnostics_key(file_path@)),
    {
        proof { use_type_invariant(self); }
        proof { reveal_strlit("file:///"); }
        let clean = replace_char(file_path, '\\', '/');
        let key = concat("file:///", clean.as_str());
        assert(key@ == diagnostics_key(file_path@));
        match position_of(&self.diagnostics_cache, key.as_str()) {
            Some(i) => {
                let out = clone_values(&self.diagnostics_cache[i].diagnostics);
                proof { lemma_cache_at(self.diagnostics_cache@, i as int); }
                out
            },
            None => {
                let out: Vec<JsonValue> = Vec::new();
                proof {
                    lemma_elems_view(out@);
                    let entries = self.diagnostics_cache@;
                    if cache_view(entries).contains_key(key@) {
                        let w = choose|w: int| 0 <= w < entries.len() && (#[trigger] entries[w]).uri@ == key@;
                        assert(entries[w].uri@ != key@);
                    }
                    assert(elems_view(out@) =~= Seq::<Json>::empty());
                }
                out
            },
        }
    }

    /// Replace the cached diagnostics of `uri` with those just published.
    pub fn update_diagnostics(&mut self, uri: String, diagnostics: Vec<JsonValue>)
        ensures
            final(self).spec_cache() == old(self).spec_cache().insert(uri@, elems_view(diagnostics@)),
            final(self).spec_language() == old(self).spec_language(),
            final(self).spec_initialized() == old(self).spec_initialized(),
            final(self).spec_workspace_root() == old(self).spec_workspace_root(),
    {
        proof { use_type_invariant(&*self); }
        let ghost before = self.diagnostics_cache@;
        let ghost k = uri@;
        let ghost v = elems_view(diagnostics@);
        let found = position_of(&self.diagnostics_cache, uri.as_str());
        let entry = DiagnosticsEntry { uri, diagnostics, timestamp: now() };
        if let Some(i) = found {
            let ghost after = before.update(i as int, entry);
            proof {
                assert(distinct_uris(after)) by {
                    assert forall|a: int, b: int| 0 <= a < after.len() && 0 <= b < after.len() && a != b
                        implies (#[trigger] after[a]).uri@ != (#[trigger] after[b]).uri@ by {
                        assert(before[i as int].uri@ == k);
                    }
                }
                lemma_cache_update(before, i as int, entry);
            }
            let mut entries: Vec<DiagnosticsEntry> = Vec::new();
            std::mem::swap(&mut entries, &mut self.diagnostics_cache);
            entries.set(i, entry);
            assert(entries@ == after);
            self.diagnostics_cache = entries;
        } else {
            let ghost after = before.push(entry);
            proof {
                assert(distinct_uris(after)) by {
                    assert forall|a: int, b: int| 0 <= a < after.len() && 0 <= b < after.len() && a != b
                        implies (#[trigger] after[a]).uri@ != (#[trigger] after[b]).uri@ by {
                        if a < before.len() && b < before.len() {
                            assert(after[a] == before[a] && after[b] == before[b]);
                        } else if a < before.len() {
                            assert(after[a] == before[a]);
                        } else {
                            assert(after[b] == before[b]);
                        }
                    }
                }
                lemma_cache_push(before, entry);
            }
            let mut entries: Vec<DiagnosticsEntry> = Vec::new();
            std::mem::swap(&mut entries, &mut self.diagnostics_cache);
            entries.push(entry);
            assert(entries@ == after);
            self.diagnostics_cache = entries;
        }
    }
}

/// In a cache without repeated URIs, each entry's diagnostics are those held for its URI.
proof fn lemma_cache_at(entries: Seq<DiagnosticsEntry>, i: int)
    requires
        distinct_uris(entries),
        0 <= i < entries.len(),
    ensures
        cache_view(entries).contains_key(entries[i].uri@),
        cache_view(entries)[entries[i].uri@] == elems_view(entries[i].diagnostics@),
{
    let k = entries[i].uri@;
    assert(exists|w: int| 0 <= w < entries.len() && (#[trigger] entries[w]).uri@ == k);
    let w = choose|w: int| 0 <= w < entries.len() && (#[trigger] entries[w]).uri@ == k;
    assert(w == i);
}

/// Replacing the entry of a URI replaces what is held for it and nothing else.
proof fn lemma_cache_update(entries: Seq<DiagnosticsEntry>, i: int, e: DiagnosticsEntry)
    requires
        distinct_uris(entries),
        distinct_uris(entries.update(i, e)),
        0 <= i < entries.len(),
        entries[i].uri@ == e.uri@,
    ensures
        cache_view(entries.update(i, e)) == cache_view(entries).insert(e.uri@, elems_view(e.diagnostics@)),
{
    let after = entries.update(i, e);
    let m = cache_view(entries).insert(e.uri@, elems_view(e.diagnostics@));
    lemma_cache_at(after, i);
    assert forall|key: Seq<char>| #[trigger] cache_view(after).contains_key(key) == m.contains_key(key) by {
        if cache_view(after).contains_key(key) {
            let w = choose|w: int| 0 <= w < after.len() && (#[trigger] after[w]).uri@ == key;
            if w != i {
                lemma_cache_at(entries, w);
            }
        }
        if cache_view(entries).contains_key(key) {
            let w = choose|w: int| 0 <= w < entries.len() && (#[trigger] entries[w]).uri@ == key;
            if w != i {
                lemma_cache_at(after, w);
            }
        }
    }
    assert forall|key: Seq<char>| #[trigger] cache_view(after).contains_key(key) implies cache_view(after)[key] == m[key] by {
        let w = choose|w: int| 0 <= w < after.len() && (#[trigger] after[w]).uri@ == key;
        lemma_cache_at(after, w);
        if w != i {
            lemma_cache_at(entries, w);
        }
    }
    assert(cache_view(after) =~= m);
}

/// Adding the entry of a URI not yet held adds what is held for it.
proof fn lemma_cache_push(entries: Seq<DiagnosticsEntry>, e: DiagnosticsEntry)
    requires
        distinct_uris(entries),
        distinct_uris(entries.push(e)),
    ensures
        cache_view(entries.push(e)) == cache_view(entries).insert(e.uri@, elems_view(e.diagnostics@)),
{
    let after = entries.push(e);
    let n = entries.len() as int;
    let m = cache_view(entries).insert(e.uri@, elems_view(e.diagnostics@));
    lemma_cache_at(after, n);
    assert forall|key: Seq<char>| #[trigger] cache_view(after).contains_key(key) == m.contains_key(key) by {
        if cache_view(after).contains_key(key) {
            let w = choose|w: int| 0 <= w < after.len() && (#[trigger] after[w]).uri@ == key;
            if w != n {
                assert(after[w] == entries[w]);
                lemma_cache_at(entries, w);
            }
        }
        if cache_view(entries).contains_key(key) {
            let w = choose|w: int| 0 <= w < entries.len() && (#[trigger] entries[w]).uri@ == key;
            assert(after[w] == entries[w]);
            lemma_cache_at(after, w);
        }
    }
    assert forall|key: Seq<char>| #[trigger] cache_view(after).contains_key(key) implies cache_view(after)[key] == m[key] by {
        let w = choose|w: int| 0 <= w < after.len() && (#[trigger] after[w]).uri@ == key;
        lemma_cache_at(after, w);
        if w != n {
            assert(after[w] == entries[w]);
            lemma_cache_at(entries, w);
        }
    }
    assert(cache_view(after) =~= m);
}

/// Diagnostics written for a URI are what a later lookup of a file with that
/// key gives, and a file's key is the `file:///` URI text the client builds
/// for it; the lookups of other keys are unchanged.
pub proof fn lemma_diagnostics_read_after_write(
    cache: Map<Seq<char>, Seq<Json>>,
    uri: Seq<char>,
    diagnostics: Seq<Json>,
    file_path: Seq<char>,
)
    ensures
        diagnostics_key(file_path) == document_url_input(file_path),
        lookup_diagnostics(cache.insert(document_url_input(file_path), diagnostics), diagnostics_key(file_path))
            == diagnostics,
        lookup_diagnostics(cache.insert(uri, diagnostics), diagnostics_key(file_path)) == (if diagnostics_key(file_path) == uri {
            diagnostics
        } else {
            lookup_diagnostics(cache, diagnostics_key(file_path))
        }),
{
}

/// The text parsed as the URL of a file: `file:///` and the path with `/` for `\`.
pub open spec fn document_url_input(file_path: Seq<char>) -> Seq<char> {
    "file:///"@ + char_replaced(file_path, '\\', '/')
}

/// The outcome of parsing `input` as a URL, with `context` before a parse error.
pub open spec fn parsed_or(input: Seq<char>, context: Seq<char>) -> Result<Seq<char>, Seq<char>> {
    match url_parse(input) {
        Ok(u) => Ok(u),
        Err(e) => Err(context + e),
    }
}

/// The views of a string outcome.
pub open spec fn outcome_view(r: Result<String, String>) -> Result<Seq<char>, Seq<char>> {
    match r {
        Ok(u) => Ok(u@),
        Err(e) => Err(e@),
    }
}

/// The URI of a document, as the URL parsed from `file:///{path}` (with `/`
/// for `\`); a path that does not give a URL is refused with "Invalid file URI".
pub fn document_uri(file_path: &str) -> (r: Result<String, String>)
    ensures
        outcome_view(r) == parsed_or(document_url_input(file_path@), "Invalid file URI: "@),
{
    let clean = replace_char(file_path, '\\', '/');
    let input = concat("file:///", clean.as_str());
    match parse_url(input.as_str()) {
        Ok(u) => Ok(u),
        Err(e) => Err(concat("Invalid file URI: ", e.as_str())),
    }
}

/// The text parsed as the URL of the workspace: `file:///` and the resolved
/// path, without a leading `\\?\` and with `/` for `\`.
pub open spec fn workspace_url_input(resolved_path: Seq<char>) -> Seq<char> {
    let unc = seq!['\\', '\\', '?', '\\'];
    let p = if has_prefix(resolved_path, unc) { resolved_path.skip(4) } else { resolved_path };
    "file:///"@ + char_replaced(p, '\\', '/')
}

/// The URI of the workspace root, from its resolved (absolute) path; a path
/// that does not give a URL is refused with "Invalid workspace URI".
pub fn workspace_uri(resolved_path: &str) -> (r: Result<String, String>)
    ensures
        outcome_view(r) == parsed_or(workspace_url_input(resolved_path@), "Invalid workspace URI: "@),
{
    proof { reveal_strlit("\\\\?\\"); }
    let unc = "\\\\?\\";
    assert(unc@ =~= seq!['\\', '\\', '?', '\\']);
    let clean = if starts_with(resolved_path, unc) {
        let cs = chars_of(resolved_path);
        let rest = string_of(&subvec(&cs, 4, cs.len()));
        assert(rest@ =~= resolved_path@.skip(4));
        replace_char(rest.as_str(), '\\', '/')
    } else {
        replace_char(resolved_path, '\\', '/')
    };
    let input = concat("file:///", clean.as_str());
    match parse_url(input.as_str()) {
        Ok(u) => Ok(u),
        Err(e) => Err(concat("Invalid workspace URI: ", e.as_str())),
    }
}

/// An object from its members.
fn object2(k1: &str, v1: JsonValue, k2: &str, v2: JsonValue) -> (r: JsonValue)
    ensures
        r@ == Json::Object(seq![(k1@, v1@), (k2@, v2@)]),
{
    let ghost (a, b) = (v1@, v2@);
    let mut m: Vec<(String, JsonValue)> = Vec::new();
    m.push((String::from_str(k1), v1));
    m.push((String::from_str(k2), v2));
    proof {
        lemma_members_view(m@);
        assert(members_view(m@) =~= seq![(k1@, a), (k2@, b)]);
    }
    JsonValue::object(m)
}

/// An object with one member.
fn object1(k1: &str, v1: JsonValue) -> (r: JsonValue)
    ensures
        r@ == Json::Object(seq![(k1@, v1@)]),
{
    let ghost a = v1@;
    let mut m: Vec<(String, JsonValue)> = Vec::new();
    m.push((String::from_str(k1), v1));
    proof {
        lemma_members_view(m@);
        assert(members_view(m@) =~= seq![(k1@, a)]);
    }
    JsonValue::object(m)
}

/// The JSON of a natural number.
pub open spec fn nat_json(n: u64) -> Json {
    Json::Number(Num::PosInt(n))
}

/// `{"uri": uri}`.
pub open spec fn document_json(uri: Seq<char>) -> Json {
    Json::Object(seq![("uri"@, Json::Str(uri))])
}

/// `{"line": line, "character": character}`.
pub open spec fn position_json(line: u32, character: u32) -> Json {
    Json::Object(seq![("line"@, nat_json(line as u64)), ("character"@, nat_json(character as u64))])
}

/// The parameters of `textDocument/didOpen`.
pub open spec fn did_open_json(uri: Seq<char>, language: Seq<char>, text: Seq<char>) -> Json {
    Json::Object(seq![("textDocument"@, Json::Object(seq![
        ("uri"@, Json::Str(uri)),
        ("languageId"@, Json::Str(language)),
        ("version"@, nat_json(0)),
        ("text"@, Json::Str(text)),
    ]))])
}

/// The parameters of `textDocument/didChange`: the whole new text as one change.
pub open spec fn did_change_json(uri: Seq<char>, text: Seq<char>) -> Json {
    Json::Object(seq![
        ("textDocument"@, Json::Object(seq![("uri"@, Json::Str(uri)), ("version"@, nat_json(1))])),
        ("contentChanges"@, Json::Array(seq![Json::Object(seq![("text"@, Json::Str(text))])])),
    ])
}

/// The parameters of a request at a position in a document.
pub open spec fn position_request_json(uri: Seq<char>, line: u32, character: u32) -> Json {
    Json::Object(seq![("textDocument"@, document_json(uri)), ("position"@, position_json(line, character))])
}

/// The parameters of `textDocument/references`, declarations included.
pub open spec fn references_json(uri: Seq<char>, line: u32, character: u32) -> Json {
    Json::Object(seq![
        ("textDocument"@, document_json(uri)),
        ("position"@, position_json(line, character)),
        ("context"@, Json::Object(seq![("includeDeclaration"@, Json::Bool(true))])),
    ])
}

/// `{"textDocument": {"uri": uri}}`.
fn document_params(uri: &str) -> (r: JsonValue)
    ensures
        r@ == Json::Object(seq![("textDocument"@, document_json(uri@))]),
{
    object1("textDocument", object1("uri", JsonValue::string(uri)))
}

/// The parameters of `textDocument/didOpen` for a document's full text.
pub fn did_open_params(uri: &str, language: &str, text: &str) -> (r: JsonValue)
    ensures
        r@ == did_open_json(uri@, language@, text@),
{
    let mut d: Vec<(String, JsonValue)> = Vec::new();
    d.push((String::from_str("uri"), JsonValue::string(uri)));
    d.push((String::from_str("languageId"), JsonValue::string(language)));
    d.push((String::from_str("version"), JsonValue::uint(0)));
    d.push((String::from_str("text"), JsonValue::string(text)));
    proof {
        lemma_members_view(d@);
        assert(members_view(d@) =~= seq![
            ("uri"@, Json::Str(uri@)),
            ("languageId"@, Json::Str(language@)),
            ("version"@, nat_json(0)),
            ("text"@, Json::Str(text@)),
        ]);
    }
    object1("textDocument", JsonValue::object(d))
}

/// The parameters of `textDocument/didChange` carrying the whole new text.
pub fn did_change_params(uri: &str, text: &str) -> (r: JsonValue)
    ensures
        r@ == did_change_json(uri@, text@),
{
    let doc = object2("uri", JsonValue::string(uri), "version", JsonValue::uint(1));
    let change = object1("text", JsonValue::string(text));
    let ghost cv = change@;
    let mut changes: Vec<JsonValue> = Vec::new();
    changes.push(change);
    proof {
        lemma_elems_view(changes@);
        assert(elems_view(changes@) =~= seq![cv]);
    }
    object2("textDocument", doc, "contentChanges", JsonValue::array(changes))
}

/// The parameters of `textDocument/didClose`.
pub fn did_close_params(uri: &str) -> (r: JsonValue)
    ensures
        r@ == Json::Object(seq![("textDocument"@, document_json(uri@))]),
{
    document_params(uri)
}

/// The position of a request.
fn position_value(line: u32, character: u32) -> (r: JsonValue)
    ensures
        r@ == position_json(line, character),
{
    object2("line", JsonValue::uint(line as u64), "character", JsonValue::uint(character as u64))
}

/// The parameters of a request at a position (definition, hover, ...).
pub fn position_params(uri: &str, line: u32, character: u32) -> (r: JsonValue)
    ensures
        r@ == position_request_json(uri@, line, character),
{
    object2("textDocument", object1("uri", JsonValue::string(uri)), "position", position_value(line, character))
}

/// The parameters of `textDocument/references`.
pub fn references_params(uri: &str, line: u32, character: u32) -> (r: JsonValue)
    ensures
        r@ == references_json(uri@, line, character),
{
    let doc = object1("uri", JsonValue::string(uri));
    let pos = position_value(line, character);
    let ctx = object1("includeDeclaration", JsonValue::Bool(true));
    let ghost (a, b, c) = (doc@, pos@, ctx@);
    let mut m: Vec<(String, JsonValue)> = Vec::new();
    m.push((String::from_str("textDocument"), doc));
    m.push((String::from_str("position"), pos));
    m.push((String::from_str("context"), ctx));
    proof {
        lemma_members_view(m@);
        assert(members_view(m@) =~= seq![("textDocument"@, a), ("position"@, b), ("context"@, c)]);
    }
    JsonValue::object(m)
}

/// The parameters of `workspace/symbol`.
pub fn workspace_symbol_params(query: &str) -> (r: JsonValue)
    ensures
        r@ == Json::Object(seq![("query"@, Json::Str(query@))]),
{
    object1("query", JsonValue::string(query))
}

/// The parameters of `initialize`: the client's process id, the workspace's
/// root URI and no particular client capabilities.
pub open spec fn initialize_params_json(process_id: u32, root_uri: Seq<char>) -> Json {
    Json::Object(seq![
        ("processId"@, nat_json(process_id as u64)),
        ("rootUri"@, Json::Str(root_uri)),
        ("capabilities"@, Json::Object(Seq::empty())),
    ])
}

/// The parameters of `initialize` for the process `process_id` and the
/// workspace root URI `root_uri`.
pub fn initialize_params(process_id: u32, root_uri: &str) -> (r: JsonValue)
    ensures
        r@ == initialize_params_json(process_id, root_uri@),
{
    let caps = JsonValue::object(Vec::new());
    proof {
        lemma_members_view(Seq::<(String, JsonValue)>::empty());
        assert(caps@ == Json::Object(Seq::empty())) by {
            assert(members_view(Seq::<(String, JsonValue)>::empty()) =~= Seq::<(Seq<char>, Json)>::empty());
        }
    }
    let ghost cv = caps@;
    let mut m: Vec<(String, JsonValue)> = Vec::new();
    m.push((String::from_str("processId"), JsonValue::uint(process_id as u64)));
    m.push((String::from_str("rootUri"), JsonValue::string(root_uri)));
    m.push((String::from_str("capabilities"), caps));
    proof {
        lemma_members_view(m@);
        assert(members_view(m@) =~= seq![
            ("processId"@, nat_json(process_id as u64)),
            ("rootUri"@, Json::Str(root_uri@)),
            ("capabilities"@, cv),
        ]);
    }
    JsonValue::object(m)
}

/// The parameters of the `initialized` notification: `{}`.
pub fn initialized_params() -> (r: JsonValue)
    ensures
        r@ == Json::Object(Seq::empty()),
{
    let m: Vec<(String, JsonValue)> = Vec::new();
    proof {
        lemma_members_view(m@);
        assert(members_view(m@) =~= Seq::<(Seq<char>, Json)>::empty());
    }
    JsonValue::object(m)
}

/// What a reply to a request gives: its `error` member when it has one, else
/// its `result` (`null` when absent).
pub open spec fn reply_outcome(response: Json) -> Result<Json, Json> {
    match jget(response, "error"@) {
        Some(e) => Err(e),
        None => match jget(response, "result"@) {
            Some(v) => Ok(v),
            None => Ok(Json::Null),
        },
    }
}

/// Read the reply to a request: the error it carries, or its result.
pub fn response_result(response: &JsonValue) -> (r: Result<JsonValue, JsonValue>)
    ensures
        match r {
            Ok(v) => reply_outcome(response@) == Ok::<Json, Json>(v@),
            Err(e) => reply_outcome(response@) == Err::<Json, Json>(e@),
        },
{
    match response.get("error") {
        Some(e) => Err(e.deep_clone()),
        None => match response.get("result") {
            Some(v) => Ok(v.deep_clone()),
            None => Ok(JsonValue::Null),
        },
    }
}

/// The position of the entry for `uri`, if there is one.
fn position_of(entries: &Vec<DiagnosticsEntry>, uri: &str) -> (r: Option<usize>)
    ensures
        match r {
            Some(i) => i < entries@.len() && entries@[i as int].uri@ == uri@,
            None => forall|j: int| 0 <= j < entries@.len() ==> (#[trigger] entries@[j]).uri@ != uri@,
        },
{
    let mut i: usize = 0;
    while i < entries.len()
        invariant
            i <= entries@.len(),
            forall|j: int| 0 <= j < i ==> (#[trigger] entries@[j]).uri@ != uri@,
        decreases entries@.len() - i,
    {
        if str_eq(entries[i].uri.as_str(), uri) {
            return Some(i);
        }
        i += 1;
    }
    None
}

/// A copy of a list of values.
fn clone_values(v: &Vec<JsonValue>) -> (r: Vec<JsonValue>)
    ensures
        elems_view(r@) == elems_view(v@),
{
    let mut out: Vec<JsonValue> = Vec::new();
    let mut k: usize = 0;
    while k < v.len()
        invariant
            k <= v@.len(),
            out@.len() == k,
            forall|j: int| 0 <= j < k ==> (#[trigger] out@[j])@ == v@[j]@,
        decreases v@.len() - k,
    {
        out.push(v[k].deep_clone());
        k += 1;
    }
    proof {
        lemma_elems_view(out@);
        lemma_elems_view(v@);
        assert(elems_view(out@) =~= elems_view(v@));
    }
    out
}

} // verus!
