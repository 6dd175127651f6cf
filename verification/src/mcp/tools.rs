//! MCP tools: the LSP capabilities offered as tools, their input schemas, and
//! the tool-result message type.

use vstd::prelude::*;
use crate::json::{Json, JsonValue, Num, elems_view, lemma_elems_view, lemma_members_view, members_view};

verus! {

/// MCP tool input parameters.
pub struct McpToolInput {
    /// Tool name
    pub name: String,
    /// Tool arguments
    pub arguments: JsonValue,
}

/// MCP tool response.
pub struct McpToolResponse {
    pub content: Vec<McpContent>,
    pub is_error: Option<bool>,
}

/// MCP content block.
pub enum McpContent {
    Text { text: String },
}

/// Available MCP tools.
pub enum McpTool {
    /// Go to definition
    GotoDefinition { file_path: String, line: u32, character: u32, all_implementations: bool },
    /// Find references
    FindReferences { file_path: String, line: u32, character: u32 },
    /// Hover (type info + docstring)
    Hover { file_path: String, line: u32, character: u32 },
    /// Workspace symbols search
    WorkspaceSymbols { query: String },
    /// Get diagnostics
    GetDiagnostics { file_path: String },
}

/// A schema property: `{"type": typ, "description": description}`.
pub open spec fn prop(typ: Seq<char>, description: Seq<char>) -> Json {
    Json::Object(seq![("type"@, Json::Str(typ)), ("description"@, Json::Str(description))])
}

/// A schema property with a default value.
pub open spec fn prop_default(typ: Seq<char>, description: Seq<char>, default: Json) -> Json {
    Json::Object(seq![("type"@, Json::Str(typ)), ("description"@, Json::Str(description)), ("default"@, default)])
}

/// A schema property listing strings.
pub open spec fn string_list_prop(description: Seq<char>) -> Json {
    Json::Object(seq![("type"@, Json::Str("array"@)), ("description"@, Json::Str(description)),
        ("items"@, Json::Object(seq![("type"@, Json::Str("string"@))]))])
}

/// An object schema with the given properties and required names.
pub open spec fn schema(props: Seq<(Seq<char>, Json)>, required: Seq<Seq<char>>) -> Json {
    Json::Object(seq![("type"@, Json::Str("object"@)), ("properties"@, Json::Object(props)),
        ("required"@, Json::Array(required.map_values(|r: Seq<char>| Json::Str(r))))])
}

/// A tool definition: name, description and input schema.
pub open spec fn tool(name: Seq<char>, description: Seq<char>, input_schema: Json) -> Json {
    Json::Object(seq![("name"@, Json::Str(name)), ("description"@, Json::Str(description)), ("inputSchema"@, input_schema)])
}

/// The properties of a tool that takes a file position.
pub open spec fn position_props() -> Seq<(Seq<char>, Json)> {
    seq![
        ("file_path"@, prop("string"@, "Absolute file path"@)),
        ("line"@, prop("integer"@, "Line number (0-based)"@)),
        ("character"@, prop("integer"@, "Character offset (0-based)"@)),
    ]
}

/// The names a position tool requires.
pub open spec fn position_required() -> Seq<Seq<char>> {
    seq!["file_path"@, "line"@, "character"@]
}

/// The definitions of the LSP tools.
pub open spec fn lsp_tool_defs() -> Seq<Json> {
    seq![
        tool("lsp_goto_definition"@, "Go to definition of symbol at position. Returns target file and code snippet."@,
            schema(position_props().push(("all_implementations"@, prop_default("boolean"@,
                "Return all implementations (default: top 3)"@, Json::Bool(false)))), position_required())),
        tool("lsp_find_references"@, "Find all references to symbol at position across the workspace."@,
            schema(position_props(), position_required())),
        tool("lsp_hover"@, "Get type signature and documentation for symbol at position."@,
            schema(position_props(), position_required())),
        tool("lsp_workspace_symbols"@, "Search for symbols (classes, functions, etc.) by name across the workspace."@,
            schema(seq![("query"@, prop("string"@, "Symbol name or partial match"@))], seq!["query"@])),
        tool("lsp_get_diagnostics"@, "Get lint and type errors for a file."@,
            schema(seq![("file_path"@, prop("string"@, "Absolute file path"@))], seq!["file_path"@])),
    ]
}

/// The definition of the hybrid search tool.
pub open spec fn hybrid_tool_def() -> Json {
    tool("lsp_hybrid_search"@,
        "Search for symbols and text matches across the workspace. Combines LSP symbol search with ripgrep-like text search to find TODOs, comments, strings, and symbols."@,
        schema(seq![
            ("query"@, prop("string"@, "Search query (symbol name or text pattern)"@)),
            ("include_symbols"@, prop_default("boolean"@, "Include LSP symbol results (default: true)"@, Json::Bool(true))),
            ("include_text"@, prop_default("boolean"@, "Include text search results (default: true)"@, Json::Bool(true))),
            ("file_types"@, string_list_prop("Filter by file extensions (e.g., [\"rs\", \"toml\"])"@)),
            ("max_results"@, prop_default("integer"@, "Maximum total results (default: 10)"@, Json::Number(Num::PosInt(10)))),
        ], seq!["query"@]))
}

/// The definitions of the tools that work without an LSP server.
pub open spec fn standalone_tool_defs() -> Seq<Json> {
    seq![
        tool("text_search"@, "Search for text patterns across files in the workspace (ripgrep-based). Works without LSP."@,
            schema(seq![
                ("query"@, prop("string"@, "Search pattern (regex supported)"@)),
                ("file_types"@, string_list_prop("Filter by file extensions (e.g., [\"txt\", \"md\"])"@)),
                ("max_results"@, prop_default("integer"@, "Maximum results (default: 20)"@, Json::Number(Num::PosInt(20)))),
            ], seq!["query"@])),
        tool("file_list"@, "List files in the workspace directory."@,
            Json::Object(seq![("type"@, Json::Str("object"@)), ("properties"@, Json::Object(seq![
                ("directory"@, prop("string"@, "Subdirectory path (default: workspace root)"@)),
                ("recursive"@, prop_default("boolean"@, "List recursively"@, Json::Bool(false))),
            ]))])),
    ]
}

/// An object from two members.
fn obj2(k1: &str, v1: JsonValue, k2: &str, v2: JsonValue) -> (r: JsonValue)
    ensures
        r@ == Json::Object(seq![(k1@, v1@), (k2@, v2@)]),
{
    let mut m: Vec<(String, JsonValue)> = Vec::new();
    m.push((String::from_str(k1), v1));
    m.push((String::from_str(k2), v2));
    proof {
        lemma_members_view(m@);
        assert(members_view(m@) =~= seq![(k1@, v1@), (k2@, v2@)]);
    }
    JsonValue::object(m)
}

/// An object from three members.
fn obj3(k1: &str, v1: JsonValue, k2: &str, v2: JsonValue, k3: &str, v3: JsonValue) -> (r: JsonValue)
    ensures
        r@ == Json::Object(seq![(k1@, v1@), (k2@, v2@), (k3@, v3@)]),
{
    let mut m: Vec<(String, JsonValue)> = Vec::new();
    m.push((String::from_str(k1), v1));
    m.push((String::from_str(k2), v2));
    m.push((String::from_str(k3), v3));
    proof {
        lemma_members_view(m@);
        assert(members_view(m@) =~= seq![(k1@, v1@), (k2@, v2@), (k3@, v3@)]);
    }
    JsonValue::object(m)
}

/// A schema property.
fn prop_value(typ: &str, description: &str) -> (r: JsonValue)
    ensures
        r@ == prop(typ@, description@),
{
    obj2("type", JsonValue::string(typ), "description", JsonValue::string(description))
}

/// A schema property with a default.
fn prop_default_value(typ: &str, description: &str, default: JsonValue) -> (r: JsonValue)
    ensures
        r@ == prop_default(typ@, description@, default@),
{
    obj3("type", JsonValue::string(typ), "description", JsonValue::string(description), "default", default)
}

/// A schema property listing strings.
fn string_list_value(description: &str) -> (r: JsonValue)
    ensures
        r@ == string_list_prop(description@),
{
    let mut m: Vec<(String, JsonValue)> = Vec::new();
    m.push((String::from_str("type"), JsonValue::string("string")));
    let items = JsonValue::object(m);
    proof {
        lemma_members_view(m@);
        assert(members_view(m@) =~= seq![("type"@, Json::Str("string"@))]);
    }
    obj3("type", JsonValue::string("array"), "description", JsonValue::string(description), "items", items)
}

/// An object schema from its properties and required names.
fn schema_value(props: Vec<(String, JsonValue)>, required: Vec<&str>) -> (r: JsonValue)
    ensures
        r@ == schema(members_view(props@), required@.map_values(|s: &str| s@)),
{
    let mut req: Vec<JsonValue> = Vec::new();
    let mut i: usize = 0;
    while i < required.len()
        invariant
            i <= required@.len(),
            req@.len() == i,
            forall|j: int| 0 <= j < i ==> #[trigger] req@[j]@ == Json::Str(required@[j]@),
        decreases required@.len() - i,
    {
        req.push(JsonValue::string(required[i]));
        i += 1;
    }
    let req_v = JsonValue::array(req);
    proof {
        lemma_elems_view(req@);
        let rhs = required@.map_values(|s: &str| s@).map_values(|r: Seq<char>| Json::Str(r));
        assert forall|j: int| 0 <= j < req@.len() implies #[trigger] elems_view(req@)[j] == rhs[j] by {
            assert(req@[j]@ == Json::Str(required@[j]@));
        }
        assert(elems_view(req@) =~= rhs);
    }
    obj3("type", JsonValue::string("object"), "properties", JsonValue::object(props), "required", req_v)
}

/// A tool definition.
fn tool_value(name: &str, description: &str, input_schema: JsonValue) -> (r: JsonValue)
    ensures
        r@ == tool(name@, description@, input_schema@),
{
    obj3("name", JsonValue::string(name), "description", JsonValue::string(description), "inputSchema", input_schema)
}

/// The properties of a position tool.
fn position_props_value() -> (r: Vec<(String, JsonValue)>)
    ensures
        members_view(r@) == position_props(),
{
    let mut m: Vec<(String, JsonValue)> = Vec::new();
    m.push((String::from_str("file_path"), prop_value("string", "Absolute file path")));
    m.push((String::from_str("line"), prop_value("integer", "Line number (0-based)")));
    m.push((String::from_str("character"), prop_value("integer", "Character offset (0-based)")));
    proof {
        lemma_members_view(m@);
        assert(members_view(m@) =~= position_props());
    }
    m
}

/// The required names of a position tool.
fn position_required_value() -> (r: Vec<&'static str>)
    ensures
        r@.map_values(|s: &str| s@) == position_required(),
{
    let mut v: Vec<&'static str> = Vec::new();
    v.push("file_path");
    v.push("line");
    v.push("character");
    assert(v@.map_values(|s: &str| s@) =~= position_required());
    v
}

/// A schema with one string property, which is required.
fn single_string_schema(name: &'static str, description: &str) -> (r: JsonValue)
    ensures
        r@ == schema(seq![(name@, prop("string"@, description@))], seq![name@]),
{
    let mut m: Vec<(String, JsonValue)> = Vec::new();
    m.push((String::from_str(name), prop_value("string", description)));
    let mut req: Vec<&'static str> = Vec::new();
    req.push(name);
    proof {
        lemma_members_view(m@);
        assert(members_view(m@) =~= seq![(name@, prop("string"@, description@))]);
        assert(req@.map_values(|s: &str| s@) =~= seq![name@]);
    }
    schema_value(m, req)
}

impl McpTool {
    /// All LSP-based tool definitions.
    pub fn lsp_definitions() -> (r: Vec<JsonValue>)
        ensures
            elems_view(r@) == lsp_tool_defs(),
    {
        let mut goto_props = position_props_value();
        let ghost pp = goto_props@;
        proof { lemma_members_view(pp); }
        goto_props.push((String::from_str("all_implementations"),
            prop_default_value("boolean", "Return all implementations (default: top 3)", JsonValue::Bool(false))));
        proof {
            lemma_members_view(goto_props@);
            assert(members_view(goto_props@) =~= position_props().push(("all_implementations"@, prop_default("boolean"@,
                "Return all implementations (default: top 3)"@, Json::Bool(false)))));
        }
        let mut v: Vec<JsonValue> = Vec::new();
        v.push(tool_value("lsp_goto_definition", "Go to definition of symbol at position. Returns target file and code snippet.",
            schema_value(goto_props, position_required_value())));
        v.push(tool_value("lsp_find_references", "Find all references to symbol at position across the workspace.",
            schema_value(position_props_value(), position_required_value())));
        v.push(tool_value("lsp_hover", "Get type signature and documentation for symbol at position.",
            schema_value(position_props_value(), position_required_value())));
        v.push(tool_value("lsp_workspace_symbols", "Search for symbols (classes, functions, etc.) by name across the workspace.",
            single_string_schema("query", "Symbol name or partial match")));
        v.push(tool_value("lsp_get_diagnostics", "Get lint and type errors for a file.",
            single_string_schema("file_path", "Absolute file path")));
        proof {
            lemma_elems_view(v@);
            assert(elems_view(v@) =~= lsp_tool_defs());
        }
        v
    }

    /// All tool definitions: the LSP tools, then hybrid search.
    pub fn definitions() -> (r: Vec<JsonValue>)
        ensures
            elems_view(r@) == lsp_tool_defs().push(hybrid_tool_def()),
    {
        let mut defs = Self::lsp_definitions();
        let ghost before = defs@;
        let mut m: Vec<(String, JsonValue)> = Vec::new();
        m.push((String::from_str("query"), prop_value("string", "Search query (symbol name or text pattern)")));
        m.push((String::from_str("include_symbols"),
            prop_default_value("boolean", "Include LSP symbol results (default: true)", JsonValue::Bool(true))));
        m.push((String::from_str("include_text"),
            prop_default_value("boolean", "Include text search results (default: true)", JsonValue::Bool(true))));
        m.push((String::from_str("file_types"), string_list_value("Filter by file extensions (e.g., [\"rs\", \"toml\"])")));
        m.push((String::from_str("max_results"),
            prop_default_value("integer", "Maximum total results (default: 10)", JsonValue::uint(10))));
        let mut req: Vec<&'static str> = Vec::new();
        req.push("query");
        proof {
            lemma_members_view(m@);
            assert(req@.map_values(|s: &str| s@) =~= seq!["query"@]);
            assert(members_view(m@) =~= seq![
                ("query"@, prop("string"@, "Search query (symbol name or text pattern)"@)),
                ("include_symbols"@, prop_default("boolean"@, "Include LSP symbol results (default: true)"@, Json::Bool(true))),
                ("include_text"@, prop_default("boolean"@, "Include text search results (default: true)"@, Json::Bool(true))),
                ("file_types"@, string_list_prop("Filter by file extensions (e.g., [\"rs\", \"toml\"])"@)),
                ("max_results"@, prop_default("integer"@, "Maximum total results (default: 10)"@, Json::Number(Num::PosInt(10)))),
            ]);
        }
        let hybrid = tool_value("lsp_hybrid_search",
            "Search for symbols and text matches across the workspace. Combines LSP symbol search with ripgrep-like text search to find TODOs, comments, strings, and symbols.",
            schema_value(m, req));
        defs.push(hybrid);
        proof {
            lemma_elems_view(before);
            lemma_elems_view(defs@);
            assert(elems_view(defs@) =~= elems_view(before).push(hybrid@));
        }
        defs
    }

    /// The tool definitions available without an LSP server.
    pub fn standalone_definitions() -> (r: Vec<JsonValue>)
        ensures
            elems_view(r@) == standalone_tool_defs(),
    {
        let mut m: Vec<(String, JsonValue)> = Vec::new();
        m.push((String::from_str("query"), prop_value("string", "Search pattern (regex supported)")));
        m.push((String::from_str("file_types"), string_list_value("Filter by file extensions (e.g., [\"txt\", \"md\"])")));
        m.push((String::from_str("max_results"),
            prop_default_value("integer", "Maximum results (default: 20)", JsonValue::uint(20))));
        let mut req: Vec<&'static str> = Vec::new();
        req.push("query");
        proof {
            lemma_members_view(m@);
            assert(req@.map_values(|s: &str| s@) =~= seq!["query"@]);
            assert(members_view(m@) =~= seq![
                ("query"@, prop("string"@, "Search pattern (regex supported)"@)),
                ("file_types"@, string_list_prop("Filter by file extensions (e.g., [\"txt\", \"md\"])"@)),
                ("max_results"@, prop_default("integer"@, "Maximum results (default: 20)"@, Json::Number(Num::PosInt(20)))),
            ]);
        }
        let search = tool_value("text_search",
            "Search for text patterns across files in the workspace (ripgrep-based). Works without LSP.", schema_value(m, req));
        let mut lp: Vec<(String, JsonValue)> = Vec::new();
        lp.push((String::from_str("directory"), prop_value("string", "Subdirectory path (default: workspace root)")));
        lp.push((String::from_str("recursive"), prop_default_value("boolean", "List recursively", JsonValue::Bool(false))));
        proof {
            lemma_members_view(lp@);
            assert(members_view(lp@) =~= seq![
                ("directory"@, prop("string"@, "Subdirectory path (default: workspace root)"@)),
                ("recursive"@, prop_default("boolean"@, "List recursively"@, Json::Bool(false))),
            ]);
        }
        let list_schema = obj2("type", JsonValue::string("object"), "properties", JsonValue::object(lp));
        let list = tool_value("file_list", "List files in the workspace directory.", list_schema);
        let mut v: Vec<JsonValue> = Vec::new();
        v.push(search);
        v.push(list);
        proof {
            lemma_elems_view(v@);
            assert(elems_view(v@) =~= standalone_tool_defs());
        }
        v
    }
}

} // verus!
