use lsp_index::json::{JsonNumber, JsonValue};
use lsp_index::mcp::http_server;
use lsp_index::mcp::protocol::{McpError, McpRequest, McpResponse};
use lsp_index::mcp::server::{
    create_error_response, parse_hover_result, parse_hybrid_result, parse_references_result,
    parse_symbols_result, plan_tool_call, render_definition, render_diagnostics, route_request,
    text_result, RequestStep, ToolCall,
};
use lsp_index::mcp::tools::McpTool;
use lsp_index::mcp::McpServer;
use lsp_index::search::hybrid::{HybridResult, SymbolResult, TextResult};

fn object(members: Vec<(&str, JsonValue)>) -> JsonValue {
    JsonValue::Object(members.into_iter().map(|(k, v)| (k.to_string(), v)).collect())
}

fn text(s: &str) -> JsonValue {
    JsonValue::Str(s.to_string())
}

fn num(n: u64) -> JsonValue {
    JsonValue::Number(JsonNumber::PosInt(n))
}

fn content_text(v: &JsonValue) -> String {
    let arr = v.get("content").and_then(|c| c.as_array()).expect("content");
    assert_eq!(arr.len(), 1);
    assert_eq!(arr[0].get("type").and_then(|t| t.as_str()), Some("text"));
    arr[0].get("text").and_then(|t| t.as_str()).expect("text").to_string()
}

fn location(uri: &str, line: u64) -> JsonValue {
    object(vec![
        ("uri", text(uri)),
        ("range", object(vec![("start", object(vec![("line", num(line)), ("character", num(0))]))])),
    ])
}

fn request(method: &str, id: Option<i64>, params: Option<JsonValue>) -> McpRequest {
    McpRequest { jsonrpc: "2.0".to_string(), id, method: method.to_string(), params }
}

fn tool_names(definitions: &[JsonValue]) -> Vec<String> {
    definitions.iter().map(|d| d.get("name").and_then(|n| n.as_str()).unwrap().to_string()).collect()
}

#[test]
fn test_mcp_protocol_parsing() {
    let request_json = object(vec![
        ("jsonrpc", text("2.0")),
        ("id", num(1)),
        ("method", text("initialize")),
        ("params", object(vec![
            ("protocolVersion", text("2024-11-05")),
            ("capabilities", object(vec![])),
            ("clientInfo", object(vec![("name", text("test")), ("version", text("1.0"))])),
        ])),
    ]);
    let request = McpRequest::from_json(&request_json).expect("Failed to parse MCP request");
    assert_eq!(request.jsonrpc, "2.0");
    assert_eq!(request.id, Some(1));
    assert_eq!(request.method, "initialize");

    let response = McpResponse {
        jsonrpc: "2.0".to_string(),
        id: 1,
        result: Some(object(vec![("protocolVersion", text("2024-11-05"))])),
        error: None,
    };
    let response_json = response.to_json();
    assert_eq!(response_json.get("jsonrpc").and_then(|v| v.as_str()), Some("2.0"));
    assert_eq!(response_json.get("id").and_then(|v| v.as_u64()), Some(1));
    assert!(response_json.get("result").map(|r| r.is_object()).unwrap_or(false));
}

#[test]
fn test_mcp_tool_definitions() {
    let definitions = McpTool::definitions();
    let names = tool_names(&definitions);
    for expected in ["lsp_goto_definition", "lsp_find_references", "lsp_hover", "lsp_workspace_symbols",
        "lsp_get_diagnostics", "lsp_hybrid_search"] {
        assert!(names.contains(&expected.to_string()), "Missing {} tool", expected);
    }
    for def in &definitions {
        assert!(def.get("name").map(|v| v.is_string()).unwrap_or(false), "Tool missing name");
        assert!(def.get("description").map(|v| v.is_string()).unwrap_or(false), "Tool missing description");
        assert!(def.get("inputSchema").map(|v| v.is_object()).unwrap_or(false), "Tool missing inputSchema");
    }
}

#[test]
fn test_mcp_tool_structure() {
    let definitions = McpTool::definitions();
    let names = tool_names(&definitions);
    for expected in ["lsp_goto_definition", "lsp_find_references", "lsp_hover", "lsp_workspace_symbols",
        "lsp_get_diagnostics", "lsp_hybrid_search"] {
        assert!(names.iter().any(|n| n == expected));
    }
    let goto_def = definitions
        .iter()
        .find(|d| d.get("name").and_then(|n| n.as_str()) == Some("lsp_goto_definition"))
        .unwrap();
    let schema = goto_def.get("inputSchema").unwrap();
    let required = schema.get("required").and_then(|r| r.as_array()).unwrap();
    assert!(required.iter().any(|r| r.as_str() == Some("file_path")));
    assert!(required.iter().any(|r| r.as_str() == Some("line")));
    assert!(required.iter().any(|r| r.as_str() == Some("character")));
}

#[test]
fn tool_lists_by_server() {
    assert_eq!(McpTool::lsp_definitions().len(), 5);
    assert_eq!(McpTool::definitions().len(), 6);
    let standalone = tool_names(&McpTool::standalone_definitions());
    assert!(standalone.contains(&"text_search".to_string()));
    assert!(standalone.contains(&"file_list".to_string()));
}

#[test]
fn request_decoding_refuses_bad_shapes() {
    assert!(McpRequest::from_json(&object(vec![("jsonrpc", text("2.0"))])).is_none());
    assert!(McpRequest::from_json(&object(vec![("jsonrpc", text("2.0")), ("method", num(3))])).is_none());
    let negative = object(vec![
        ("jsonrpc", text("2.0")),
        ("method", text("ping")),
        ("id", JsonValue::Number(JsonNumber::NegInt(-4))),
        ("params", JsonValue::Null),
    ]);
    let r = McpRequest::from_json(&negative).unwrap();
    assert_eq!(r.id, Some(-4));
    assert!(r.params.is_none());
    let positional = JsonValue::Array(vec![text("2.0"), JsonValue::Null, text("tools/list"), JsonValue::Null]);
    let r = McpRequest::from_json(&positional).unwrap();
    assert_eq!(r.id, None);
    assert_eq!(r.method, "tools/list");
    assert!(McpRequest::from_json(&text("initialize")).is_none());
}

#[test]
fn error_response_json() {
    let r = McpResponse {
        jsonrpc: "2.0".to_string(),
        id: -2,
        result: None,
        error: Some(McpError { code: -32601, message: "Method not found: x".to_string(), data: None }),
    };
    let j = r.to_json();
    assert!(j.get("result").is_none());
    assert_eq!(j.get("id").and_then(|v| v.as_i64()), Some(-2));
    let e = j.get("error").unwrap();
    assert_eq!(e.get("code").and_then(|v| v.as_i64()), Some(-32601));
    assert_eq!(e.get("message").and_then(|v| v.as_str()), Some("Method not found: x"));
    assert!(e.get("data").is_none());
}

#[test]
fn routing_answers_under_the_request_id() {
    let server = McpServer::new();
    match server.handle_request(&request("initialize", Some(7), None)) {
        RequestStep::Reply(r) => {
            assert_eq!(r.id, 7);
            assert!(r.error.is_none());
            let result = r.result.unwrap();
            assert_eq!(result.get("protocolVersion").and_then(|v| v.as_str()), Some("2024-11-05"));
            let info = result.get("serverInfo").unwrap();
            assert_eq!(info.get("name").and_then(|v| v.as_str()), Some("lsp-index"));
            assert_eq!(info.get("version").and_then(|v| v.as_str()), Some("0.1.0"));
        }
        _ => panic!("expected a reply"),
    }
    match server.handle_request(&request("initialized", None, None)) {
        RequestStep::Reply(r) => {
            assert_eq!(r.id, 0);
            assert_eq!(r.result, Some(object(vec![])));
        }
        _ => panic!("expected a reply"),
    }
    match server.handle_request(&request("tools/list", Some(2), None)) {
        RequestStep::Reply(r) => {
            let tools = r.result.unwrap();
            assert_eq!(tools.get("tools").and_then(|t| t.as_array()).map(|a| a.len()), Some(6));
        }
        _ => panic!("expected a reply"),
    }
    match server.handle_request(&request("bogus", Some(3), None)) {
        RequestStep::Reply(r) => {
            assert!(r.result.is_none());
            let e = r.error.unwrap();
            assert_eq!(e.code, -32601);
            assert_eq!(e.message, "Method not found: bogus");
        }
        _ => panic!("expected a reply"),
    }
    let params = object(vec![("name", text("lsp_hover")), ("arguments", object(vec![("line", num(2))]))]);
    match route_request("lsp-index", "0.1.0", &request("tools/call", Some(9), Some(params))) {
        RequestStep::CallTool { id, name, arguments } => {
            assert_eq!(id, 9);
            assert_eq!(name, "lsp_hover");
            assert_eq!(arguments, object(vec![("line", num(2))]));
        }
        _ => panic!("expected a tool call"),
    }
    match route_request("n", "v", &request("tools/call", None, None)) {
        RequestStep::CallTool { id, name, arguments } => {
            assert_eq!(id, 0);
            assert_eq!(name, "");
            assert_eq!(arguments, object(vec![]));
        }
        _ => panic!("expected a tool call"),
    }
}

#[test]
fn http_routing_matches_stdio() {
    match http_server::handle_mcp_request("lsp-index", "0.1.0", &request("nope", Some(1), None)) {
        RequestStep::Reply(r) => assert_eq!(r.error.unwrap().message, "Method not found: nope"),
        _ => panic!("expected a reply"),
    }
}

#[test]
fn tool_replies() {
    let ok = McpServer::tool_reply(4, Ok(text_result("done")));
    assert_eq!(ok.id, 4);
    assert!(ok.error.is_none());
    let err = McpServer::tool_reply(5, Err("LSP client not initialized".to_string()));
    assert!(err.result.is_none());
    let e = err.error.unwrap();
    assert_eq!(e.code, -1);
    assert_eq!(e.message, "LSP client not initialized");
    let made = create_error_response(6, -32601, "x".to_string());
    assert_eq!(made.jsonrpc, "2.0");
    assert_eq!(made.error.unwrap().code, -32601);
}

#[test]
fn tool_calls_planned() {
    let args = object(vec![
        ("file_path", text("/src/main.rs")),
        ("line", num(3)),
        ("character", num(8)),
        ("all_implementations", JsonValue::Bool(true)),
    ]);
    match plan_tool_call(true, "lsp_goto_definition", &args) {
        Ok(ToolCall::GotoDefinition { file_path, line, character, all_implementations }) => {
            assert_eq!(file_path, "/src/main.rs");
            assert_eq!((line, character), (3, 8));
            assert!(all_implementations);
        }
        _ => panic!("expected goto definition"),
    }
    match plan_tool_call(true, "lsp_goto_definition", &object(vec![])) {
        Ok(ToolCall::GotoDefinition { all_implementations, .. }) => assert!(!all_implementations),
        _ => panic!("expected goto definition"),
    }
    match plan_tool_call(true, "lsp_hover", &object(vec![])) {
        Ok(ToolCall::Hover { file_path, line, character }) => {
            assert_eq!(file_path, "");
            assert_eq!((line, character), (0, 0));
        }
        _ => panic!("expected hover"),
    }
    let search = object(vec![
        ("query", text("main")),
        ("include_text", JsonValue::Bool(false)),
        ("file_types", JsonValue::Array(vec![text("rs"), num(1), text("toml")])),
    ]);
    match plan_tool_call(true, "lsp_hybrid_search", &search) {
        Ok(ToolCall::HybridSearch(o)) => {
            assert_eq!(o.query, "main");
            assert!(o.include_symbols);
            assert!(!o.include_text);
            assert_eq!(o.max_results, 10);
            assert_eq!(o.file_types, Some(vec!["rs".to_string(), "toml".to_string()]));
        }
        _ => panic!("expected hybrid search"),
    }
    for def in McpTool::definitions() {
        let name = def.get("name").and_then(|n| n.as_str()).unwrap().to_string();
        assert!(plan_tool_call(true, &name, &object(vec![])).is_ok(), "{} not planned", name);
    }
    match plan_tool_call(false, "lsp_hover", &args) {
        Err(e) => assert_eq!(e, "LSP client not initialized"),
        _ => panic!("expected a refusal"),
    }
}

#[test]
fn definition_locations_and_rendering() {
    let answer = JsonValue::Array(vec![
        location("file:///a.rs", 1),
        location("file:///b.rs", 2),
        object(vec![
            ("targetUri", text("file:///c.rs")),
            ("targetRange", object(vec![("start", object(vec![("line", num(3))]))])),
        ]),
        location("file:///d.rs", 4),
    ]);
    let three = McpServer::parse_definition_locations(&answer, false);
    assert_eq!(three, vec![("/a.rs".to_string(), 1), ("/b.rs".to_string(), 2), ("/c.rs".to_string(), 3)]);
    let all = McpServer::parse_definition_locations(&answer, true);
    assert_eq!(all.len(), 4);
    let windows = McpServer::parse_definition_locations(&location("file:///d:/x.rs", 0), false);
    assert_eq!(windows, vec![("d:/x.rs".to_string(), 0)]);

    let none = render_definition(&vec![], &vec![]).unwrap();
    assert_eq!(content_text(&none), "No definition found");
    let locs = vec![("/a.rs".to_string(), 1u32)];
    let reads = vec![Ok("fn a() {}\nfn b() {}\nfn c() {}".to_string())];
    let shown = render_definition(&locs, &reads).unwrap();
    assert_eq!(content_text(&shown), "File: /a.rs:2\n   1: fn a() {}\n   2: fn b() {}\n   3: fn c() {}");
    let failed = render_definition(&locs, &vec![Err("No such file".to_string())]);
    assert_eq!(failed.unwrap_err(), "No such file");
}

#[test]
fn references_rendered() {
    let answer = JsonValue::Array(vec![location("file:///a.rs", 0), object(vec![("x", num(1))]), location("file:///b.rs", 9)]);
    let r = parse_references_result(&answer).unwrap();
    assert_eq!(content_text(&r), "Found 2 references:\n/a.rs:1\n/b.rs:10");
    let none = parse_references_result(&JsonValue::Null).unwrap();
    assert_eq!(content_text(&none), "No references found");
}

#[test]
fn hover_rendered() {
    let markup = object(vec![("contents", object(vec![("kind", text("markdown")), ("value", text("fn main()"))]))]);
    assert_eq!(content_text(&parse_hover_result(&markup).unwrap()), "fn main()");
    let marked = object(vec![("contents", JsonValue::Array(vec![text("a"), object(vec![("value", text("b"))]), num(1)]))]);
    assert_eq!(content_text(&parse_hover_result(&marked).unwrap()), "a\nb");
    assert_eq!(content_text(&parse_hover_result(&JsonValue::Null).unwrap()), "No hover information available");
    let odd = object(vec![("contents", num(1))]);
    assert_eq!(content_text(&parse_hover_result(&odd).unwrap()), "Unable to parse hover contents");
}

#[test]
fn symbols_rendered_by_each_server() {
    let sym = object(vec![
        ("name", text("Foo")),
        ("kind", num(23)),
        ("location", location("file:///src/foo.rs", 4)),
    ]);
    let answer = JsonValue::Array(vec![sym]);
    assert_eq!(content_text(&parse_symbols_result(&answer).unwrap()), "Found 1 symbols:\nFoo (Struct) @ /src/foo.rs:5");
    assert_eq!(
        content_text(&http_server::parse_symbols_result(&answer).unwrap()),
        "Found 1 symbols:\nFoo (Struct) @ /src/foo.rs:5"
    );
    let unnamed = JsonValue::Array(vec![object(vec![])]);
    assert_eq!(content_text(&parse_symbols_result(&unnamed).unwrap()), "Found 1 symbols:\nunknown (Symbol) @ :1");
    assert_eq!(content_text(&parse_symbols_result(&JsonValue::Array(vec![])).unwrap()), "No symbols found");
}

#[test]
fn diagnostics_rendered() {
    let ds = vec![
        object(vec![("message", text("unused variable")), ("severity", num(2))]),
        object(vec![("severity", num(9))]),
        object(vec![("message", text("boom"))]),
    ];
    assert_eq!(
        content_text(&render_diagnostics(&ds)),
        "Found 3 diagnostics:\n[Warning] unused variable\n[Unknown] Unknown\n[Error] boom"
    );
    assert_eq!(content_text(&render_diagnostics(&vec![])), "No diagnostics available for this file");
}

#[test]
fn hybrid_answer_rendered() {
    let result = HybridResult {
        symbol_results: vec![SymbolResult {
            name: "main".to_string(),
            kind: "Function".to_string(),
            file: "src/main.rs".to_string(),
            line: 3,
            description: Some("fn main()".to_string()),
        }],
        text_results: vec![TextResult { file: "src/lib.rs".to_string(), line: 8, content: "  main();  ".to_string() }],
    };
    assert_eq!(
        content_text(&parse_hybrid_result(&result).unwrap()),
        "=== Symbols (1 found) ===\nmain (Function) @ src/main.rs:3 - fn main()\n\n=== Text Matches (1 found) ===\nsrc/lib.rs:8 | main();"
    );
    let empty = HybridResult { symbol_results: vec![], text_results: vec![] };
    assert_eq!(content_text(&parse_hybrid_result(&empty).unwrap()), "No results found");
    let only_text = HybridResult {
        symbol_results: vec![],
        text_results: vec![TextResult { file: "a".to_string(), line: 1, content: "x".to_string() }],
    };
    assert_eq!(content_text(&parse_hybrid_result(&only_text).unwrap()), "=== Text Matches (1 found) ===\na:1 | x");
}

#[test]
fn server_state() {
    let mut server = McpServer::new();
    assert_eq!(server.workspace_root, ".");
    server.set_workspace("/work".to_string());
    assert_eq!(server.workspace_root, "/work");
    assert_eq!(server.name, "lsp-index");
    assert_eq!(McpServer::uri_to_path("file:///home/x"), Some("/home/x".to_string()));
    assert_eq!(McpServer::uri_to_path("file:///C:/x"), Some("C:/x".to_string()));
    assert_eq!(McpServer::uri_to_path("jdt://x"), None);
}
