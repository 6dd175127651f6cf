use lsp_index::bridge::handlers::handle_tool_call;
use lsp_index::bridge::snippet::{extract_snippets, render_snippet, snippet_in_range, DEFAULT_SNIPPET_LINES};
use lsp_index::cli::{port_arg, workspace_arg};
use lsp_index::gui::{detect_workspace, goto_definition, start_lsp, stop_lsp};
use lsp_index::json::{JsonNumber, JsonValue};
use lsp_index::mcp::McpContent;
use lsp_index::text::{
    decimal_padded, join, lines, parse_usize, replace_all, starts_with_ignore_ascii_case, trim, trim_end,
};
use lsp_index::utils::file::{file_exists, select_lines};
use lsp_index::utils::uri::{normalize_uri, uri_to_path};
use lsp_index::Config;

fn object(members: Vec<(&str, JsonValue)>) -> JsonValue {
    JsonValue::Object(members.into_iter().map(|(k, v)| (k.to_string(), v)).collect())
}

fn text(s: &str) -> JsonValue {
    JsonValue::Str(s.to_string())
}

fn num(n: u64) -> JsonValue {
    JsonValue::Number(JsonNumber::PosInt(n))
}

fn strings(v: &[&str]) -> Vec<String> {
    v.iter().map(|s| s.to_string()).collect()
}

fn numbered(n: usize) -> String {
    (1..=n).map(|i| format!("line {}", i)).collect::<Vec<_>>().join("\n")
}

#[test]
fn uris_normalized() {
    assert_eq!(normalize_uri("file:///home/x"), "file:///home/x");
    assert_eq!(normalize_uri("/home/u/a.rs"), "file:///home/u/a.rs");
    assert_eq!(uri_to_path(&normalize_uri("/home/u/a.rs")), Some("/home/u/a.rs".to_string()));
    assert_eq!(normalize_uri("/C:/x"), "file:///C:/x");
    assert_eq!(normalize_uri("file:///C:/x"), "file://C:/x");
    assert_eq!(normalize_uri("file:///c:/x"), "file://c:/x");
    assert_eq!(normalize_uri("C:/x"), "file://C:/x");
    assert_eq!(normalize_uri("file://host/x"), "file://host/x");
    assert_eq!(uri_to_path("file:///home/x"), Some("/home/x".to_string()));
    assert_eq!(uri_to_path("http://x"), None);
    for uri in ["file:///a", "/a", "file://h/a", "", "jdt://x"] {
        let n = normalize_uri(uri);
        assert!(n.starts_with("file://"));
        assert_eq!(normalize_uri(&n), n);
    }
    for path in ["/home/x.rs", "", "relative/p"] {
        assert_eq!(uri_to_path(&format!("file://{}", path)), Some(path.to_string()));
    }
}

#[test]
fn file_lines_selected() {
    let content = "a\r\nb\nc\n";
    assert_eq!(select_lines(content, 0, 2), strings(&["a", "b"]));
    assert_eq!(select_lines(content, 1, 10), strings(&["b", "c"]));
    assert_eq!(select_lines(content, 5, 9), Vec::<String>::new());
    assert!(file_exists("."));
    assert!(!file_exists("./no/such/file/anywhere"));
}

#[test]
fn snippets_numbered_and_bounded() {
    let content = numbered(10);
    assert_eq!(render_snippet(&content, 4, 1), "   4: line 4\n   5: line 5\n   6: line 6");
    assert_eq!(render_snippet(&content, 0, 2), "   1: line 1\n   2: line 2\n   3: line 3");
    let long = numbered(100);
    let s = render_snippet(&long, 50, 30);
    let shown: Vec<&str> = s.split('\n').collect();
    assert_eq!(shown.len(), DEFAULT_SNIPPET_LINES);
    assert_eq!(shown[0], "  26: line 26");
    assert_eq!(shown[49], "  75: line 75");
    assert!(shown.contains(&"  51: line 51"));
    let big = numbered(200);
    let t = render_snippet(&big, 100, 30);
    assert_eq!(t.split('\n').count(), 50);
    assert!(t.contains(" 101: line 101"));
    assert!(snippet_in_range(&content, 9, 20));
    assert!(!snippet_in_range(&content, 40, 2));
    let reads = vec![(Ok(content.clone()), 9u32), (Err("gone".to_string()), 0u32)];
    assert_eq!(extract_snippets(&reads, 0), Err("gone".to_string()));
    let ok = extract_snippets(&vec![(Ok(content.clone()), 9u32)], 0).unwrap();
    assert_eq!(ok, vec!["  10: line 10".to_string()]);
}

#[test]
fn text_helpers() {
    assert_eq!(trim("  x y \t\n"), "x y");
    assert_eq!(trim_end("x  "), "x");
    assert_eq!(decimal_padded(7, 4), "   7");
    assert_eq!(decimal_padded(12345, 4), "12345");
    assert_eq!(join(&strings(&["a", "b", "c"]), ", "), "a, b, c");
    assert_eq!(lines("a\r\nb\n\nc"), strings(&["a", "b", "", "c"]));
    assert_eq!(replace_all("file:///x file:///y", "file:///", "file://"), "file://x file://y");
    assert!(starts_with_ignore_ascii_case("Content-Length: 3", "content-length:"));
    assert_eq!(parse_usize("42"), Some(42));
    assert_eq!(parse_usize("+42"), Some(42));
    assert_eq!(parse_usize(""), None);
    assert_eq!(parse_usize("+"), None);
    assert_eq!(parse_usize("-1"), None);
    assert_eq!(parse_usize("4 2"), None);
    assert_eq!(parse_usize("99999999999999999999999"), None);
}

#[test]
fn json_lookups() {
    let v = object(vec![("a", num(1)), ("b", text("x")), ("a", num(2))]);
    assert_eq!(v.get("a").and_then(|x| x.as_u64()), Some(1));
    assert_eq!(v.str_arg("b"), "x");
    assert_eq!(v.str_arg("missing"), "");
    assert_eq!(v.u64_arg("missing", 9), 9);
    assert!(v.bool_arg("missing", true));
    assert_eq!(JsonValue::integer(-3), JsonValue::Number(JsonNumber::NegInt(-3)));
    assert_eq!(JsonValue::integer(3), num(3));
    assert_eq!(v.deep_clone(), v);
}

#[test]
fn config_defaults() {
    let c = Config::new("/work".to_string());
    assert_eq!(c.workspace_root, "/work");
    assert_eq!(c.snippet_max_lines, 50);
    assert_eq!(c.max_implementations, 3);
    let d = Config::default();
    assert_eq!(d.workspace_root, ".");
}

#[test]
fn handler_answers() {
    let args = object(vec![("file_path", text("/a.rs")), ("line", num(3)), ("character", num(4))]);
    let r = handle_tool_call("lsp_goto_definition", &args).unwrap();
    match &r.content[0] {
        McpContent::Text { text } => assert_eq!(text, "goto_definition: /a.rs:3:4 (all=false)"),
    }
    assert_eq!(r.is_error, None);
    let u = handle_tool_call("nope", &args).unwrap();
    match &u.content[0] {
        McpContent::Text { text } => assert_eq!(text, "Unknown tool: nope"),
    }
    assert_eq!(u.is_error, Some(true));
}

#[test]
fn gui_commands() {
    let w = detect_workspace("/w".to_string(), &strings(&["package.json", "pom.xml"]));
    assert_eq!(w.path, "/w");
    assert_eq!(w.detected_language, Some("typescript".to_string()));
    assert_eq!(detect_workspace("/v".to_string(), &vec![]).detected_language, None);
    let mut clients = vec![
        start_lsp("rust".to_string(), "/a".to_string()),
        start_lsp("java".to_string(), "/b".to_string()),
        start_lsp("rust".to_string(), "/c".to_string()),
    ];
    assert_eq!(clients[0].status, "running");
    stop_lsp(&mut clients, "rust");
    assert_eq!(clients.len(), 1);
    assert_eq!(clients[0].workspace, "/b");
    assert_eq!(goto_definition("rust", "/a.rs", 1, 2), "Goto definition for rust at /a.rs:1:2");
}

#[test]
fn command_line_arguments() {
    assert_eq!(workspace_arg(None), ".");
    assert_eq!(workspace_arg(Some("/w".to_string())), "/w");
    assert_eq!(port_arg(None), 3000);
    assert_eq!(port_arg(Some("8080")), 8080);
    assert_eq!(port_arg(Some("65536")), 3000);
    assert_eq!(port_arg(Some("http")), 3000);
}
