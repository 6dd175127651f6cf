use lsp_index::json::{JsonNumber, JsonValue};
use lsp_index::search::hybrid::{
    deduplicate_text_matches, merge_hybrid_results, parse_symbol_results, symbol_kind_to_string,
    text_search_options, HybridSearchOptions, SymbolResult,
};
use lsp_index::search::searcher::{
    accepts_file, check_pattern, path_extension, record_file_matches, search_file, search_pattern,
};
use lsp_index::search::unified::{self, UnifiedResult};
use lsp_index::search::{SearchOptions, TextMatch};

fn object(members: Vec<(&str, JsonValue)>) -> JsonValue {
    JsonValue::Object(members.into_iter().map(|(k, v)| (k.to_string(), v)).collect())
}

fn text(s: &str) -> JsonValue {
    JsonValue::Str(s.to_string())
}

fn num(n: u64) -> JsonValue {
    JsonValue::Number(JsonNumber::PosInt(n))
}

fn symbol(name: &str, file: &str, line: u32) -> SymbolResult {
    SymbolResult { name: name.to_string(), kind: "Function".to_string(), file: file.to_string(), line, description: None }
}

fn text_match(path: &str, line_number: u64, line: &str) -> TextMatch {
    TextMatch { path: path.to_string(), line_number, line: line.to_string() }
}

#[test]
fn test_symbol_kind_to_string() {
    assert_eq!(symbol_kind_to_string(5), "Class");
    assert_eq!(symbol_kind_to_string(12), "Function");
    assert_eq!(symbol_kind_to_string(99), "Symbol");
}

#[test]
fn test_deduplicate_text_matches() {
    let symbols = vec![SymbolResult {
        name: "test_fn".to_string(),
        kind: "Function".to_string(),
        file: "src/lib.rs".to_string(),
        line: 10,
        description: None,
    }];
    let matches = vec![
        TextMatch { path: "src/lib.rs".to_string(), line_number: 10, line: "fn test_fn()".to_string() },
        TextMatch { path: "src/lib.rs".to_string(), line_number: 20, line: "let x = 5;".to_string() },
    ];
    let result = deduplicate_text_matches(matches, &symbols);
    assert_eq!(result.len(), 1);
    assert_eq!(result[0].line, 20);
}

#[test]
fn dedup_keeps_every_uncovered_match_in_order() {
    let symbols = vec![symbol("a", "x.rs", 3), symbol("b", "y.rs", 7)];
    let matches = vec![
        text_match("x.rs", 1, "one"),
        text_match("x.rs", 3, "covered"),
        text_match("y.rs", 3, "other file"),
        text_match("y.rs", 7, "covered too"),
    ];
    let result = deduplicate_text_matches(matches, &symbols);
    let kept: Vec<(String, u32, String)> = result.iter().map(|t| (t.file.clone(), t.line, t.content.clone())).collect();
    assert_eq!(
        kept,
        vec![("x.rs".to_string(), 1, "one".to_string()), ("y.rs".to_string(), 3, "other file".to_string())]
    );
}

#[test]
fn symbol_kinds_named() {
    assert_eq!(symbol_kind_to_string(6), "Method");
    assert_eq!(symbol_kind_to_string(22), "EnumMember");
    assert_eq!(symbol_kind_to_string(23), "Struct");
    assert_eq!(symbol_kind_to_string(1), "File");
    assert_eq!(symbol_kind_to_string(10), "Enum");
    assert_eq!(symbol_kind_to_string(0), "Symbol");
}

#[test]
fn symbols_parsed_from_workspace_answer() {
    let answer = JsonValue::Array(vec![
        object(vec![
            ("name", text("main")),
            ("kind", num(12)),
            ("location", object(vec![
                ("uri", text("file:///src/main.rs")),
                ("range", object(vec![("start", object(vec![("line", num(4)), ("character", num(0))]))])),
            ])),
            ("detail", text("fn main()")),
        ]),
        object(vec![("kind", num(5))]),
    ]);
    let symbols = parse_symbol_results(&answer);
    assert_eq!(symbols.len(), 2);
    assert_eq!(symbols[0].name, "main");
    assert_eq!(symbols[0].kind, "Function");
    assert_eq!(symbols[0].file, "/src/main.rs");
    assert_eq!(symbols[0].line, 4);
    assert_eq!(symbols[0].description, Some("fn main()".to_string()));
    assert_eq!(symbols[1].name, "unknown");
    assert_eq!(symbols[1].kind, "Class");
    assert_eq!(parse_symbol_results(&JsonValue::Null).len(), 0);
}

#[test]
fn hybrid_merge_respects_the_limit() {
    let options = HybridSearchOptions {
        query: "main".to_string(),
        include_symbols: true,
        include_text: true,
        file_types: None,
        max_results: 3,
    };
    let answer = JsonValue::Array(vec![
        object(vec![("name", text("a")), ("kind", num(12))]),
        object(vec![("name", text("b")), ("kind", num(12))]),
    ]);
    let texts = vec![text_match("f.rs", 1, "x"), text_match("f.rs", 2, "y"), text_match("f.rs", 3, "z")];
    let r = merge_hybrid_results(&options, Some(Ok(answer)), Some(Ok(texts)));
    assert_eq!(r.symbol_results.len(), 2);
    assert_eq!(r.text_results.len(), 1);
    assert_eq!(r.text_results[0].line, 1);
    assert!(r.symbol_results.len() + r.text_results.len() <= 3);
}

#[test]
fn hybrid_merge_drops_matches_on_a_symbol_definition() {
    let options = HybridSearchOptions {
        query: "greet".to_string(),
        include_symbols: true,
        include_text: true,
        file_types: None,
        max_results: 10,
    };
    let answer = JsonValue::Array(vec![object(vec![
        ("name", text("greet")),
        ("kind", num(12)),
        ("location", object(vec![
            ("uri", text("file:///w/src/lib.rs")),
            ("range", object(vec![("start", object(vec![("line", num(1))]))])),
        ])),
    ])]);
    let texts = vec![
        text_match("/w/src/lib.rs", 2, "pub fn greet(name: &str) -> String {"),
        text_match("/w/src/main.rs", 3, "greet(\"World\");"),
    ];
    let r = merge_hybrid_results(&options, Some(Ok(answer)), Some(Ok(texts)));
    assert_eq!(r.symbol_results.len(), 1);
    assert_eq!(r.symbol_results[0].line, 1);
    assert_eq!(r.text_results.len(), 1);
    assert_eq!(r.text_results[0].file, "/w/src/main.rs");
}

#[test]
fn hybrid_merge_without_symbols() {
    let options = HybridSearchOptions {
        query: "q".to_string(),
        include_symbols: false,
        include_text: true,
        file_types: None,
        max_results: 10,
    };
    let r = merge_hybrid_results(&options, None, Some(Err("bad pattern".to_string())));
    assert_eq!(r.symbol_results.len(), 0);
    assert_eq!(r.text_results.len(), 0);
}

#[test]
fn text_search_options_from_hybrid() {
    let options = HybridSearchOptions {
        query: "q".to_string(),
        include_symbols: true,
        include_text: true,
        file_types: Some(vec!["rs".to_string()]),
        max_results: 7,
    };
    let s = text_search_options("/work", &options);
    assert_eq!(s.root, "/work");
    assert_eq!(s.max_results, 14);
    assert_eq!(s.file_types, Some(vec!["rs".to_string()]));
    assert!(s.case_insensitive);
    let d = HybridSearchOptions::default();
    assert_eq!(d.max_results, 10);
    assert!(d.include_symbols && d.include_text);
}

#[test]
fn search_pattern_gets_case_flag_once() {
    let options = SearchOptions::default();
    assert_eq!(search_pattern("greet", &options), "(?i)greet");
    assert_eq!(search_pattern("(?i)greet", &options), "(?i)greet");
    let exact = SearchOptions { case_insensitive: false, ..SearchOptions::default() };
    assert_eq!(search_pattern("greet", &exact), "greet");
    assert_eq!(options.root, ".");
    assert_eq!(options.max_results, 100);
}

#[test]
fn extensions_and_type_filter() {
    assert_eq!(path_extension("src/lib.rs"), Some("rs".to_string()));
    assert_eq!(path_extension("archive.tar.gz"), Some("gz".to_string()));
    assert_eq!(path_extension(".gitignore"), None);
    assert_eq!(path_extension("Makefile"), None);
    assert_eq!(path_extension("dir.d/file"), None);
    let types = Some(vec!["rs".to_string(), "toml".to_string()]);
    assert!(accepts_file("Cargo.toml", &types));
    assert!(!accepts_file("README.md", &types));
    assert!(!accepts_file("Makefile", &types));
    assert!(accepts_file("Makefile", &None));
}

#[test]
fn file_matches_recorded_up_to_the_limit() {
    let mut matches: Vec<TextMatch> = Vec::new();
    let found = vec![(1u64, "a  ".to_string()), (2u64, "b\t".to_string())];
    let stop = record_file_matches(&mut matches, "f.rs", &found, 3);
    assert!(!stop);
    assert_eq!(matches.len(), 2);
    assert_eq!(matches[0].line, "a");
    assert_eq!(matches[1].line_number, 2);
    let more = vec![(5u64, "c".to_string()), (6u64, "d".to_string())];
    let stop = record_file_matches(&mut matches, "g.rs", &more, 3);
    assert!(stop);
    assert_eq!(matches.len(), 3);
    assert_eq!(matches[2].path, "g.rs");
}

#[test]
fn a_zero_limit_still_records_one_match() {
    let mut matches: Vec<TextMatch> = Vec::new();
    let found = vec![(3u64, "x".to_string()), (4u64, "y".to_string())];
    assert!(record_file_matches(&mut matches, "f.rs", &found, 0));
    assert_eq!(matches.len(), 1);
    let mut none: Vec<TextMatch> = Vec::new();
    assert!(!record_file_matches(&mut none, "f.rs", &vec![], 0));
    assert!(none.is_empty());
}

#[test]
fn unified_results_display() {
    let s = UnifiedResult::Symbol(unified::SymbolResult {
        name: "main".to_string(),
        kind: "Function".to_string(),
        file: "src/main.rs".to_string(),
        line: 3,
        description: None,
    });
    assert_eq!(s.file(), "src/main.rs");
    assert_eq!(s.line(), 3);
    assert_eq!(s.display(), "main (Function) @ src/main.rs:3");
    let t = UnifiedResult::Text(unified::TextResult {
        file: "a.rs".to_string(),
        line: 9,
        content: "  let x = 1;  ".to_string(),
        context: String::new(),
    });
    assert_eq!(t.display(), "let x = 1; @ a.rs:9");
    assert_eq!(t.line(), 9);
}

#[test]
fn file_contents_searched_with_the_pattern() {
    let options = SearchOptions {
        root: ".".to_string(),
        max_results: 10,
        file_types: Some(vec!["rs".to_string()]),
        case_insensitive: true,
    };
    assert!(check_pattern("greet", &options).is_ok());
    assert!(check_pattern("(unclosed", &options).is_err());
    let content = b"pub fn greet(name: &str) -> String {\n    format!(\"Hello\")\n}\nfn GREET_again() {}  \n".to_vec();
    let mut matches: Vec<TextMatch> = Vec::new();
    assert_eq!(search_file("greet", &options, &mut matches, "src/lib.rs", &content), Ok(false));
    assert_eq!(matches.len(), 2);
    assert_eq!(matches[0].line_number, 1);
    assert_eq!(matches[0].line, "pub fn greet(name: &str) -> String {");
    assert_eq!(matches[1].line_number, 4);
    assert_eq!(matches[1].line, "fn GREET_again() {}");
    assert_eq!(search_file("greet", &options, &mut matches, "README.md", &content), Ok(false));
    assert_eq!(matches.len(), 2);
    assert!(search_file("(unclosed", &options, &mut matches, "a.rs", &content).is_err());
    assert_eq!(matches.len(), 2);
    let exact = SearchOptions { case_insensitive: false, ..options };
    let mut only: Vec<TextMatch> = Vec::new();
    assert_eq!(search_file("greet", &exact, &mut only, "b.rs", &content), Ok(false));
    assert_eq!(only.len(), 1);
    let limited = SearchOptions { max_results: 1, ..exact };
    let mut one: Vec<TextMatch> = Vec::new();
    assert_eq!(search_file("fn", &limited, &mut one, "c.rs", &content), Ok(true));
    assert_eq!(one.len(), 1);
}

#[test]
fn dedup_drops_the_definition_line_and_the_same_number() {
    let symbols = vec![symbol("f", "a.rs", 9)];
    let matches = vec![text_match("a.rs", 10, "fn f()"), text_match("a.rs", 9, "// f"), text_match("a.rs", 11, "f();")];
    let result = deduplicate_text_matches(matches, &symbols);
    assert_eq!(result.len(), 1);
    assert_eq!(result[0].line, 11);
}
