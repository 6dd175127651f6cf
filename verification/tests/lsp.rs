use lsp_index::json::{JsonNumber, JsonValue};
use lsp_index::lsp::client::{
    did_change_params, did_close_params, did_open_params, document_uri, initialize_params, initialized_params,
    position_params, references_params,
    response_result, workspace_symbol_params, workspace_uri,
};
use lsp_index::lsp::download::{
    find_jdt_launcher, get_lsp_download_config, path_join, path_join_all, should_use_mirror, ArchiveType,
    ExecutableLookup, LspDownloader,
};
use lsp_index::lsp::process::{
    command_line, frame_message, is_notification, notification_message, read_header_line, request_message,
    required_content_length, HeaderStep, RequestCounter,
};
use lsp_index::lsp::registry::RegistryError;
use lsp_index::lsp::types::{
    create_position, create_text_document_identifier, create_text_document_position_params, file_path_to_uri,
    try_create_text_document_identifier, try_create_text_document_position_params, uri_to_file_path,
};
use lsp_index::lsp::watcher::{handle_event, is_watched_path, sync_action, SyncAction, WatchEventKind};
use lsp_index::lsp::{FileChangeKind, LspClient, LspConfig, LspRegistry};

fn object(members: Vec<(&str, JsonValue)>) -> JsonValue {
    JsonValue::Object(members.into_iter().map(|(k, v)| (k.to_string(), v)).collect())
}

fn text(s: &str) -> JsonValue {
    JsonValue::Str(s.to_string())
}

fn num(n: u64) -> JsonValue {
    JsonValue::Number(JsonNumber::PosInt(n))
}

fn strings(v: &[&str]) -> Vec<String> {
    v.iter().map(|s| s.to_string()).collect()
}

#[test]
fn registry_detects_by_root_file() {
    let reg = LspRegistry::new();
    assert_eq!(
        reg.root_files(),
        strings(&["Cargo.toml", "go.mod", "package.json", "pom.xml", "build.gradle", "build.gradle.kts"])
    );
    assert_eq!(reg.detect_language(&strings(&["build.gradle.kts"])).unwrap().language, "java");
    assert_eq!(reg.detect_language(&strings(&["Cargo.toml"])).unwrap().language, "rust");
    assert_eq!(reg.detect_language(&strings(&["build.gradle"])).unwrap().language, "java");
    assert_eq!(reg.detect_language(&strings(&["package.json", "go.mod"])).unwrap().language, "go");
    assert!(reg.detect_language(&strings(&["README.md"])).is_none());
    let java = reg.get_config("java").unwrap();
    assert_eq!(java.root_file, "pom.xml");
    assert!(java.supports_virtual_uris);
    assert!(reg.get_config("cobol").is_none());
    for present in [strings(&["go.mod"]), strings(&["package.json"]), strings(&["pom.xml", "Cargo.toml"])] {
        let detected = reg.detect_language(&present).unwrap();
        assert!(reg.get_config(&detected.language).is_some());
    }
    assert_eq!(reg.get_config("java").unwrap().root_file, "pom.xml");
}

#[test]
fn spawn_commands() {
    assert_eq!(LspConfig::rust().get_spawn_command(None), strings(&["rustup", "run", "stable", "rust-analyzer"]));
    assert_eq!(LspConfig::go().get_spawn_command(None), strings(&["gopls"]));
    assert_eq!(
        LspConfig::java().get_spawn_command(Some("/opt/jdt/launcher.jar".to_string())),
        strings(&["java", "-jar", "/opt/jdt/launcher.jar"])
    );
    assert_eq!(LspConfig::java_gradle().get_spawn_command(None), strings(&["java", "-jar", "jdt-language-server"]));
    assert_eq!(LspConfig::typescript().binary_name, "typescript-language-server");
    assert_eq!(
        RegistryError::UnsupportedLanguage("cobol".to_string()).message(),
        "Language not supported: cobol"
    );
    assert_eq!(RegistryError::BinaryNotFound("gopls".to_string()).message(), "LSP binary not found: gopls");
}

#[test]
fn lsp_type_helpers() {
    assert_eq!(file_path_to_uri("/home/x.rs"), "file:///home/x.rs");
    assert_eq!(uri_to_file_path("file:///home/x.rs"), Some("/home/x.rs".to_string()));
    assert_eq!(uri_to_file_path("jdt://x"), None);
    let p = create_position(3, 4);
    assert_eq!((p.line, p.character), (3, 4));
}

#[test]
fn document_identifiers_go_through_url_parsing() {
    let d = create_text_document_identifier("/home/user/My File.rs");
    assert_eq!(d.uri, "file:///home/user/My%20File.rs");
    let p = create_text_document_position_params("/a/b.rs", 1, 2);
    assert_eq!(p.text_document.uri, "file:///a/b.rs");
    assert_eq!((p.position.line, p.position.character), (1, 2));
    assert!(try_create_text_document_identifier("/a/b.rs").is_some());
    assert!(try_create_text_document_identifier("[bad").is_none());
    assert!(try_create_text_document_position_params("[bad", 0, 0).is_none());
}

#[test]
fn client_uris() {
    assert_eq!(document_uri("C:\\src\\main.rs"), Ok("file:///C:/src/main.rs".to_string()));
    assert!(document_uri("/src/a b.rs").unwrap().ends_with("/src/a%20b.rs"));
    assert_eq!(workspace_uri("\\\\?\\C:\\work"), Ok("file:///C:/work".to_string()));
    assert_eq!(workspace_uri("C:\\work"), Ok("file:///C:/work".to_string()));
}

#[test]
fn client_params() {
    assert_eq!(
        did_open_params("file:///a.rs", "rust", "fn main() {}"),
        object(vec![("textDocument", object(vec![
            ("uri", text("file:///a.rs")),
            ("languageId", text("rust")),
            ("version", num(0)),
            ("text", text("fn main() {}")),
        ]))])
    );
    assert_eq!(
        did_change_params("file:///a.rs", "x"),
        object(vec![
            ("textDocument", object(vec![("uri", text("file:///a.rs")), ("version", num(1))])),
            ("contentChanges", JsonValue::Array(vec![object(vec![("text", text("x"))])])),
        ])
    );
    assert_eq!(did_close_params("u"), object(vec![("textDocument", object(vec![("uri", text("u"))]))]));
    assert_eq!(
        position_params("u", 2, 5),
        object(vec![
            ("textDocument", object(vec![("uri", text("u"))])),
            ("position", object(vec![("line", num(2)), ("character", num(5))])),
        ])
    );
    let refs = references_params("u", 2, 5);
    assert_eq!(
        refs.get("context"),
        Some(&object(vec![("includeDeclaration", JsonValue::Bool(true))]))
    );
    assert_eq!(workspace_symbol_params("Foo"), object(vec![("query", text("Foo"))]));
    assert_eq!(
        initialize_params(42, "file:///w"),
        object(vec![("processId", num(42)), ("rootUri", text("file:///w")), ("capabilities", object(vec![]))])
    );
    assert_eq!(initialized_params(), object(vec![]));
}

#[test]
fn replies_read() {
    let ok = object(vec![("id", num(1)), ("result", JsonValue::Array(vec![]))]);
    assert_eq!(response_result(&ok), Ok(JsonValue::Array(vec![])));
    let empty = object(vec![("id", num(1))]);
    assert_eq!(response_result(&empty), Ok(JsonValue::Null));
    let err = object(vec![("id", num(1)), ("error", object(vec![("code", num(1))])), ("result", num(2))]);
    assert_eq!(response_result(&err), Err(object(vec![("code", num(1))])));
}

#[test]
fn client_state_and_diagnostics() {
    let mut client = LspClient::new("rust");
    assert_eq!(client.language(), "rust");
    assert!(!client.is_initialized(true));
    client.set_workspace_root("/work");
    client.mark_initialized();
    assert!(client.is_initialized(true));
    assert!(!client.is_initialized(false));
    assert!(client.get_diagnostics("src/a.rs").is_empty());
    let ds = vec![object(vec![("message", text("m"))])];
    client.update_diagnostics("file:///src/a.rs".to_string(), ds);
    assert_eq!(client.get_diagnostics("src\\a.rs"), vec![object(vec![("message", text("m"))])]);
    assert_eq!(client.get_diagnostics("src/a.rs"), vec![object(vec![("message", text("m"))])]);
    client.update_diagnostics("file:///src/b.rs".to_string(), vec![num(1)]);
    assert_eq!(client.get_diagnostics("src/b.rs"), vec![num(1)]);
    assert_eq!(client.get_diagnostics("src/a.rs"), vec![object(vec![("message", text("m"))])]);
    client.update_diagnostics("file:///src/a.rs".to_string(), vec![]);
    assert!(client.get_diagnostics("src/a.rs").is_empty());
    assert!(client.get_diagnostics("/src/b.rs").is_empty());
    client.mark_shut_down();
    assert!(!client.is_initialized(true));
}

#[test]
fn framing_and_headers() {
    assert_eq!(frame_message("{}"), "Content-Length: 2\r\n\r\n{}");
    assert_eq!(frame_message("é"), "Content-Length: 2\r\n\r\né");
    match read_header_line(None, "Content-Length: 52\r\n") {
        HeaderStep::Next(Some(52)) => {}
        _ => panic!("expected the length"),
    }
    match read_header_line(Some(3), "content-length:  +7 \r\n") {
        HeaderStep::Next(Some(7)) => {}
        _ => panic!("expected the length"),
    }
    match read_header_line(Some(3), "Content-Length: seven\r\n") {
        HeaderStep::Next(None) => {}
        _ => panic!("an unreadable length clears it"),
    }
    match read_header_line(Some(3), "Content-Type: application/json\r\n") {
        HeaderStep::Next(Some(3)) => {}
        _ => panic!("other headers are ignored"),
    }
    match read_header_line(Some(3), "\r\n") {
        HeaderStep::End(Some(3)) => {}
        _ => panic!("a blank line ends the headers"),
    }
    match read_header_line(None, "") {
        HeaderStep::End(None) => {}
        _ => panic!("end of input ends the headers"),
    }
    assert_eq!(required_content_length(Some(4)), Ok(4));
    assert_eq!(required_content_length(None), Err("No Content-Length header found".to_string()));
}

#[test]
fn framed_message_reads_back() {
    let content = "{\"jsonrpc\":\"2.0\",\"id\":0}";
    let framed = frame_message(content);
    let header_end = framed.find('\n').unwrap() + 1;
    let (header, rest) = framed.split_at(header_end);
    match read_header_line(None, header) {
        HeaderStep::Next(Some(n)) => {
            assert_eq!(n, content.len());
            assert!(rest.starts_with("\r\n"));
            match read_header_line(Some(n), "\r\n") {
                HeaderStep::End(Some(m)) => assert_eq!(m, n),
                _ => panic!("expected the end of the headers"),
            }
            assert_eq!(&rest[2..], content);
        }
        _ => panic!("expected the length"),
    }
}

#[test]
fn requests_and_notifications() {
    let mut ids = RequestCounter::new();
    for k in 0..5u64 {
        assert_eq!(ids.take(), k);
    }
    let r = request_message(1, "initialize", JsonValue::Null);
    assert_eq!(
        r,
        object(vec![("jsonrpc", text("2.0")), ("id", num(1)), ("method", text("initialize")), ("params", JsonValue::Null)])
    );
    let n = notification_message("initialized", object(vec![]));
    assert_eq!(n, object(vec![("jsonrpc", text("2.0")), ("method", text("initialized")), ("params", object(vec![]))]));
    assert!(is_notification(&n));
    assert!(!is_notification(&object(vec![("id", num(1)), ("result", JsonValue::Null)])));
    assert_eq!(command_line("gopls", &strings(&["gopls"])), ("gopls".to_string(), vec![]));
    assert_eq!(
        command_line("rustup", &strings(&["rustup", "run", "stable", "rust-analyzer"])),
        ("rustup".to_string(), strings(&["run", "stable", "rust-analyzer"]))
    );
    assert_eq!(command_line("x", &vec![]), ("x".to_string(), vec![]));
}

#[test]
fn downloads() {
    assert!(LspDownloader::new(None, false).is_err());
    let d = LspDownloader::new(Some("/home/u/.cache".to_string()), true).unwrap();
    assert_eq!(d.cache_dir(), "/home/u/.cache/lsp-index/servers");
    assert_eq!(d.install_dir("jdtls"), "/home/u/.cache/lsp-index/servers/jdtls");
    let java = get_lsp_download_config("java").unwrap();
    assert!(matches!(java.archive_type, ArchiveType::TarGz));
    assert_eq!(java.size_hint, Some(70_000_000));
    assert_eq!(d.download_url(&java), java.mirror_url.clone().unwrap());
    let plain = LspDownloader::new(Some("/c/".to_string()), false).unwrap();
    assert_eq!(plain.cache_dir(), "/c/lsp-index/servers");
    assert_eq!(plain.download_url(&java), java.primary_url);
    assert!(get_lsp_download_config("rust").is_none());
    match d.find_executable("/i", &java) {
        ExecutableLookup::JdtLauncher(p) => assert_eq!(p, "/i/plugins"),
        _ => panic!("expected the launcher lookup"),
    }
    let mut other = get_lsp_download_config("java").unwrap();
    other.executable_path = strings(&["bin", "server"]);
    match d.find_executable("/i", &other) {
        ExecutableLookup::Path(p) => assert_eq!(p, "/i/bin/server"),
        _ => panic!("expected a path"),
    }
    other.executable_path = vec![];
    assert!(matches!(d.find_executable("/i", &other), ExecutableLookup::NotConfigured));
}

#[test]
fn paths_joined() {
    assert_eq!(path_join("/a", "b"), "/a/b");
    assert_eq!(path_join("/a/", "b"), "/a/b");
    assert_eq!(path_join("", "b"), "b");
    assert_eq!(path_join("/a", "/etc"), "/etc");
    assert_eq!(path_join_all("/a", &strings(&["b", "c"])), "/a/b/c");
}

#[test]
fn launcher_found_in_listing() {
    let listing = Some(vec![
        Some("org.eclipse.jdt.core.jar".to_string()),
        Some("org.eclipse.equinox.launcher_1.6.400.jar".to_string()),
        Some("org.eclipse.equinox.launcher.gtk.jar".to_string()),
    ]);
    assert_eq!(
        find_jdt_launcher("/p", &listing),
        Some("/p/org.eclipse.equinox.launcher_1.6.400.jar".to_string())
    );
    assert_eq!(find_jdt_launcher("/p", &None), None);
    let broken = Some(vec![None, Some("org.eclipse.equinox.launcher.jar".to_string())]);
    assert_eq!(find_jdt_launcher("/p", &broken), None);
    let none = Some(vec![Some("a.jar".to_string())]);
    assert_eq!(find_jdt_launcher("/p", &none), None);
}

#[test]
fn mirror_choice() {
    assert!(should_use_mirror(Some("1"), None, None));
    assert!(should_use_mirror(Some("TRUE"), None, None));
    assert!(!should_use_mirror(Some("yes"), Some("Asia/Shanghai"), None));
    assert!(should_use_mirror(None, Some(":Asia/Shanghai"), None));
    assert!(should_use_mirror(None, None, Some("zh_CN.UTF-8")));
    assert!(!should_use_mirror(None, Some("Europe/Paris"), Some("en_US")));
}

#[test]
fn watcher_events() {
    let paths = strings(&["/w/src/a.rs", "/w/README.md", "/w/b.rs"]);
    let events = handle_event(WatchEventKind::Modify, &paths);
    assert_eq!(events.len(), 2);
    assert_eq!(events[0].path, "/w/src/a.rs");
    assert!(matches!(events[1].kind, FileChangeKind::Modified));
    assert!(handle_event(WatchEventKind::Other, &paths).is_empty());
    assert!(matches!(handle_event(WatchEventKind::Remove, &paths)[0].kind, FileChangeKind::Deleted));
    assert!(is_watched_path("x.rs"));
    assert!(!is_watched_path("x.rsx"));
    assert!(matches!(sync_action(FileChangeKind::Created), SyncAction::DidChange));
    assert!(matches!(sync_action(FileChangeKind::Deleted), SyncAction::DidClose));
}
