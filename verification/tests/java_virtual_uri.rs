use lsp_index::json::JsonValue;
use lsp_index::lsp::java_virtual_uri::{FetchAction, FetchStep};
use lsp_index::lsp::JavaVirtualUriHandler;

fn object(members: Vec<(&str, JsonValue)>) -> JsonValue {
    JsonValue::Object(members.into_iter().map(|(k, v)| (k.to_string(), v)).collect())
}

fn text(s: &str) -> JsonValue {
    JsonValue::Str(s.to_string())
}

#[test]
fn test_is_virtual_uri() {
    assert!(JavaVirtualUriHandler::is_virtual_uri("jdt://contents/org.example/Class.class"));
    assert!(JavaVirtualUriHandler::is_virtual_uri("jar://file.jar!/org/example/Class.class"));
    assert!(!JavaVirtualUriHandler::is_virtual_uri("file:///home/user/project/Main.java"));
}

#[test]
fn test_extract_class_name() {
    assert_eq!(
        JavaVirtualUriHandler::extract_class_name(
            "jdt://contents/org.springframework.web.bind.annotation/RestController.class"
        ),
        Some("org.springframework.web.bind.annotation.RestController".to_string())
    );
    assert_eq!(
        JavaVirtualUriHandler::extract_class_name("jdt://contents/java.lang/String.class"),
        Some("java.lang.String".to_string())
    );
}

#[test]
fn test_format_for_display() {
    assert_eq!(
        JavaVirtualUriHandler::format_for_display("jdt://contents/org.example/Class.class"),
        "contents/org.example/Class.class"
    );
    assert_eq!(
        JavaVirtualUriHandler::format_for_display("file:///home/user/Main.java"),
        "file:///home/user/Main.java"
    );
}

#[test]
fn test_java_virtual_uri_parsing() {
    let uri = "jdt://contents/org.springframework.web.bind.annotation/RestController.class";
    let class_name = JavaVirtualUriHandler::extract_class_name(uri);
    assert_eq!(class_name, Some("org.springframework.web.bind.annotation.RestController".to_string()));

    let uri2 = "jdt://contents/java.lang/String.class";
    let class_name2 = JavaVirtualUriHandler::extract_class_name(uri2);
    assert_eq!(class_name2, Some("java.lang.String".to_string()));
}

#[test]
fn class_names_come_from_virtual_uris() {
    for uri in ["jdt://contents/java.lang/String.class", "jdt://contents/a.b/C.class"] {
        assert!(JavaVirtualUriHandler::extract_class_name(uri).is_some());
        assert!(JavaVirtualUriHandler::is_virtual_uri(uri));
        assert_eq!(JavaVirtualUriHandler::format_for_display(uri), uri[6..].to_string());
    }
}

#[test]
fn class_name_needs_a_jdt_uri() {
    assert_eq!(JavaVirtualUriHandler::extract_class_name("jar://file.jar!/org/example/Class.class"), None);
    assert_eq!(JavaVirtualUriHandler::extract_class_name("file:///Main.java"), None);
}

#[test]
fn fetch_starts_with_document_content() {
    let uri = "jdt://contents/java.lang/String.class";
    match JavaVirtualUriHandler::fetch_source_start(uri) {
        FetchAction::Request { step, method, params } => {
            assert!(matches!(step, FetchStep::DocumentContent));
            assert_eq!(method, "textDocument/content");
            assert_eq!(params, object(vec![("textDocument", object(vec![("uri", text(uri))]))]));
        }
        FetchAction::Done(_) => panic!("expected a request"),
    }
}

#[test]
fn fetch_refuses_a_file_uri() {
    match JavaVirtualUriHandler::fetch_source_start("file:///Main.java") {
        FetchAction::Done(Err(e)) => assert_eq!(e, "Not a virtual URI: file:///Main.java"),
        _ => panic!("expected a refusal"),
    }
}

#[test]
fn fetch_takes_content_or_goes_on() {
    let uri = "jdt://contents/java.lang/String.class";
    let reply = Ok(object(vec![("content", text("class String {}"))]));
    match JavaVirtualUriHandler::fetch_source_next(uri, FetchStep::DocumentContent, &reply) {
        FetchAction::Done(Ok(s)) => assert_eq!(s, "class String {}"),
        _ => panic!("expected the source"),
    }
    let failed: Result<JsonValue, String> = Err("no such method".to_string());
    match JavaVirtualUriHandler::fetch_source_next(uri, FetchStep::DocumentContent, &failed) {
        FetchAction::Request { step, method, params } => {
            assert!(matches!(step, FetchStep::ClassFileContents));
            assert_eq!(method, "java/classFileContents");
            assert_eq!(params, object(vec![("uri", text(uri))]));
        }
        _ => panic!("expected the next request"),
    }
    let plain = Ok(text("class String {}"));
    match JavaVirtualUriHandler::fetch_source_next(uri, FetchStep::ClassFileContents, &plain) {
        FetchAction::Done(Ok(s)) => assert_eq!(s, "class String {}"),
        _ => panic!("expected the source"),
    }
    match JavaVirtualUriHandler::fetch_source_next(uri, FetchStep::ClassFileContents, &Ok(JsonValue::Null)) {
        FetchAction::Request { step, method, params } => {
            assert!(matches!(step, FetchStep::ExecuteCommand));
            assert_eq!(method, "workspace/executeCommand");
            assert_eq!(
                params,
                object(vec![
                    ("command", text("java.classFileContents")),
                    ("arguments", JsonValue::Array(vec![text(uri)])),
                ])
            );
        }
        _ => panic!("expected the last request"),
    }
    match JavaVirtualUriHandler::fetch_source_next(uri, FetchStep::ExecuteCommand, &Ok(JsonValue::Null)) {
        FetchAction::Done(Err(e)) => assert_eq!(e, "Failed to fetch source from JDT LS. All approaches failed."),
        _ => panic!("expected a failure"),
    }
}
