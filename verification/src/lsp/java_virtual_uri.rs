//! Java virtual URIs: JDT LS names classes inside JAR files with `jdt://`
//! (and `jar://`) URIs, whose source is fetched from the server itself.

use vstd::prelude::*;
use crate::json::{JsonValue, Json, jget, jstr, lemma_members_view, lemma_elems_view, members_view, elems_view};
use crate::text::{
    chars_of, char_replaced, concat, has_prefix, has_suffix, replace_char, starts_with, strip_prefix,
    strip_suffix, string_of, subvec,
};

verus! {

/// Java virtual URI handler.
pub struct JavaVirtualUriHandler;

/// `uri` names a class inside a JAR (`jdt://` or `jar://`).
pub open spec fn spec_is_virtual_uri(uri: Seq<char>) -> bool {
    has_prefix(uri, "jdt://"@) || has_prefix(uri, "jar://"@)
}

/// The position of the last `c` in `s`.
pub open spec fn last_index_of(s: Seq<char>, c: char) -> Option<int>
    decreases s.len(),
{
    if s.len() == 0 {
        None
    } else if s.last() == c {
        Some(s.len() - 1)
    } else {
        last_index_of(s.drop_last(), c)
    }
}

/// The fully qualified class name that a `jdt://contents/{package}/{Class}.class`
/// URI denotes: the package (with `/` read as `.`), a dot, and the class.
pub open spec fn spec_class_name(uri: Seq<char>) -> Option<Seq<char>> {
    if !has_prefix(uri, "jdt://"@) {
        None
    } else {
        let content = uri.skip(6);
        let rest = if has_prefix(content, "contents/"@) { content.skip(9) } else { content };
        match last_index_of(rest, '/') {
            None => None,
            Some(k) => {
                let class_file = rest.skip(k + 1);
                let package = rest.take(k);
                if has_suffix(class_file, ".class"@) {
                    Some(char_replaced(package, '/', '.') + "."@ + class_file.take(class_file.len() - 6))
                } else {
                    None
                }
            },
        }
    }
}

/// A virtual URI without its scheme, for display; other URIs unchanged.
pub open spec fn spec_display(uri: Seq<char>) -> Seq<char> {
    if has_prefix(uri, "jdt://"@) || has_prefix(uri, "jar://"@) {
        uri.skip(6)
    } else {
        uri
    }
}

/// Where fetching a class's source stands: which request to send next.
pub enum FetchStep {
    /// Send `textDocument/content` with `{"textDocument": {"uri": uri}}`.
    DocumentContent,
    /// Send `java/classFileContents` with `{"uri": uri}`.
    ClassFileContents,
    /// Send `workspace/executeCommand` running `java.classFileContents` on the URI.
    ExecuteCommand,
}

/// What to do next while fetching a class's source.
pub enum FetchAction {
    /// Send the request `method` with `params` and report its outcome.
    Request { step: FetchStep, method: String, params: JsonValue },
    /// The fetch is over, with the source or an error message.
    Done(Result<String, String>),
}

/// The source text that a server reply carries at each step, if any.
pub open spec fn reply_content(step: FetchStep, reply: Json) -> Option<Seq<char>> {
    match step {
        FetchStep::DocumentContent => match jget(reply, "content"@) {
            Some(c) => jstr(c),
            None => None,
        },
        FetchStep::ClassFileContents => match jget(reply, "content"@) {
            Some(c) => match jstr(c) {
                Some(s) => Some(s),
                None => jstr(reply),
            },
            None => jstr(reply),
        },
        FetchStep::ExecuteCommand => jstr(reply),
    }
}

/// The method of the request at each step.
pub open spec fn step_method(step: FetchStep) -> Seq<char> {
    match step {
        FetchStep::DocumentContent => "textDocument/content"@,
        FetchStep::ClassFileContents => "java/classFileContents"@,
        FetchStep::ExecuteCommand => "workspace/executeCommand"@,
    }
}

/// The parameters of the request at each step for `uri`.
pub open spec fn step_params(step: FetchStep, uri: Seq<char>) -> Json {
    match step {
        FetchStep::DocumentContent => Json::Object(seq![("textDocument"@, Json::Object(seq![("uri"@, Json::Str(uri))]))]),
        FetchStep::ClassFileContents => Json::Object(seq![("uri"@, Json::Str(uri))]),
        FetchStep::ExecuteCommand => Json::Object(seq![
            ("command"@, Json::Str("java.classFileContents"@)),
            ("arguments"@, Json::Array(seq![Json::Str(uri)])),
        ]),
    }
}

/// `a` is the request of `step` for `uri`.
pub open spec fn is_request(a: FetchAction, step: FetchStep, uri: Seq<char>) -> bool {
    match a {
        FetchAction::Request { step: s, method, params } =>
            s == step && method@ == step_method(step) && params@ == step_params(step, uri),
        FetchAction::Done(_) => false,
    }
}

/// The step after `step`, if any.
pub open spec fn next_step(step: FetchStep) -> Option<FetchStep> {
    match step {
        FetchStep::DocumentContent => Some(FetchStep::ClassFileContents),
        FetchStep::ClassFileContents => Some(FetchStep::ExecuteCommand),
        FetchStep::ExecuteCommand => None,
    }
}

/// `a` finished the fetch with `r` (sources and messages by their characters).
pub open spec fn is_done(a: FetchAction, r: Result<Seq<char>, Seq<char>>) -> bool {
    match a {
        FetchAction::Done(Ok(s)) => r == Ok::<Seq<char>, Seq<char>>(s@),
        FetchAction::Done(Err(e)) => r == Err::<Seq<char>, Seq<char>>(e@),
        _ => false,
    }
}

proof fn lemma_last_index(s: Seq<char>, c: char, k: int)
    requires
        -1 <= k < s.len(),
        k >= 0 ==> s[k] == c,
        forall|j: int| k < j < s.len() ==> s[j] != c,
    ensures
        last_index_of(s, c) == (if k >= 0 { Some(k) } else { None::<int> }),
    decreases s.len(),
{
    if s.len() > 0 && k < s.len() - 1 {
        lemma_last_index(s.drop_last(), c, k);
    }
}

impl JavaVirtualUriHandler {
    /// Check if a URI is a Java virtual URI
    pub fn is_virtual_uri(uri: &str) -> (r: bool)
        ensures
            r == spec_is_virtual_uri(uri@),
    {
        starts_with(uri, "jdt://") || starts_with(uri, "jar://")
    }

    /// Extract the class name from a jdt:// URI:
    /// `jdt://contents/org.springframework.web.bind.annotation/RestController.class`
    /// gives `org.springframework.web.bind.annotation.RestController`.
    pub fn extract_class_name(uri: &str) -> (r: Option<String>)
        ensures
            match r {
                Some(n) => spec_class_name(uri@) == Some(n@),
                None => spec_class_name(uri@) is None,
            },
    {
        proof {
            reveal_strlit("jdt://");
            reveal_strlit("contents/");
            reveal_strlit(".class");
        }
        let content = match strip_prefix(uri, "jdt://") {
            Some(c) => c,
            None => return None,
        };
        let rest = if starts_with(content.as_str(), "contents/") {
            match strip_prefix(content.as_str(), "contents/") {
                Some(r) => r,
                None => return None,
            }
        } else {
            content
        };
        let cs = chars_of(rest.as_str());
        let mut k = cs.len();
        while k > 0 && cs[k - 1] != '/'
            invariant
                k <= cs.len(),
                forall|j: int| k <= j < cs.len() ==> cs@[j] != '/',
            decreases k,
        {
            k -= 1;
        }
        proof {
            lemma_last_index(cs@, '/', k - 1);
        }
        if k == 0 {
            return None;
        }
        let slash = k - 1;
        let class_file = string_of(&subvec(&cs, slash + 1, cs.len()));
        let package = string_of(&subvec(&cs, 0, slash));
        assert(class_file@ =~= cs@.skip(slash + 1));
        assert(package@ =~= cs@.take(slash as int));
        let class_name = match strip_suffix(class_file.as_str(), ".class") {
            Some(n) => n,
            None => return None,
        };
        let dotted = replace_char(package.as_str(), '/', '.');
        let with_dot = concat(dotted.as_str(), ".");
        let r = concat(with_dot.as_str(), class_name.as_str());
        Some(r)
    }

    /// Format a virtual URI for display: the URI without its `jdt://` or
    /// `jar://` scheme; other URIs unchanged.
    pub fn format_for_display(uri: &str) -> (r: String)
        ensures
            r@ == spec_display(uri@),
    {
        proof {
            reveal_strlit("jdt://");
            reveal_strlit("jar://");
        }
        if starts_with(uri, "jdt://") {
            match strip_prefix(uri, "jdt://") {
                Some(s) => s,
                None => String::from_str(uri),
            }
        } else if starts_with(uri, "jar://") {
            match strip_prefix(uri, "jar://") {
                Some(s) => s,
                None => String::from_str(uri),
            }
        } else {
            String::from_str(uri)
        }
    }

    /// The request of a fetch step for `uri`.
    fn step_request(step: FetchStep, uri: &str) -> (a: FetchAction)
        ensures
            is_request(a, step, uri@),
    {
        match step {
            FetchStep::DocumentContent => {
                let mut inner: Vec<(String, JsonValue)> = Vec::new();
                inner.push((String::from_str("uri"), JsonValue::string(uri)));
                let inner_v = JsonValue::object(inner);
                let mut outer: Vec<(String, JsonValue)> = Vec::new();
                outer.push((String::from_str("textDocument"), inner_v));
                let params = JsonValue::object(outer);
                proof {
                    lemma_members_view(inner@);
                    lemma_members_view(outer@);
                    assert(members_view(inner@) =~= seq![("uri"@, Json::Str(uri@))]);
                    assert(members_view(outer@) =~= seq![("textDocument"@, inner_v@)]);
                }
                FetchAction::Request { step: FetchStep::DocumentContent, method: String::from_str("textDocument/content"), params }
            },
            FetchStep::ClassFileContents => {
                let mut m: Vec<(String, JsonValue)> = Vec::new();
                m.push((String::from_str("uri"), JsonValue::string(uri)));
                let params = JsonValue::object(m);
                proof {
                    lemma_members_view(m@);
                    assert(members_view(m@) =~= seq![("uri"@, Json::Str(uri@))]);
                }
                FetchAction::Request { step: FetchStep::ClassFileContents, method: String::from_str("java/classFileContents"), params }
            },
            FetchStep::ExecuteCommand => {
                let mut args: Vec<JsonValue> = Vec::new();
                args.push(JsonValue::string(uri));
                let args_v = JsonValue::array(args);
                let mut m: Vec<(String, JsonValue)> = Vec::new();
                m.push((String::from_str("command"), JsonValue::string("java.classFileContents")));
                m.push((String::from_str("arguments"), args_v));
                let params = JsonValue::object(m);
                proof {
                    lemma_elems_view(args@);
                    lemma_members_view(m@);
                    assert(elems_view(args@) =~= seq![Json::Str(uri@)]);
                    assert(members_view(m@) =~= seq![
                        ("command"@, Json::Str("java.classFileContents"@)),
                        ("arguments"@, Json::Array(seq![Json::Str(uri@)])),
                    ]);
                }
                FetchAction::Request { step: FetchStep::ExecuteCommand, method: String::from_str("workspace/executeCommand"), params }
            },
        }
    }

    /// The first action of fetching the source of `uri` from JDT LS: refuse a
    /// URI that is not virtual, else ask with `textDocument/content`.
    pub fn fetch_source_start(uri: &str) -> (a: FetchAction)
        ensures
            spec_is_virtual_uri(uri@) ==> is_request(a, FetchStep::DocumentContent, uri@),
            !spec_is_virtual_uri(uri@) ==> is_done(a, Err("Not a virtual URI: "@ + uri@)),
    {
        if !Self::is_virtual_uri(uri) {
            return FetchAction::Done(Err(concat("Not a virtual URI: ", uri)));
        }
        Self::step_request(FetchStep::DocumentContent, uri)
    }

    /// The next action once the request of `step` has come back with `outcome`:
    /// the source if the reply carries it, else the next way of asking, and
    /// after the third a failure.
    pub fn fetch_source_next(uri: &str, step: FetchStep, outcome: &Result<JsonValue, String>) -> (a: FetchAction)
        ensures
            match outcome {
                Ok(reply) if reply_content(step, reply@) is Some => is_done(a, Ok(reply_content(step, reply@)->0)),
                _ => match next_step(step) {
                    Some(n) => is_request(a, n, uri@),
                    None => is_done(a, Err("Failed to fetch source from JDT LS. All approaches failed."@)),
                },
            },
    {
        if let Ok(reply) = outcome {
            match step {
                FetchStep::DocumentContent => {
                    if let Some(c) = reply.get("content") {
                        if let Some(s) = c.as_str() {
                            return FetchAction::Done(Ok(String::from_str(s)));
                        }
                    }
                },
                FetchStep::ClassFileContents => {
                    if let Some(c) = reply.get("content") {
                        if let Some(s) = c.as_str() {
                            return FetchAction::Done(Ok(String::from_str(s)));
                        }
                    }
                    if let Some(s) = reply.as_str() {
                        return FetchAction::Done(Ok(String::from_str(s)));
                    }
                },
                FetchStep::ExecuteCommand => {
                    if let Some(s) = reply.as_str() {
                        return FetchAction::Done(Ok(String::from_str(s)));
                    }
                },
            }
        }
        match step {
            FetchStep::DocumentContent => Self::step_request(FetchStep::ClassFileContents, uri),
            FetchStep::ClassFileContents => Self::step_request(FetchStep::ExecuteCommand, uri),
            FetchStep::ExecuteCommand => FetchAction::Done(Err(String::from_str("Failed to fetch source from JDT LS. All approaches failed."))),
        }
    }
}

/// A URI that yields a class name is a virtual URI, and shown without its scheme.
pub proof fn lemma_class_name_implies_virtual(uri: Seq<char>)
    ensures
        spec_class_name(uri) is Some ==> spec_is_virtual_uri(uri),
        spec_class_name(uri) is Some ==> spec_display(uri) == uri.skip(6),
{
}

} // verus!
