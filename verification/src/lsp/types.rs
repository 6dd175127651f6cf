//! LSP value helpers: file URIs, positions and document identifiers.
//!
//! The library holds the LSP values it builds as plain data: a URI is kept as
//! the text that the `url` crate serialises it to.

use vstd::prelude::*;
use crate::text::{concat, has_prefix, strip_prefix};

verus! {

/// What `url::Url::parse` gives for `input`: the serialisation of the parsed
/// URL, or the text of the parse error.
pub uninterp spec fn url_parse(input: Seq<char>) -> Result<Seq<char>, Seq<char>>;

/// Parses an absolute URL with `url::Url::parse`. Trusted: the result is the
/// URL's serialisation (its `Display`) or the error's `Display` text, and both
/// are whatever that function gives for `input`; nothing more is claimed.
#[verifier::external_body]
pub(crate) fn parse_url(input: &str) -> (r: Result<String, String>)
    ensures
        match r {
            Ok(u) => url_parse(input@) == Ok::<Seq<char>, Seq<char>>(u@),
            Err(e) => url_parse(input@) == Err::<Seq<char>, Seq<char>>(e@),
        },
{
    match url::Url::parse(input) {
        Ok(u) => Ok(String::from(u)),
        Err(e) => Err(e.to_string()),
    }
}

/// The URI `file://{path}`.
pub open spec fn spec_file_uri(path: Seq<char>) -> Seq<char> {
    "file://"@ + path
}

/// Convert a file path to an LSP URI by putting `file://` before it.
pub fn file_path_to_uri(path: &str) -> (r: String)
    ensures
        r@ == spec_file_uri(path@),
{
    concat("file://", path)
}

/// Convert a URI to a file path: what follows `file://`, if it begins so.
pub fn uri_to_file_path(uri: &str) -> (r: Option<String>)
    ensures
        match r {
            Some(p) => has_prefix(uri@, "file://"@) && p@ == uri@.skip(7),
            None => !has_prefix(uri@, "file://"@),
        },
{
    proof { reveal_strlit("file://"); }
    strip_prefix(uri, "file://")
}

/// A position in a text document (0-based line and character).
#[derive(Clone, Copy, PartialEq, Eq, Structural)]
pub struct Position {
    pub line: u32,
    pub character: u32,
}

/// Create a Position from line and character.
pub fn create_position(line: u32, character: u32) -> (p: Position)
    ensures
        p == (Position { line, character }),
{
    Position { line, character }
}

/// A text document named by its URI.
pub struct TextDocumentIdentifier {
    pub uri: String,
}

/// A position in a named text document.
pub struct TextDocumentPositionParams {
    pub text_document: TextDocumentIdentifier,
    pub position: Position,
}

/// The URL that `file://{path}` parses to, if it parses.
pub open spec fn document_url(path: Seq<char>) -> Option<Seq<char>> {
    match url_parse(spec_file_uri(path)) {
        Ok(u) => Some(u),
        Err(_) => None,
    }
}

/// Create a TextDocumentIdentifier from a file path whose `file://` URI parses
/// (the path is taken as it is; on a URI that does not parse there is nothing
/// to name).
pub fn create_text_document_identifier(file_path: &str) -> (r: TextDocumentIdentifier)
    requires
        document_url(file_path@) is Some,
    ensures
        Some(r.uri@) == document_url(file_path@),
{
    let uri = file_path_to_uri(file_path);
    match parse_url(uri.as_str()) {
        Ok(u) => TextDocumentIdentifier { uri: u },
        Err(_) => {
            assert(false);
            TextDocumentIdentifier { uri }
        },
    }
}

/// The identifier of a file path, or `None` where its `file://` URI does not
/// parse.
pub fn try_create_text_document_identifier(file_path: &str) -> (r: Option<TextDocumentIdentifier>)
    ensures
        match r {
            Some(d) => Some(d.uri@) == document_url(file_path@),
            None => document_url(file_path@) is None,
        },
{
    let uri = file_path_to_uri(file_path);
    match parse_url(uri.as_str()) {
        Ok(_) => Some(create_text_document_identifier(file_path)),
        Err(_) => None,
    }
}

/// Create the position parameters of a request on a file path whose `file://`
/// URI parses.
pub fn create_text_document_position_params(file_path: &str, line: u32, character: u32) -> (r: TextDocumentPositionParams)
    requires
        document_url(file_path@) is Some,
    ensures
        Some(r.text_document.uri@) == document_url(file_path@),
        r.position == (Position { line, character }),
{
    TextDocumentPositionParams {
        text_document: create_text_document_identifier(file_path),
        position: create_position(line, character),
    }
}

/// The position parameters of a request, or `None` where the file path's
/// `file://` URI does not parse.
pub fn try_create_text_document_position_params(file_path: &str, line: u32, character: u32) -> (r: Option<TextDocumentPositionParams>)
    ensures
        match r {
            Some(p) => Some(p.text_document.uri@) == document_url(file_path@)
                && p.position == (Position { line, character }),
            None => document_url(file_path@) is None,
        },
{
    let uri = file_path_to_uri(file_path);
    match parse_url(uri.as_str()) {
        Ok(_) => Some(create_text_document_position_params(file_path, line, character)),
        Err(_) => None,
    }
}

} // verus!
