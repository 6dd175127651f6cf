//! URI utilities.

use vstd::prelude::*;
use crate::text::{chars_of, concat, has_prefix, starts_with, string_of, strip_prefix, subvec};

verus! {

/// `c` is an ASCII letter (a drive letter).
pub open spec fn is_drive_letter(c: char) -> bool {
    ('a' <= c && c <= 'z') || ('A' <= c && c <= 'Z')
}

/// `s` holds `/`, a drive letter and `:` from position `at` on (as in `/C:`).
pub open spec fn drive_at(s: Seq<char>, at: int) -> bool {
    &&& 0 <= at
    &&& at + 3 <= s.len()
    &&& s[at] == '/'
    &&& is_drive_letter(s[at + 1])
    &&& s[at + 2] == ':'
}

/// The form that `normalize_uri` gives a URI: a Windows drive URI written
/// `file:///C:/...` loses the slash before its drive letter (`file://C:/...`);
/// other `file://` URIs, such as `file:///home/x`, stay as they are; a plain
/// path `p` becomes `file://p`.
pub open spec fn spec_normalize_uri(uri: Seq<char>) -> Seq<char> {
    if has_prefix(uri, "file://"@) {
        if drive_at(uri, 7) { "file://"@ + uri.skip(8) } else { uri }
    } else {
        "file://"@ + uri
    }
}

/// Normalize a file URI to a consistent `file://` form (see
/// `spec_normalize_uri`).
pub fn normalize_uri(uri: &str) -> (r: String)
    ensures
        r@ == spec_normalize_uri(uri@),
{
    proof { reveal_strlit("file://"); }
    if !starts_with(uri, "file://") {
        return concat("file://", uri);
    }
    let cs = chars_of(uri);
    if cs.len() >= 10 && cs[7] == '/' && (('a' <= cs[8] && cs[8] <= 'z') || ('A' <= cs[8] && cs[8] <= 'Z'))
        && cs[9] == ':' {
        let tail = string_of(&subvec(&cs, 8, cs.len()));
        assert(tail@ =~= uri@.skip(8));
        concat("file://", tail.as_str())
    } else {
        String::from_str(uri)
    }
}

/// Convert a `file://` URI to a local file path: the text after the scheme.
pub fn uri_to_path(uri: &str) -> (r: Option<String>)
    ensures
        r is Some <==> has_prefix(uri@, "file://"@),
        r matches Some(p) ==> p@ == uri@.skip(7),
{
    proof {
        reveal_strlit("file://");
        reveal_strlit("file:///");
    }
    match strip_prefix(uri, "file://") {
        Some(p) => Some(p),
        None => {
            let r = strip_prefix(uri, "file:///");
            proof {
                if has_prefix(uri@, "file:///"@) {
                    assert(uri@.take(8).take(7) =~= uri@.take(7));
                    assert("file:///"@.take(7) =~= "file://"@);
                }
            }
            r
        },
    }
}

/// Every normalized URI carries the `file://` scheme; a plain path comes back
/// from it unchanged through `uri_to_path` (what follows `file://`); and
/// normalizing twice changes nothing, except for a plain path that itself
/// begins with a drive such as `/C:`, whose first normal form is `file:///C:...`.
pub proof fn lemma_normalize_uri_scheme_and_stable(uri: Seq<char>)
    ensures
        has_prefix(spec_normalize_uri(uri), "file://"@),
        !has_prefix(uri, "file://"@) ==> spec_normalize_uri(uri).skip(7) == uri,
        has_prefix(uri, "file://"@) || !drive_at(uri, 0)
            ==> spec_normalize_uri(spec_normalize_uri(uri)) == spec_normalize_uri(uri),
{
    reveal_strlit("file://");
    let n = spec_normalize_uri(uri);
    if !has_prefix(uri, "file://"@) {
        assert(n.take(7) =~= "file://"@);
        assert(n.skip(7) =~= uri);
        if drive_at(n, 7) {
            assert(uri[0] == n[7] && uri[1] == n[8] && uri[2] == n[9]);
        }
    } else if drive_at(uri, 7) {
        assert(n.take(7) =~= "file://"@);
        assert(n.skip(7) =~= uri.skip(8));
        assert(!drive_at(n, 7)) by {
            if drive_at(n, 7) {
                assert(n[7] == uri[8]);
            }
        }
    }
}

/// A path given the `file://` scheme comes back unchanged from `uri_to_path`.
pub proof fn lemma_uri_to_path_inverts_scheme(path: Seq<char>)
    ensures
        has_prefix("file://"@ + path, "file://"@),
        ("file://"@ + path).skip(7) == path,
{
    reveal_strlit("file://");
    assert(("file://"@ + path).take(7) =~= "file://"@);
    assert(("file://"@ + path).skip(7) =~= path);
}

} // verus!
