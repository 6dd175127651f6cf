//! Unified search result that can represent symbols or text matches.

use vstd::prelude::*;
use crate::text::{concat, decimal, decimal_string, trim, trimmed};

verus! {

/// LSP symbol search result.
pub struct SymbolResult {
    pub name: String,
    pub kind: String,
    pub file: String,
    pub line: u32,
    pub description: Option<String>,
}

/// Text search result.
pub struct TextResult {
    pub file: String,
    pub line: u32,
    pub content: String,
    /// Surrounding lines for context
    pub context: String,
}

/// Unified search result.
pub enum UnifiedResult {
    /// LSP Symbol result
    Symbol(SymbolResult),
    /// Text search result
    Text(TextResult),
}

/// The display text of a result.
pub open spec fn display_text(r: UnifiedResult) -> Seq<char> {
    match r {
        UnifiedResult::Symbol(s) => s.name@ + " ("@ + s.kind@ + ") @ "@ + s.file@ + ":"@ + decimal(s.line as nat),
        UnifiedResult::Text(t) => trimmed(t.content@) + " @ "@ + t.file@ + ":"@ + decimal(t.line as nat),
    }
}

impl UnifiedResult {
    /// File path of the result.
    pub fn file(&self) -> (r: &str)
        ensures
            r@ == match self {
                UnifiedResult::Symbol(s) => s.file@,
                UnifiedResult::Text(t) => t.file@,
            },
    {
        match self {
            UnifiedResult::Symbol(s) => s.file.as_str(),
            UnifiedResult::Text(t) => t.file.as_str(),
        }
    }

    /// Line number of the result.
    pub fn line(&self) -> (r: u32)
        ensures
            r == match self {
                UnifiedResult::Symbol(s) => s.line,
                UnifiedResult::Text(t) => t.line,
            },
    {
        match self {
            UnifiedResult::Symbol(s) => s.line,
            UnifiedResult::Text(t) => t.line,
        }
    }

    /// Display text: `name (kind) @ file:line` for a symbol,
    /// `content @ file:line` (content trimmed) for a text match.
    pub fn display(&self) -> (r: String)
        ensures
            r@ == display_text(*self),
    {
        match self {
            UnifiedResult::Symbol(s) => {
                let a = concat(s.name.as_str(), " (");
                let b = concat(a.as_str(), s.kind.as_str());
                let c = concat(b.as_str(), ") @ ");
                let d = concat(c.as_str(), s.file.as_str());
                let e = concat(d.as_str(), ":");
                let n = decimal_string(s.line as u64);
                concat(e.as_str(), n.as_str())
            },
            UnifiedResult::Text(t) => {
                let tc = trim(t.content.as_str());
                let a = concat(tc.as_str(), " @ ");
                let b = concat(a.as_str(), t.file.as_str());
                let c = concat(b.as_str(), ":");
                let n = decimal_string(t.line as u64);
                concat(c.as_str(), n.as_str())
            },
        }
    }
}

} // verus!
