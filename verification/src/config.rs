//! Global configuration for the bridge.

use vstd::prelude::*;

verus! {

/// Configuration for the MCP server.
pub struct Config {
    /// Workspace root directory
    pub workspace_root: String,
    /// Maximum lines in code snippets (default: 50)
    pub snippet_max_lines: usize,
    /// Maximum implementations to return (default: 3)
    pub max_implementations: usize,
}

impl Default for Config {
    fn default() -> (c: Self)
        ensures
            c.workspace_root@ == "."@,
            c.snippet_max_lines == 50,
            c.max_implementations == 3,
    {
        Config { workspace_root: String::from_str("."), snippet_max_lines: 50, max_implementations: 3 }
    }
}

impl Config {
    /// A configuration for `workspace_root` with the default limits.
    pub fn new(workspace_root: String) -> (c: Self)
        ensures
            c.workspace_root == workspace_root,
            c.snippet_max_lines == 50,
            c.max_implementations == 3,
    {
        let d = Config::default();
        Config { workspace_root, snippet_max_lines: d.snippet_max_lines, max_implementations: d.max_implementations }
    }
}

} // verus!
