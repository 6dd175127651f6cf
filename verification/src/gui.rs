//! The commands of the desktop front end: workspace detection and the list of
//! running language servers it shows.

use vstd::prelude::*;
use crate::lsp::registry::{LspRegistry, default_configs, first_detected, names_contain};
use crate::lsp::registry::LspConfig;
use crate::text::{concat, decimal, decimal_string, str_eq, views};

verus! {

/// A language server as the front end lists it.
pub struct LspClientInfo {
    pub language: String,
    pub status: String,
    pub workspace: String,
}

/// A workspace and the language detected in it.
pub struct WorkspaceInfo {
    pub path: String,
    pub detected_language: Option<String>,
}

/// The language of a workspace whose root holds the files `present`: Rust for
/// `Cargo.toml`, then Go for `go.mod`, TypeScript for `package.json`, Java for
/// `pom.xml`, `build.gradle` or `build.gradle.kts`.
pub open spec fn workspace_language(present: Seq<Seq<char>>) -> Option<Seq<char>> {
    if names_contain(present, "Cargo.toml"@) {
        Some("rust"@)
    } else if names_contain(present, "go.mod"@) {
        Some("go"@)
    } else if names_contain(present, "package.json"@) {
        Some("typescript"@)
    } else if names_contain(present, "pom.xml"@) || names_contain(present, "build.gradle"@)
        || names_contain(present, "build.gradle.kts"@) {
        Some("java"@)
    } else {
        None
    }
}

/// The registry detects the language that `workspace_language` names.
proof fn lemma_default_detection(cfgs: Seq<LspConfig>, present: Seq<Seq<char>>)
    requires
        default_configs(cfgs),
    ensures
        match first_detected(cfgs, present) {
            Some(c) => workspace_language(present) == Some(c.language@),
            None => workspace_language(present) is None,
        },
{
    reveal_with_fuel(first_detected, 7);
    assert(cfgs.drop_first()[0] == cfgs[1]);
    assert(cfgs.drop_first().drop_first()[0] == cfgs[2]);
    assert(cfgs.drop_first().drop_first().drop_first()[0] == cfgs[3]);
    assert(cfgs.drop_first().drop_first().drop_first().drop_first()[0] == cfgs[4]);
    assert(cfgs.drop_first().drop_first().drop_first().drop_first().drop_first()[0] == cfgs[5]);
    assert(cfgs.drop_first().drop_first().drop_first().drop_first().drop_first().drop_first().len() == 0);
}

/// Detect the language of the workspace at `path`, whose root holds the files
/// `present_root_files`.
pub fn detect_workspace(path: String, present_root_files: &Vec<String>) -> (r: WorkspaceInfo)
    ensures
        r.path == path,
        match workspace_language(views(present_root_files@)) {
            Some(l) => r.detected_language matches Some(d) && d@ == l,
            None => r.detected_language is None,
        },
{
    let registry = LspRegistry::new();
    assert(views(present_root_files@) =~= present_root_files@.map_values(|s: String| s@));
    proof { lemma_default_detection(registry@, views(present_root_files@)); }
    let detected = match registry.detect_language(present_root_files) {
        Some(c) => Some(c.language.clone()),
        None => None,
    };
    WorkspaceInfo { path, detected_language: detected }
}

/// Start a language server: it is listed as running.
pub fn start_lsp(language: String, workspace: String) -> (r: LspClientInfo)
    ensures
        r.language == language,
        r.status@ == "running"@,
        r.workspace == workspace,
{
    LspClientInfo { language, status: String::from_str("running"), workspace }
}

/// Stop the servers of a language: the others stay listed, in order.
pub fn stop_lsp(clients: &mut Vec<LspClientInfo>, language: &str)
    ensures
        final(clients)@ == old(clients)@.filter(|c: LspClientInfo| c.language@ != language@),
{
    let ghost before = old(clients)@;
    let mut kept: Vec<LspClientInfo> = Vec::new();
    let mut rest: Vec<LspClientInfo> = Vec::new();
    let n: usize = clients.len();
    assert(before.len() == n);
    std::mem::swap(&mut rest, clients);
    let mut i: usize = 0;
    while rest.len() > 0
        invariant
            before.len() <= usize::MAX,
            i + rest@.len() == before.len(),
            rest@ == before.skip(i as int),
            kept@ == before.take(i as int).filter(|c: LspClientInfo| c.language@ != language@),
        decreases rest@.len(),
    {
        let c = rest.remove(0);
        assert(before.take(i + 1).drop_last() =~= before.take(i as int));
        assert(before[i as int] == c);
        assert(rest@ =~= before.skip(i + 1));
        reveal(Seq::filter);
        if !str_eq(c.language.as_str(), language) {
            kept.push(c);
        }
        i += 1;
    }
    assert(before.take(before.len() as int) =~= before);
    *clients = kept;
}

/// The answer to a go-to-definition command.
pub fn goto_definition(language: &str, file_path: &str, line: u32, character: u32) -> (r: String)
    ensures
        r@ == "Goto definition for "@ + language@ + " at "@ + file_path@ + ":"@ + decimal(line as nat) + ":"@
            + decimal(character as nat),
{
    let a = concat("Goto definition for ", language);
    let b = concat(a.as_str(), " at ");
    let c = concat(b.as_str(), file_path);
    let d = concat(c.as_str(), ":");
    let l = decimal_string(line as u64);
    let e = concat(d.as_str(), l.as_str());
    let f = concat(e.as_str(), ":");
    let ch = decimal_string(character as u64);
    concat(f.as_str(), ch.as_str())
}

} // verus!
