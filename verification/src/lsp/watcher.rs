//! What the workspace watcher does with file-system events: which of them
//! reach the LSP server, and as which notification.

use vstd::prelude::*;
use crate::search::searcher::{extension, path_extension};
use crate::text::str_eq;

verus! {

/// How a file changed.
#[derive(Clone, Copy, PartialEq, Eq, Structural)]
pub enum FileChangeKind {
    Created,
    Modified,
    Deleted,
}

/// A change of one file, for LSP sync.
pub struct FileChangeEvent {
    pub path: String,
    pub kind: FileChangeKind,
}

/// The kind of a file-system event as the watcher reports it (the variant of
/// its event kind).
#[derive(Clone, Copy, PartialEq, Eq, Structural)]
pub enum WatchEventKind {
    Create,
    Modify,
    Remove,
    Other,
}

/// The change an event kind stands for; other kinds are ignored.
pub open spec fn change_kind(kind: WatchEventKind) -> Option<FileChangeKind> {
    match kind {
        WatchEventKind::Create => Some(FileChangeKind::Created),
        WatchEventKind::Modify => Some(FileChangeKind::Modified),
        WatchEventKind::Remove => Some(FileChangeKind::Deleted),
        WatchEventKind::Other => None,
    }
}

/// A watched file: one with the extension `rs`.
pub open spec fn is_watched(path: Seq<char>) -> bool {
    extension(path) == Some("rs"@)
}

/// The watched paths among `paths`, in order.
pub open spec fn watched_paths(paths: Seq<String>) -> Seq<Seq<char>>
    decreases paths.len(),
{
    if paths.len() == 0 {
        Seq::empty()
    } else {
        watched_paths(paths.drop_last()) + (if is_watched(paths.last()@) { seq![paths.last()@] } else { Seq::empty() })
    }
}

/// Whether a path is watched.
pub fn is_watched_path(path: &str) -> (r: bool)
    ensures
        r == is_watched(path@),
{
    proof { reveal_strlit("rs"); }
    match path_extension(path) {
        Some(e) => str_eq(e.as_str(), "rs"),
        None => false,
    }
}

/// The changes an event of kind `kind` on `paths` reports: one per watched
/// path, in order, all of the event's change kind; none for other kinds.
pub fn handle_event(kind: WatchEventKind, paths: &Vec<String>) -> (r: Vec<FileChangeEvent>)
    ensures
        match change_kind(kind) {
            None => r@.len() == 0,
            Some(k) => r@.len() == watched_paths(paths@).len()
                && forall|i: int| 0 <= i < r@.len() ==> (#[trigger] r@[i]).path@ == watched_paths(paths@)[i] && r@[i].kind == k,
        },
{
    let k = match kind {
        WatchEventKind::Create => FileChangeKind::Created,
        WatchEventKind::Modify => FileChangeKind::Modified,
        WatchEventKind::Remove => FileChangeKind::Deleted,
        WatchEventKind::Other => return Vec::new(),
    };
    let mut out: Vec<FileChangeEvent> = Vec::new();
    let mut i: usize = 0;
    while i < paths.len()
        invariant
            i <= paths@.len(),
            change_kind(kind) == Some(k),
            out@.len() == watched_paths(paths@.take(i as int)).len(),
            forall|j: int| 0 <= j < out@.len() ==> (#[trigger] out@[j]).path@ == watched_paths(paths@.take(i as int))[j] && out@[j].kind == k,
        decreases paths@.len() - i,
    {
        assert(paths@.take(i + 1).drop_last() =~= paths@.take(i as int));
        let ghost before = watched_paths(paths@.take(i as int));
        if is_watched_path(paths[i].as_str()) {
            out.push(FileChangeEvent { path: paths[i].clone(), kind: k });
        }
        assert(watched_paths(paths@.take(i + 1)) =~= before
            + (if is_watched(paths@[i as int]@) { seq![paths@[i as int]@] } else { Seq::empty() }));
        i += 1;
    }
    assert(paths@.take(paths@.len() as int) =~= paths@);
    out
}

/// The notification a change is synced with.
#[derive(Clone, Copy, PartialEq, Eq, Structural)]
pub enum SyncAction {
    /// `textDocument/didChange` with the file's content.
    DidChange,
    /// `textDocument/didClose`.
    DidClose,
}

/// A created or modified file is sent again; a deleted one is closed.
pub fn sync_action(kind: FileChangeKind) -> (r: SyncAction)
    ensures
        r == (match kind {
            FileChangeKind::Deleted => SyncAction::DidClose,
            _ => SyncAction::DidChange,
        }),
{
    match kind {
        FileChangeKind::Created | FileChangeKind::Modified => SyncAction::DidChange,
        FileChangeKind::Deleted => SyncAction::DidClose,
    }
}

} // verus!
