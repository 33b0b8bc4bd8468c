//! Decisions of the background indexer: which file events become commands, what the
//! directory scan does with an entry, and the documents a file's chunks become.
use crate::search_config::{
    cmd_view, escape_quotes, excluded_dirs, file_path_filter, is_excluded_dir, FileRoute, IndexerCmd,
};
use crate::text::{dec, push_dec};
use vstd::prelude::*;
use vstd::string::*;

verus! {

/// Debounce after the first event of a batch, in milliseconds.
pub const DEBOUNCE_MS: u64 = 200;

/// The kind of a file-system event.
#[derive(Debug, PartialEq, Eq, Structural, Clone, Copy)]
pub enum FsEventKind {
    Create,
    Modify,
    Remove,
    /// Access, metadata and other events.
    Other,
}

/// The command an event on `path` gives: creation and modification index the file, removal
/// deletes it, other events give none.
pub open spec fn event_command(kind: FsEventKind, path: Seq<char>) -> Option<(bool, Seq<char>)> {
    match kind {
        FsEventKind::Create | FsEventKind::Modify => Some((true, path)),
        FsEventKind::Remove => Some((false, path)),
        FsEventKind::Other => None,
    }
}

/// The commands an event gives, one per path in order.
pub open spec fn event_commands(kind: FsEventKind, paths: Seq<Seq<char>>) -> Seq<(bool, Seq<char>)> {
    match kind {
        FsEventKind::Other => Seq::empty(),
        _ => paths.map_values(|p: Seq<char>| (kind != FsEventKind::Remove, p)),
    }
}

/// The command for one path of an event.
pub fn command_for_event(kind: FsEventKind, path: String) -> (r: Option<IndexerCmd>)
    ensures
        match event_command(kind, path@) {
            Some(c) => r matches Some(x) && cmd_view(x) == c,
            None => r is None,
        },
{
    match kind {
        FsEventKind::Create | FsEventKind::Modify => Some(IndexerCmd::IndexFile(path)),
        FsEventKind::Remove => Some(IndexerCmd::DeleteFile(path)),
        FsEventKind::Other => None,
    }
}

/// The commands a file-system event sends, one per affected path.
pub fn commands_for_event(kind: FsEventKind, paths: Vec<String>) -> (r: Vec<IndexerCmd>)
    ensures
        r@.map_values(|c: IndexerCmd| cmd_view(c)) == event_commands(kind, crate::text::views(paths@)),
{
    let ghost ps = crate::text::views(paths@);
    let mut out: Vec<IndexerCmd> = Vec::new();
    let mut i: usize = 0;
    while i < paths.len()
        invariant
            i <= paths@.len(),
            ps == crate::text::views(paths@),
            out@.map_values(|c: IndexerCmd| cmd_view(c)) == event_commands(kind, ps.take(i as int)),
        decreases paths@.len() - i,
    {
        let ghost before = out@;
        let c = command_for_event(kind, paths[i].clone());
        match c {
            Some(x) => {
                out.push(x);
                proof {
                    assert(out@.map_values(|c: IndexerCmd| cmd_view(c)) =~= before.map_values(
                        |c: IndexerCmd| cmd_view(c),
                    ).push(cmd_view(x)));
                    assert(event_commands(kind, ps.take(i + 1)) =~= event_commands(kind, ps.take(i as int)).push(
                        (kind != FsEventKind::Remove, ps[i as int]),
                    ));
                }
            },
            None => {
                proof {
                    assert(event_commands(kind, ps.take(i + 1)) =~= event_commands(kind, ps.take(i as int)));
                }
            },
        }
        i = i + 1;
    }
    assert(ps.take(ps.len() as int) =~= ps);
    out
}

/// What the directory scan does with an entry.
#[derive(Debug, PartialEq, Eq, Structural, Clone, Copy)]
pub enum ScanAction {
    /// Leave it alone.
    Skip,
    /// Scan the directory.
    Descend,
    /// Queue the file for indexing.
    Queue,
}

/// The scan's action on an entry: symbolic links are skipped, directories scanned unless
/// excluded by name, regular files queued, anything else skipped.
pub open spec fn scan_decision(is_symlink: bool, is_dir: bool, is_file: bool, name: Seq<char>) -> ScanAction {
    if is_symlink {
        ScanAction::Skip
    } else if is_dir {
        if excluded_dirs().contains(name) {
            ScanAction::Skip
        } else {
            ScanAction::Descend
        }
    } else if is_file {
        ScanAction::Queue
    } else {
        ScanAction::Skip
    }
}

/// The directory scan's action on an entry with the given kind and name.
pub fn scan_action(is_symlink: bool, is_dir: bool, is_file: bool, name: &str) -> (r: ScanAction)
    ensures
        r == scan_decision(is_symlink, is_dir, is_file, name@),
{
    if is_symlink {
        ScanAction::Skip
    } else if is_dir {
        if is_excluded_dir(name) {
            ScanAction::Skip
        } else {
            ScanAction::Descend
        }
    } else if is_file {
        ScanAction::Queue
    } else {
        ScanAction::Skip
    }
}

/// A chunk of a file, as the splitter produced it.
pub struct Chunk {
    pub content: String,
    /// What kind of unit the chunk is (function, struct, block, ...).
    pub kind: String,
    /// The unit's name, when it has one.
    pub name: String,
    pub line_start: usize,
    pub line_end: usize,
    pub char_start: usize,
    pub char_end: usize,
}

/// The index document of one chunk.
pub struct ChunkDoc {
    /// `<path>:<chunk number>`.
    pub id: String,
    pub file_path: String,
    pub content: String,
    pub extension: String,
    pub chunk_type: String,
    pub chunk_name: String,
    pub line_start: usize,
    pub line_end: usize,
    pub char_start: usize,
    pub char_end: usize,
    pub last_modified_ms: u64,
}

/// `d` is the document of chunk `c`, the `i`-th of the file at `rel` with extension `ext`.
pub open spec fn documents(d: ChunkDoc, c: Chunk, i: int, rel: Seq<char>, ext: Seq<char>, last_modified_ms: u64) -> bool {
    &&& d.id@ == rel + ":"@ + dec(i as nat)
    &&& d.file_path@ == rel
    &&& d.content@ == c.content@
    &&& d.extension@ == ext
    &&& d.chunk_type@ == c.kind@
    &&& d.chunk_name@ == c.name@
    &&& d.line_start == c.line_start
    &&& d.line_end == c.line_end
    &&& d.char_start == c.char_start
    &&& d.char_end == c.char_end
    &&& d.last_modified_ms == last_modified_ms
}

/// The index documents of a file's chunks, numbered from 0 in order.
pub fn chunk_documents(rel_path: &str, ext: &str, chunks: &Vec<Chunk>, last_modified_ms: u64) -> (r: Vec<ChunkDoc>)
    ensures
        r@.len() == chunks@.len(),
        forall|i: int|
            0 <= i < chunks@.len() ==> documents(#[trigger] r@[i], chunks@[i], i, rel_path@, ext@, last_modified_ms),
{
    let mut docs: Vec<ChunkDoc> = Vec::new();
    let mut i: usize = 0;
    while i < chunks.len()
        invariant
            i <= chunks@.len(),
            docs@.len() == i,
            forall|k: int|
                0 <= k < i ==> documents(#[trigger] docs@[k], chunks@[k], k, rel_path@, ext@, last_modified_ms),
        decreases chunks@.len() - i,
    {
        let c = &chunks[i];
        let mut id = String::from_str(rel_path);
        id.append(":");
        push_dec(&mut id, i as u64);
        docs.push(
            ChunkDoc {
                id,
                file_path: String::from_str(rel_path),
                content: c.content.clone(),
                extension: String::from_str(ext),
                chunk_type: c.kind.clone(),
                chunk_name: c.name.clone(),
                line_start: c.line_start,
                line_end: c.line_end,
                char_start: c.char_start,
                char_end: c.char_end,
                last_modified_ms,
            },
        );
        i = i + 1;
    }
    docs
}

// =============================================================================
// Indexing one file
// =============================================================================

/// A change to the files index.
pub enum IndexAction {
    /// Delete the documents selected by this filter.
    DeleteByFilter { filter: String },
    /// Add (or replace) these documents.
    AddDocs { docs: Vec<ChunkDoc> },
}

/// The filter selecting the documents of the file at `rel`.
pub open spec fn path_filter(rel: Seq<char>) -> Seq<char> {
    "file_path = '"@ + escape_quotes(rel) + "'"@
}

/// `a` deletes the documents of the file at `rel`.
pub open spec fn deletes_file(a: IndexAction, rel: Seq<char>) -> bool {
    a matches IndexAction::DeleteByFilter { filter } && filter@ == path_filter(rel)
}

/// `a` adds the documents of `chunks`, the chunks of the file at `rel` with extension
/// `ext`, numbered from 0 in order.
pub open spec fn adds_chunks(a: IndexAction, chunks: Seq<Chunk>, rel: Seq<char>, ext: Seq<char>, last_modified_ms: u64) -> bool {
    a matches IndexAction::AddDocs { docs } && docs@.len() == chunks.len() && forall|i: int|
        0 <= i < chunks.len() ==> documents(#[trigger] docs@[i], chunks[i], i, rel, ext, last_modified_ms)
}

/// What indexing a file does to the files index: nothing unless it is a project file that
/// is small enough and was read as text (`readable`: read, UTF-8, not binary); else delete
/// its old documents, then, when splitting gave any chunks, add their documents.
pub fn index_file_plan(
    route: FileRoute,
    size_ok: bool,
    readable: bool,
    rel_path: &str,
    ext: &str,
    chunks: &Vec<Chunk>,
    last_modified_ms: u64,
) -> (r: Vec<IndexAction>)
    ensures
        !(route == FileRoute::Project && size_ok && readable) ==> r@.len() == 0,
        route == FileRoute::Project && size_ok && readable ==> {
            &&& r@.len() == if chunks@.len() > 0 {
                2int
            } else {
                1int
            }
            &&& deletes_file(r@[0], rel_path@)
            &&& chunks@.len() > 0 ==> adds_chunks(r@[1], chunks@, rel_path@, ext@, last_modified_ms)
        },
{
    let mut plan: Vec<IndexAction> = Vec::new();
    if !(route == FileRoute::Project && size_ok && readable) {
        return plan;
    }
    plan.push(IndexAction::DeleteByFilter { filter: file_path_filter(rel_path) });
    if chunks.len() > 0 {
        plan.push(IndexAction::AddDocs { docs: chunk_documents(rel_path, ext, chunks, last_modified_ms) });
    }
    plan
}

/// What removing a file does to the files index: delete its documents.
pub fn delete_file_plan(rel_path: &str) -> (r: Vec<IndexAction>)
    ensures
        r@.len() == 1,
        deletes_file(r@[0], rel_path@),
{
    let mut plan: Vec<IndexAction> = Vec::new();
    plan.push(IndexAction::DeleteByFilter { filter: file_path_filter(rel_path) });
    plan
}

} // verus!
