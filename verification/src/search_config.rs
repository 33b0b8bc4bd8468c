//! Search indexing rules: which files are indexed, how queued file events are merged, and
//! the settings of the search indexes.
use crate::text::{chars_eq_str, chars_of, push_char};
use vstd::prelude::*;
use vstd::string::*;

verus! {

/// Maximum size of an indexed file in bytes (1 MB).
pub const MAX_FILE_SIZE: u64 = 0x0010_0000;

/// Default chunk size in characters for the fixed-size fallback splitter.
pub const FALLBACK_CHUNK_SIZE: usize = 4000;

/// Extensions that are eligible for indexing (code, config, docs, web, build).
pub open spec fn allowed_extensions() -> Seq<Seq<char>> {
    seq![
        "rs"@, "py"@, "js"@, "ts"@, "jsx"@, "tsx"@, "go"@, "java"@, "c"@, "h"@, "cpp"@, "hpp"@, "cc"@,
        "rb"@, "php"@, "swift"@, "kt"@, "scala"@, "ex"@, "exs"@, "hs"@, "ml"@, "lua"@, "dart"@, "zig"@,
        "nix"@, "tf"@, "sh"@, "bash"@, "zsh"@, "sql"@, "cs"@, "fs"@, "vb"@, "pl"@, "pm"@, "r"@, "jl"@,
        "nim"@, "sol"@, "v"@, "vy"@, "move"@, "toml"@, "yaml"@, "yml"@, "json"@, "xml"@, "ini"@, "cfg"@,
        "conf"@, "properties"@, "md"@, "txt"@, "rst"@, "adoc"@, "org"@, "tex"@, "html"@, "htm"@, "css"@,
        "scss"@, "sass"@, "less"@, "svg"@, "dockerfile"@, "makefile"@, "cmake"@, "gradle"@, "sbt"@,
        "graphql"@, "proto"@, "thrift"@,
    ]
}

/// Directory names that are always skipped during indexing.
pub open spec fn excluded_dirs() -> Seq<Seq<char>> {
    seq![
        "node_modules"@, ".git"@, "vendor"@, "target"@, "dist"@, "build"@, "out"@, "__pycache__"@,
        ".next"@, ".nuxt"@, ".context-pilot"@,
    ]
}

/// File name suffixes that are always skipped during indexing.
pub open spec fn excluded_suffixes() -> Seq<Seq<char>> {
    seq![".min.js"@, ".min.css"@, ".map"@, ".lock"@, ".sum"@]
}

/// The literal strings of a list, as a vector.
fn literal_list(items: &[&'static str]) -> (r: Vec<&'static str>)
    ensures
        r@ == items@,
{
    let mut r: Vec<&'static str> = Vec::new();
    let mut i: usize = 0;
    while i < items.len()
        invariant
            i <= items@.len(),
            r@ == items@.take(i as int),
        decreases items@.len() - i,
    {
        r.push(items[i]);
        assert(r@ =~= items@.take(i + 1));
        i = i + 1;
    }
    assert(items@.take(items@.len() as int) =~= items@);
    r
}

/// Whether `s` equals one of `list`.
fn member(s: &str, list: &Vec<&'static str>) -> (r: bool)
    ensures
        r == list@.map_values(|x: &str| x@).contains(s@),
{
    let v = chars_of(s);
    let mut i: usize = 0;
    while i < list.len()
        invariant
            v@ == s@,
            i <= list@.len(),
            forall|k: int| 0 <= k < i ==> list@[k]@ != s@,
        decreases list@.len() - i,
    {
        if chars_eq_str(&v, list[i]) {
            assert(list@.map_values(|x: &str| x@)[i as int] == s@);
            return true;
        }
        i = i + 1;
    }
    proof {
        let m = list@.map_values(|x: &str| x@);
        if m.contains(s@) {
            let k = choose|k: int| 0 <= k < m.len() && m[k] == s@;
            assert(list@[k]@ == s@);
        }
    }
    false
}

/// Whether the extension is in the indexing allowlist.
pub fn is_allowed_extension(ext: &str) -> (r: bool)
    ensures
        r == allowed_extensions().contains(ext@),
{
    let list = literal_list(
        &[
            "rs", "py", "js", "ts", "jsx", "tsx", "go", "java", "c", "h", "cpp", "hpp", "cc", "rb", "php",
            "swift", "kt", "scala", "ex", "exs", "hs", "ml", "lua", "dart", "zig", "nix", "tf", "sh", "bash",
            "zsh", "sql", "cs", "fs", "vb", "pl", "pm", "r", "jl", "nim", "sol", "v", "vy", "move", "toml",
            "yaml", "yml", "json", "xml", "ini", "cfg", "conf", "properties", "md", "txt", "rst", "adoc",
            "org", "tex", "html", "htm", "css", "scss", "sass", "less", "svg", "dockerfile", "makefile",
            "cmake", "gradle", "sbt", "graphql", "proto", "thrift",
        ],
    );
    assert(list@.map_values(|x: &str| x@) =~= allowed_extensions());
    member(ext, &list)
}

/// Check if a path component is an excluded directory.
pub fn is_excluded_dir(name: &str) -> (r: bool)
    ensures
        r == excluded_dirs().contains(name@),
{
    let list = literal_list(
        &[
            "node_modules", ".git", "vendor", "target", "dist", "build", "out", "__pycache__", ".next",
            ".nuxt", ".context-pilot",
        ],
    );
    assert(list@.map_values(|x: &str| x@) =~= excluded_dirs());
    member(name, &list)
}

/// `s` ends with `p`.
pub open spec fn ends_with_seq(s: Seq<char>, p: Seq<char>) -> bool {
    p.len() <= s.len() && s.skip(s.len() - p.len()) == p
}

/// `str::ends_with`.
pub fn ends_with_str(s: &str, p: &str) -> (r: bool)
    ensures
        r == ends_with_seq(s@, p@),
{
    let v = chars_of(s);
    let pv = chars_of(p);
    if pv.len() > v.len() {
        return false;
    }
    let off = v.len() - pv.len();
    let r = crate::text::occurs_at_exec(&v, &pv, off);
    assert(v@.subrange(off as int, off + pv@.len()) =~= v@.skip(off as int));
    r
}

/// Check if a file name ends with an excluded suffix.
pub fn is_excluded_file(filename: &str) -> (r: bool)
    ensures
        r == exists|i: int| 0 <= i < excluded_suffixes().len() && ends_with_seq(filename@, #[trigger] excluded_suffixes()[i]),
{
    let list = literal_list(&[".min.js", ".min.css", ".map", ".lock", ".sum"]);
    assert(list@.map_values(|x: &str| x@) =~= excluded_suffixes());
    let mut i: usize = 0;
    while i < list.len()
        invariant
            i <= list@.len(),
            list@.map_values(|x: &str| x@) == excluded_suffixes(),
            forall|k: int| 0 <= k < i ==> !ends_with_seq(filename@, #[trigger] excluded_suffixes()[k]),
        decreases list@.len() - i,
    {
        if ends_with_str(filename, list[i]) {
            assert(excluded_suffixes()[i as int] == list@[i as int]@);
            return true;
        }
        assert(excluded_suffixes()[i as int] == list@[i as int]@);
        i = i + 1;
    }
    false
}

/// Whether a file at the given relative path is eligible for indexing: no component is an
/// excluded directory, the extension is allowed, and the name has no excluded suffix.
pub open spec fn path_eligible_spec(components: Seq<Seq<char>>, ext: Seq<char>, filename: Seq<char>) -> bool {
    &&& forall|i: int| 0 <= i < components.len() ==> !excluded_dirs().contains(#[trigger] components[i])
    &&& allowed_extensions().contains(ext)
    &&& !exists|i: int| 0 <= i < excluded_suffixes().len() && ends_with_seq(filename, #[trigger] excluded_suffixes()[i])
}

/// Law: a file under an excluded directory, at any depth of its path, is not indexed into
/// the files index.
pub proof fn law_excluded_dir_at_any_depth(components: Seq<Seq<char>>, ext: Seq<char>, filename: Seq<char>, i: int)
    requires
        0 <= i < components.len(),
        excluded_dirs().contains(components[i]),
    ensures
        !path_eligible_spec(components, ext, filename),
        file_route_spec(components, ext, filename) != FileRoute::Project,
{
}

/// Law: an indexed project file has an allowed extension and no excluded name suffix; and a
/// path with no excluded directory, an allowed extension and no excluded suffix is indexed.
pub proof fn law_eligible_files(components: Seq<Seq<char>>, ext: Seq<char>, filename: Seq<char>)
    ensures
        path_eligible_spec(components, ext, filename) ==> allowed_extensions().contains(ext),
        path_eligible_spec(components, ext, filename) ==> forall|k: int|
            0 <= k < excluded_suffixes().len() ==> !ends_with_seq(filename, #[trigger] excluded_suffixes()[k]),
        (forall|i: int| 0 <= i < components.len() ==> !excluded_dirs().contains(#[trigger] components[i]))
            && allowed_extensions().contains(ext) && (forall|k: int|
            0 <= k < excluded_suffixes().len() ==> !ends_with_seq(filename, #[trigger] excluded_suffixes()[k]))
            ==> path_eligible_spec(components, ext, filename),
{
}

/// Whether a file is eligible for indexing by its path (the normal components of its path
/// relative to the project root, its extension, and its file name).
pub fn path_eligible(components: &Vec<String>, ext: &str, filename: &str) -> (r: bool)
    ensures
        r == path_eligible_spec(components@.map_values(|c: String| c@), ext@, filename@),
{
    let ghost cs = components@.map_values(|c: String| c@);
    let mut i: usize = 0;
    while i < components.len()
        invariant
            i <= components@.len(),
            cs == components@.map_values(|c: String| c@),
            forall|k: int| 0 <= k < i ==> !excluded_dirs().contains(#[trigger] cs[k]),
        decreases components@.len() - i,
    {
        if is_excluded_dir(components[i].as_str()) {
            assert(cs[i as int] == components@[i as int]@);
            return false;
        }
        assert(cs[i as int] == components@[i as int]@);
        i = i + 1;
    }
    if !is_allowed_extension(ext) {
        return false;
    }
    if is_excluded_file(filename) {
        return false;
    }
    true
}

/// A path (its normal components and extension) names a log chunk file: a `.json` file
/// under `.context-pilot/logs/`, which is indexed into the logs index.
pub open spec fn log_chunk_path_spec(components: Seq<Seq<char>>, ext: Seq<char>) -> bool {
    &&& components.len() >= 3
    &&& components[0] == ".context-pilot"@
    &&& components[1] == "logs"@
    &&& ext == "json"@
}

/// Where a file goes: into the files index, into the logs index, or nowhere.
#[derive(PartialEq, Eq, Structural, Clone, Copy, Debug)]
pub enum FileRoute {
    /// A project file: split into chunks for the files index.
    Project,
    /// A log chunk file: its log entries go to the logs index.
    LogChunk,
    /// Not indexed.
    Skip,
}

/// The route of a file: log chunk files go to the logs index (though `.context-pilot` is an
/// excluded directory), eligible project files to the files index, others nowhere.
pub open spec fn file_route_spec(components: Seq<Seq<char>>, ext: Seq<char>, filename: Seq<char>) -> FileRoute {
    if log_chunk_path_spec(components, ext) {
        FileRoute::LogChunk
    } else if path_eligible_spec(components, ext, filename) {
        FileRoute::Project
    } else {
        FileRoute::Skip
    }
}

/// Where a file goes, by its path relative to the project root (its normal components, its
/// extension and its file name).
pub fn file_route(components: &Vec<String>, ext: &str, filename: &str) -> (r: FileRoute)
    ensures
        r == file_route_spec(components@.map_values(|c: String| c@), ext@, filename@),
{
    let ghost cs = components@.map_values(|c: String| c@);
    if components.len() >= 3 {
        let a = chars_of(components[0].as_str());
        let b = chars_of(components[1].as_str());
        let e = chars_of(ext);
        if chars_eq_str(&a, ".context-pilot") && chars_eq_str(&b, "logs") && chars_eq_str(&e, "json") {
            assert(cs[0] == components@[0]@ && cs[1] == components@[1]@);
            return FileRoute::LogChunk;
        }
        assert(cs[0] == components@[0]@ && cs[1] == components@[1]@);
    }
    if path_eligible(components, ext, filename) {
        FileRoute::Project
    } else {
        FileRoute::Skip
    }
}

/// How many leading bytes the binary check reads.
pub const BINARY_PROBE_BYTES: usize = 8192;

/// A file is binary when a null byte occurs in its first 8 KB.
pub open spec fn is_binary_spec(bytes: Seq<u8>) -> bool {
    exists|i: int| 0 <= i < bytes.len() && i < BINARY_PROBE_BYTES && bytes[i] == 0
}

/// Whether a file's content is binary (a null byte in its first 8 KB); binary files are not
/// indexed.
pub fn is_binary(bytes: &[u8]) -> (r: bool)
    ensures
        r == is_binary_spec(bytes@),
{
    let mut i: usize = 0;
    while i < bytes.len() && i < BINARY_PROBE_BYTES
        invariant
            i <= bytes@.len(),
            i <= BINARY_PROBE_BYTES,
            forall|k: int| 0 <= k < i ==> bytes@[k] != 0,
        decreases bytes@.len() - i,
    {
        if bytes[i] == 0 {
            return true;
        }
        i = i + 1;
    }
    false
}

/// A log entry as a log chunk file records it.
pub struct LogEntry {
    /// Log id (`L<n>`), the document id.
    pub id: String,
    /// The logged text.
    pub content: String,
    /// When it was logged (ms since the epoch).
    pub timestamp_ms: u64,
    /// The same time as an ISO 8601 date-time.
    pub datetime: String,
    /// `low`, `medium`, `high` or `critical`.
    pub importance: String,
    /// Tags.
    pub tags: Vec<String>,
}

/// A document of the logs index: id, content, time (ms and date-time), importance, tags.
pub struct LogDoc {
    pub id: String,
    pub content: String,
    pub timestamp_ms: u64,
    pub datetime: String,
    pub importance: String,
    pub tags: Vec<String>,
}

/// `d` is the logs-index document of entry `e`.
pub open spec fn log_document(e: LogEntry, d: LogDoc) -> bool {
    &&& d.id@ == e.id@
    &&& d.content@ == e.content@
    &&& d.timestamp_ms == e.timestamp_ms
    &&& d.datetime@ == e.datetime@
    &&& d.importance@ == e.importance@
    &&& d.tags@.len() == e.tags@.len()
    &&& forall|k: int| 0 <= k < e.tags@.len() ==> (#[trigger] d.tags@[k])@ == e.tags@[k]@
}

fn clone_strings(v: &Vec<String>) -> (r: Vec<String>)
    ensures
        r@.len() == v@.len(),
        forall|k: int| 0 <= k < v@.len() ==> (#[trigger] r@[k])@ == v@[k]@,
{
    let mut r: Vec<String> = Vec::new();
    let mut i: usize = 0;
    while i < v.len()
        invariant
            i <= v@.len(),
            r@.len() == i,
            forall|k: int| 0 <= k < i ==> (#[trigger] r@[k])@ == v@[k]@,
        decreases v@.len() - i,
    {
        r.push(v[i].clone());
        i = i + 1;
    }
    r
}

/// The logs-index documents of a log chunk file's entries: one per entry, in order, with the
/// entry's fields.
pub fn log_documents(entries: &Vec<LogEntry>) -> (r: Vec<LogDoc>)
    ensures
        r@.len() == entries@.len(),
        forall|k: int| 0 <= k < entries@.len() ==> log_document(entries@[k], #[trigger] r@[k]),
{
    let mut r: Vec<LogDoc> = Vec::new();
    let mut i: usize = 0;
    while i < entries.len()
        invariant
            i <= entries@.len(),
            r@.len() == i,
            forall|k: int| 0 <= k < i ==> log_document(entries@[k], #[trigger] r@[k]),
        decreases entries@.len() - i,
    {
        let e = &entries[i];
        r.push(
            LogDoc {
                id: e.id.clone(),
                content: e.content.clone(),
                timestamp_ms: e.timestamp_ms,
                datetime: e.datetime.clone(),
                importance: e.importance.clone(),
                tags: clone_strings(&e.tags),
            },
        );
        i = i + 1;
    }
    r
}

/// Whether a file of this size (bytes) is small enough to index.
pub fn size_eligible(len: u64) -> (r: bool)
    ensures
        r == (len <= MAX_FILE_SIZE),
{
    len <= MAX_FILE_SIZE
}

/// `s` with each `'` replaced by `\'`.
pub open spec fn escape_quotes(s: Seq<char>) -> Seq<char>
    decreases s.len(),
{
    if s.len() == 0 {
        Seq::empty()
    } else {
        escape_quotes(s.drop_last()) + if s.last() == '\'' {
            seq!['\\', '\'']
        } else {
            seq![s.last()]
        }
    }
}

/// The index filter selecting the chunks of a file: `file_path = '<path>'`, quotes escaped.
pub fn file_path_filter(rel_path: &str) -> (r: String)
    ensures
        r@ == "file_path = '"@ + escape_quotes(rel_path@) + "'"@,
{
    let v = chars_of(rel_path);
    let mut s = String::from_str("file_path = '");
    let ghost prefix = s@;
    let mut i: usize = 0;
    while i < v.len()
        invariant
            i <= v@.len(),
            s@ == prefix + escape_quotes(v@.take(i as int)),
        decreases v@.len() - i,
    {
        if v[i] == '\'' {
            push_char(&mut s, '\\');
            push_char(&mut s, '\'');
        } else {
            push_char(&mut s, v[i]);
        }
        proof {
            assert(v@.take(i + 1).drop_last() =~= v@.take(i as int));
            assert(s@ =~= prefix + escape_quotes(v@.take(i + 1)));
        }
        i = i + 1;
    }
    assert(v@.take(v@.len() as int) =~= v@);
    s.append("'");
    s
}

// =============================================================================
// Merging queued file events
// =============================================================================

/// A queued indexing command.
pub enum IndexerCmd {
    /// (Re)index the file at this path.
    IndexFile(String),
    /// Remove the file at this path from the index.
    DeleteFile(String),
}

/// A command as plain values: whether it indexes, and its path.
pub open spec fn cmd_view(c: IndexerCmd) -> (bool, Seq<char>) {
    match c {
        IndexerCmd::IndexFile(p) => (true, p@),
        IndexerCmd::DeleteFile(p) => (false, p@),
    }
}

/// The commands as plain values.
pub open spec fn cmd_views(s: Seq<IndexerCmd>) -> Seq<(bool, Seq<char>)> {
    s.map_values(|c: IndexerCmd| cmd_view(c))
}

/// Command `i` is the last one in `b` for its path.
pub open spec fn is_last_for_path(b: Seq<(bool, Seq<char>)>, i: int) -> bool {
    0 <= i < b.len() && forall|j: int| i < j < b.len() ==> (#[trigger] b[j]).1 != b[i].1
}

/// `c` is the last command given in `b` for its path.
pub open spec fn last_given(b: Seq<(bool, Seq<char>)>, c: (bool, Seq<char>)) -> bool {
    exists|i: int| is_last_for_path(b, i) && b[i] == c
}

/// Some command of `r` is for path `p`.
pub open spec fn has_path(r: Seq<(bool, Seq<char>)>, p: Seq<char>) -> bool {
    exists|k: int| 0 <= k < r.len() && r[k].1 == p
}

/// The merged commands: one per path of the batch, the last command given for it.
pub open spec fn is_dedup_of(r: Seq<(bool, Seq<char>)>, b: Seq<(bool, Seq<char>)>) -> bool {
    &&& forall|x: int, y: int| 0 <= x < y < r.len() ==> (#[trigger] r[x]).1 != (#[trigger] r[y]).1
    &&& forall|k: int| 0 <= k < r.len() ==> last_given(b, #[trigger] r[k])
    &&& forall|i: int| 0 <= i < b.len() ==> has_path(r, (#[trigger] b[i]).1)
}

fn copy_cmd(c: &IndexerCmd) -> (r: IndexerCmd)
    ensures
        cmd_view(r) == cmd_view(*c),
{
    match c {
        IndexerCmd::IndexFile(p) => IndexerCmd::IndexFile(p.clone()),
        IndexerCmd::DeleteFile(p) => IndexerCmd::DeleteFile(p.clone()),
    }
}

fn cmd_path(c: &IndexerCmd) -> (r: &String)
    ensures
        r@ == cmd_view(*c).1,
{
    match c {
        IndexerCmd::IndexFile(p) => p,
        IndexerCmd::DeleteFile(p) => p,
    }
}

/// Index of the command for path `p` in `out`, if any.
fn find_path(out: &Vec<IndexerCmd>, p: &String) -> (r: Option<usize>)
    ensures
        match r {
            Some(j) => j < out@.len() && cmd_views(out@)[j as int].1 == p@,
            None => forall|k: int| 0 <= k < out@.len() ==> (#[trigger] cmd_views(out@)[k]).1 != p@,
        },
{
    let mut j: usize = 0;
    while j < out.len()
        invariant
            j <= out@.len(),
            forall|k: int| 0 <= k < j ==> (#[trigger] cmd_views(out@)[k]).1 != p@,
        decreases out@.len() - j,
    {
        if *cmd_path(&out[j]) == *p {
            return Some(j);
        }
        j = j + 1;
    }
    None
}

/// Keep only the latest command per path (rapid saves of one file collapse to one event).
pub fn deduplicate(batch: Vec<IndexerCmd>) -> (r: Vec<IndexerCmd>)
    ensures
        is_dedup_of(cmd_views(r@), cmd_views(batch@)),
{
    let ghost b = cmd_views(batch@);
    let mut out: Vec<IndexerCmd> = Vec::new();
    let ghost mut src: Seq<int> = Seq::empty();
    let ghost mut pos: Seq<int> = Seq::empty();
    let mut i: usize = 0;
    while i < batch.len()
        invariant
            i <= batch@.len(),
            b == cmd_views(batch@),
            src.len() == out@.len(),
            pos.len() == i,
            forall|x: int, y: int| 0 <= x < y < out@.len() ==> (#[trigger] cmd_views(out@)[x]).1 != (
            #[trigger] cmd_views(out@)[y]).1,
            forall|k: int|
                0 <= k < out@.len() ==> 0 <= #[trigger] src[k] < i && b[src[k]] == cmd_views(out@)[k] && forall|
                    j: int,
                | src[k] < j < i ==> (#[trigger] b[j]).1 != cmd_views(out@)[k].1,
            forall|j: int| 0 <= j < i ==> 0 <= #[trigger] pos[j] < out@.len() && cmd_views(out@)[pos[j]].1 == b[j].1,
        decreases batch@.len() - i,
    {
        let c = &batch[i];
        let p = cmd_path(c);
        let ghost old_out = cmd_views(out@);
        let ghost old_src = src;
        let ghost old_pos = pos;
        let found = find_path(&out, p);
        let nc = copy_cmd(c);
        match found {
            Some(j) => {
                out.set(j, nc);
                proof {
                    assert(cmd_views(out@) =~= old_out.update(j as int, b[i as int]));
                    src = old_src.update(j as int, i as int);
                    pos = old_pos.push(j as int);
                    let rv = cmd_views(out@);
                    assert forall|k: int| 0 <= k < out@.len() implies 0 <= #[trigger] src[k] < i + 1 && b[src[k]]
                        == rv[k] && forall|x: int| src[k] < x < i + 1 ==> (#[trigger] b[x]).1 != rv[k].1 by {
                        if k != j {
                            assert(rv[k] == old_out[k]);
                            assert(old_out[k].1 != old_out[j as int].1);
                        }
                    }
                    assert forall|x: int| 0 <= x < i + 1 implies 0 <= #[trigger] pos[x] < out@.len() && rv[pos[x]].1
                        == b[x].1 by {
                        if x < i {
                            assert(pos[x] == old_pos[x]);
                        }
                    }
                }
            },
            None => {
                out.push(nc);
                proof {
                    assert(cmd_views(out@) =~= old_out.push(b[i as int]));
                    src = old_src.push(i as int);
                    pos = old_pos.push((out@.len() - 1) as int);
                    let rv = cmd_views(out@);
                    assert forall|k: int| 0 <= k < out@.len() implies 0 <= #[trigger] src[k] < i + 1 && b[src[k]]
                        == rv[k] && forall|x: int| src[k] < x < i + 1 ==> (#[trigger] b[x]).1 != rv[k].1 by {
                        if k < old_out.len() {
                            assert(rv[k] == old_out[k]);
                            assert(src[k] == old_src[k]);
                        }
                    }
                    assert forall|x: int| 0 <= x < i + 1 implies 0 <= #[trigger] pos[x] < out@.len() && rv[pos[x]].1
                        == b[x].1 by {
                        if x < i {
                            assert(pos[x] == old_pos[x]);
                        }
                    }
                }
            },
        }
        i = i + 1;
    }
    proof {
        let rv = cmd_views(out@);
        assert(i == b.len());
        assert forall|k: int| 0 <= k < rv.len() implies last_given(b, #[trigger] rv[k]) by {
            let x = src[k];
            assert(0 <= x < i && b[x] == rv[k]);
            assert forall|j: int| x < j < b.len() implies (#[trigger] b[j]).1 != b[x].1 by {
                assert(b[j].1 != rv[k].1);
            }
            assert(is_last_for_path(b, x));
        }
        assert forall|x: int| 0 <= x < b.len() implies has_path(rv, (#[trigger] b[x]).1) by {
            assert(rv[pos[x]].1 == b[x].1);
        }
        assert forall|x: int, y: int| 0 <= x < y < rv.len() implies (#[trigger] rv[x]).1 != (#[trigger] rv[y]).1 by {
            assert(cmd_views(out@)[x].1 != cmd_views(out@)[y].1);
        }
    }
    out
}

// =============================================================================
// Index and embedder settings
// =============================================================================

/// Search settings of an index: which fields are searchable, filterable and sortable, and
/// the typo tolerance (minimum word sizes for one and two typos), when it is set.
pub struct IndexSettings {
    pub searchable: Vec<&'static str>,
    pub filterable: Vec<&'static str>,
    pub sortable: Vec<&'static str>,
    pub typo_tolerance: Option<(u32, u32)>,
}

/// Views of string slices.
pub open spec fn slice_views(v: Seq<&'static str>) -> Seq<Seq<char>> {
    v.map_values(|x: &'static str| x@)
}

fn strs1(a: &'static str) -> (r: Vec<&'static str>)
    ensures
        slice_views(r@) == seq![a@],
{
    let r = vec![a];
    assert(slice_views(r@) =~= seq![a@]);
    r
}

fn strs3(a: &'static str, b: &'static str, c: &'static str) -> (r: Vec<&'static str>)
    ensures
        slice_views(r@) == seq![a@, b@, c@],
{
    let r = vec![a, b, c];
    assert(slice_views(r@) =~= seq![a@, b@, c@]);
    r
}

fn strs4(a: &'static str, b: &'static str, c: &'static str, d: &'static str) -> (r: Vec<&'static str>)
    ensures
        slice_views(r@) == seq![a@, b@, c@, d@],
{
    let r = vec![a, b, c, d];
    assert(slice_views(r@) =~= seq![a@, b@, c@, d@]);
    r
}

/// Settings for the files index: content, chunk name and path searchable; path, extension,
/// chunk type and modification time filterable; modification time sortable; typos from 4
/// and 8 letters.
pub fn files_index_settings() -> (r: IndexSettings)
    ensures
        slice_views(r.searchable@) == seq!["content"@, "chunk_name"@, "file_path"@],
        slice_views(r.filterable@) == seq!["file_path"@, "extension"@, "chunk_type"@, "last_modified_ms"@],
        slice_views(r.sortable@) == seq!["last_modified_ms"@],
        r.typo_tolerance == Some((4u32, 8u32)),
{
    IndexSettings {
        searchable: strs3("content", "chunk_name", "file_path"),
        filterable: strs4("file_path", "extension", "chunk_type", "last_modified_ms"),
        sortable: strs1("last_modified_ms"),
        typo_tolerance: Some((4, 8)),
    }
}

/// Settings for the logs index: content, date-time and tags searchable; time, importance and
/// tags filterable; time sortable; default typo tolerance.
pub fn logs_index_settings() -> (r: IndexSettings)
    ensures
        slice_views(r.searchable@) == seq!["content"@, "datetime"@, "tags"@],
        slice_views(r.filterable@) == seq!["timestamp_ms"@, "importance"@, "tags"@],
        slice_views(r.sortable@) == seq!["timestamp_ms"@],
        r.typo_tolerance is None,
{
    IndexSettings {
        searchable: strs3("content", "datetime", "tags"),
        filterable: strs3("timestamp_ms", "importance", "tags"),
        sortable: strs1("timestamp_ms"),
        typo_tolerance: None,
    }
}

/// The embedding model, run locally by the search server.
pub const EMBEDDER_MODEL: &'static str = "BAAI/bge-small-en-v1.5";

/// The default embedder of an index.
pub struct EmbedderSettings {
    /// Where the model comes from.
    pub source: &'static str,
    /// The model.
    pub model: &'static str,
    /// How a document becomes the embedded text.
    pub document_template: &'static str,
    /// Cap on the embedded text in bytes, when set.
    pub document_template_max_bytes: Option<u32>,
}

/// The files index's embedder: path, chunk type and name, then the first 100 words of the
/// content, at most 1024 bytes.
pub fn files_embedder_settings() -> (r: EmbedderSettings)
    ensures
        r.source@ == "huggingFace"@,
        r.model@ == EMBEDDER_MODEL@,
        r.document_template@
            == "{{doc.file_path}} [{{doc.chunk_type}}] {{doc.chunk_name}}: {{doc.content | truncatewords: 100}}"@,
        r.document_template_max_bytes == Some(1024u32),
{
    EmbedderSettings {
        source: "huggingFace",
        model: EMBEDDER_MODEL,
        document_template: "{{doc.file_path}} [{{doc.chunk_type}}] {{doc.chunk_name}}: {{doc.content | truncatewords: 100}}",
        document_template_max_bytes: Some(1024),
    }
}

/// The logs index's embedder: importance, then content.
pub fn logs_embedder_settings() -> (r: EmbedderSettings)
    ensures
        r.source@ == "huggingFace"@,
        r.model@ == EMBEDDER_MODEL@,
        r.document_template@ == "[{{doc.importance}}] {{doc.content}}"@,
        r.document_template_max_bytes is None,
{
    EmbedderSettings {
        source: "huggingFace",
        model: EMBEDDER_MODEL,
        document_template: "[{{doc.importance}}] {{doc.content}}",
        document_template_max_bytes: None,
    }
}

/// Whether an index needs its embedder configured: unless its embedder settings could be
/// read as a non-empty object (`configured`: `Some(non-empty)` when read).
pub fn needs_embedder(configured: Option<bool>) -> (r: bool)
    ensures
        r == !(configured == Some(true)),
{
    match configured {
        Some(non_empty) => !non_empty,
        None => true,
    }
}

} // verus!
