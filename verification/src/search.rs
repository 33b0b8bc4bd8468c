//! Search module: per-project index naming and index statistics.
//!
//! The search server and the background indexer are run by the caller.
use crate::context::TypeMeta;
use crate::text::push_char;
use sha2::Digest;
use vstd::prelude::*;
use vstd::string::*;

verus! {

// =============================================================================
// Project hash
// =============================================================================

/// What SHA-256 gives for a byte string.
pub uninterp spec fn sha256_of(data: Seq<u8>) -> Seq<u8>;

/// `sha2::Sha256::digest`: the result is named `sha256_of` of the input, and is 32 bytes
/// long (the digest size of SHA-256).
#[verifier::external_body]
fn sha256(data: &[u8]) -> (r: Vec<u8>)
    ensures
        r@ == sha256_of(data@),
        r@.len() == 32,
{
    sha2::Sha256::digest(data).to_vec()
}

/// Lower-case hex digit for `d < 16`.
pub open spec fn hex_char(d: nat) -> char {
    if d < 10 {
        (('0' as u32) + d) as char
    } else {
        (('a' as u32) + d - 10) as char
    }
}

/// Two lower-case hex digits of a byte.
pub open spec fn hex_byte(b: u8) -> Seq<char> {
    seq![hex_char((b / 16) as nat), hex_char((b % 16) as nat)]
}

/// Hex digits of the bytes, in order.
pub open spec fn hex_of(bytes: Seq<u8>) -> Seq<char>
    decreases bytes.len(),
{
    if bytes.len() == 0 {
        Seq::empty()
    } else {
        hex_of(bytes.drop_last()) + hex_byte(bytes.last())
    }
}

fn hex_digit(d: u8) -> (c: char)
    requires
        d < 16,
    ensures
        c == hex_char(d as nat),
{
    if d == 0 {
        '0'
    } else if d == 1 {
        '1'
    } else if d == 2 {
        '2'
    } else if d == 3 {
        '3'
    } else if d == 4 {
        '4'
    } else if d == 5 {
        '5'
    } else if d == 6 {
        '6'
    } else if d == 7 {
        '7'
    } else if d == 8 {
        '8'
    } else if d == 9 {
        '9'
    } else if d == 10 {
        'a'
    } else if d == 11 {
        'b'
    } else if d == 12 {
        'c'
    } else if d == 13 {
        'd'
    } else if d == 14 {
        'e'
    } else {
        'f'
    }
}

/// Encode the first 4 bytes of a slice as an 8-character lowercase hex string
/// (fewer when the slice is shorter).
pub fn hex_encode_4_bytes(bytes: &[u8]) -> (r: String)
    ensures
        r@ == hex_of(bytes@.take(if bytes@.len() < 4 { bytes@.len() as int } else { 4 })),
{
    let n = if bytes.len() < 4 {
        bytes.len()
    } else {
        4
    };
    let mut out = String::new();
    let mut i: usize = 0;
    while i < n
        invariant
            n <= bytes@.len(),
            i <= n,
            out@ == hex_of(bytes@.take(i as int)),
        decreases n - i,
    {
        let b = bytes[i];
        push_char(&mut out, hex_digit(b / 16));
        push_char(&mut out, hex_digit(b % 16));
        proof {
            assert(bytes@.take(i + 1).drop_last() =~= bytes@.take(i as int));
            assert(out@ =~= hex_of(bytes@.take(i + 1)));
        }
        i = i + 1;
    }
    out
}

/// The 8-character project hash: hex of the first 4 bytes of the SHA-256 of the path.
pub open spec fn project_hash_of(path: Seq<char>) -> Seq<char> {
    hex_of(sha256_of(vstd::utf8::encode_utf8(path)).take(4))
}

/// Compute an 8-character hex hash of a path for per-project index naming.
pub fn hash_project_path(path: &str) -> (r: String)
    ensures
        r@ == project_hash_of(path@),
        r@.len() == 8,
{
    let digest = sha256(path.as_bytes());
    let r = hex_encode_4_bytes(digest.as_slice());
    proof {
        lemma_hex_len(digest@.take(4));
    }
    r
}

proof fn lemma_hex_len(bytes: Seq<u8>)
    ensures
        hex_of(bytes).len() == 2 * bytes.len(),
    decreases bytes.len(),
{
    if bytes.len() > 0 {
        lemma_hex_len(bytes.drop_last());
    }
}

/// Uid of the project's files index: `cp_<hash>_files`.
pub fn files_index_uid(project_hash: &str) -> (r: String)
    ensures
        r@ == "cp_"@ + project_hash@ + "_files"@,
{
    let mut s = String::from_str("cp_");
    s.append(project_hash);
    s.append("_files");
    s
}

/// Uid of the project's logs index: `cp_<hash>_logs`.
pub fn logs_index_uid(project_hash: &str) -> (r: String)
    ensures
        r@ == "cp_"@ + project_hash@ + "_logs"@,
{
    let mut s = String::from_str("cp_");
    s.append(project_hash);
    s.append("_logs");
    s
}

// =============================================================================
// The module
// =============================================================================

/// Persisted search state.
pub struct SearchPersistData {
    /// Port the search server listens on (0 when it is not running).
    pub port: u16,
    /// Master key of the search server.
    pub master_key: String,
    /// 8-character hash of the project root path.
    pub project_hash: String,
    /// Whether the initial full-project indexing has completed.
    pub index_ready: bool,
}

/// Meilisearch-powered search module.
#[derive(Debug, Clone, Copy)]
pub struct SearchModule;

impl SearchModule {
    /// Module id.
    pub fn id(&self) -> (r: &'static str)
        ensures
            r@ == "search"@,
    {
        "search"
    }

    /// Module name.
    pub fn name(&self) -> (r: &'static str)
        ensures
            r@ == "Search"@,
    {
        "Search"
    }

    /// Module description.
    pub fn description(&self) -> (r: &'static str)
        ensures
            r@ == "Full-text search across project files and logs via Meilisearch"@,
    {
        "Full-text search across project files and logs via Meilisearch"
    }

    /// Modules this one depends on: `core`.
    pub fn dependencies(&self) -> (r: Vec<&'static str>)
        ensures
            r@.len() == 1,
            r@[0]@ == "core"@,
    {
        let mut v: Vec<&'static str> = Vec::new();
        v.push("core");
        v
    }

    /// The module is per worker, not global.
    pub fn is_global(&self) -> (r: bool)
        ensures
            !r,
    {
        false
    }

    /// The module is not a core module.
    pub fn is_core(&self) -> (r: bool)
        ensures
            !r,
    {
        false
    }

    /// Registration of the `search_result` context type (dynamic panels).
    pub fn context_type_metadata(&self) -> (r: Vec<TypeMeta>)
        ensures
            r@.len() == 1,
            r@[0].context_type@ == "search_result"@,
            r@[0].icon_id@ == "search"@,
            !r@[0].is_fixed,
            !r@[0].needs_cache,
            r@[0].fixed_order is None,
            r@[0].display_name@ == "search"@,
            r@[0].short_name@ == "search"@,
            !r@[0].needs_async_wait,
    {
        let mut v: Vec<TypeMeta> = Vec::new();
        v.push(
            TypeMeta {
                context_type: "search_result",
                icon_id: "search",
                is_fixed: false,
                needs_cache: false,
                fixed_order: None,
                display_name: "search",
                short_name: "search",
                needs_async_wait: false,
            },
        );
        v
    }

    /// Dynamic panel types: `search_result`.
    pub fn dynamic_panel_types(&self) -> (r: Vec<&'static str>)
        ensures
            r@.len() == 1,
            r@[0]@ == "search_result"@,
    {
        let mut v: Vec<&'static str> = Vec::new();
        v.push("search_result");
        v
    }

    /// The tool category this module contributes.
    pub fn tool_category_descriptions(&self) -> (r: Vec<(&'static str, &'static str)>)
        ensures
            r@.len() == 1,
            r@[0].0@ == "Search"@,
            r@[0].1@ == "Full-text search via Meilisearch"@,
    {
        let mut v: Vec<(&'static str, &'static str)> = Vec::new();
        v.push(("Search", "Full-text search via Meilisearch"));
        v
    }

    /// File-system changes refresh immediately.
    pub fn watcher_immediate_refresh(&self) -> (r: bool)
        ensures
            r,
    {
        true
    }

    /// Fresh persisted state for a project path: not running, no key, not indexed.
    pub fn initial_persist(&self, project_path: &str) -> (r: SearchPersistData)
        ensures
            r.port == 0,
            r.master_key@ == Seq::<char>::empty(),
            r.project_hash@ == project_hash_of(project_path@),
            !r.index_ready,
    {
        SearchPersistData {
            port: 0,
            master_key: String::new(),
            project_hash: hash_project_path(project_path),
            index_ready: false,
        }
    }
}

// =============================================================================
// Initial index statistics
// =============================================================================

/// Estimated number of indexed files from the chunk count: a third, and at least one when
/// there are chunks.
pub open spec fn files_estimate_of(chunks: u64) -> u64 {
    if chunks / 3 >= 1 {
        chunks / 3
    } else if chunks > 0 {
        1
    } else {
        0
    }
}

/// Estimated number of indexed files from the chunk count.
pub fn files_estimate(chunks: u64) -> (r: u64)
    ensures
        r == files_estimate_of(chunks),
{
    let third = chunks / 3;
    let at_least: u64 = if chunks > 0 {
        1
    } else {
        0
    };
    if third >= at_least {
        third
    } else {
        at_least
    }
}

/// `a + b`, saturating at `u64::MAX`.
pub open spec fn sat_add(a: int, b: int) -> int {
    if a + b > u64::MAX {
        u64::MAX as int
    } else {
        a + b
    }
}

/// Counts per name, as plain values.
pub open spec fn count_views(v: Seq<(String, u64)>) -> Seq<(Seq<char>, u64)> {
    v.map_values(|e: (String, u64)| (e.0@, e.1))
}

/// Tree-sitter and fallback chunk counts from the chunk-type counts (`raw` is the fallback
/// splitter's type), each summed with saturation.
pub open spec fn chunk_split(types: Seq<(Seq<char>, u64)>) -> (int, int)
    decreases types.len(),
{
    if types.len() == 0 {
        (0, 0)
    } else {
        let (ts, fb) = chunk_split(types.drop_last());
        if types.last().0 == "raw"@ {
            (ts, sat_add(fb, types.last().1 as int))
        } else {
            (sat_add(ts, types.last().1 as int), fb)
        }
    }
}

/// Split chunk-type counts into tree-sitter chunks and fallback (`raw`) chunks.
pub fn split_chunk_types(types: &Vec<(String, u64)>) -> (r: (u64, u64))
    ensures
        r.0 == chunk_split(count_views(types@)).0,
        r.1 == chunk_split(count_views(types@)).1,
{
    let mut ts: u64 = 0;
    let mut fb: u64 = 0;
    let mut i: usize = 0;
    while i < types.len()
        invariant
            i <= types@.len(),
            ts == chunk_split(count_views(types@.take(i as int))).0,
            fb == chunk_split(count_views(types@.take(i as int))).1,
        decreases types@.len() - i,
    {
        let v = crate::text::chars_of(types[i].0.as_str());
        let n = types[i].1;
        proof {
            crate::text::lemma_map_take_push(types@, i as int, |e: (String, u64)| (e.0@, e.1));
            assert(count_views(types@.take(i + 1)).drop_last() =~= count_views(types@.take(i as int)));
        }
        if crate::text::chars_eq_str(&v, "raw") {
            fb = fb.saturating_add(n);
        } else {
            ts = ts.saturating_add(n);
        }
        i = i + 1;
    }
    assert(types@.take(types@.len() as int) =~= types@);
    (ts, fb)
}

/// Sum of the counts.
pub open spec fn counts_total(v: Seq<(Seq<char>, u64)>) -> int
    decreases v.len(),
{
    if v.len() == 0 {
        0
    } else {
        counts_total(v.drop_last()) + v.last().1
    }
}

/// Files per extension, from chunks per extension and the estimated number of files:
/// each count scaled by `files / total chunks` (at least 1 when it has chunks); the counts
/// are kept as they are when there are no chunks or no files.
pub open spec fn scaled_count(chunks: u64, files: u64, total: int) -> u64 {
    let m: int = if chunks * files > u64::MAX {
        u64::MAX as int
    } else {
        chunks * files
    };
    let q = m / total;
    if q >= 1 {
        q as u64
    } else if chunks > 0 {
        1
    } else {
        0
    }
}

/// Per-extension file estimates.
pub open spec fn file_ext_estimates(ext: Seq<(Seq<char>, u64)>, files: u64) -> Seq<(Seq<char>, u64)> {
    let total = counts_total(ext);
    if total > 0 && files > 0 {
        ext.map_values(|e: (Seq<char>, u64)| (e.0, scaled_count(e.1, files, total)))
    } else {
        ext
    }
}

proof fn lemma_counts_total_nonneg(v: Seq<(Seq<char>, u64)>)
    ensures
        counts_total(v) >= 0,
    decreases v.len(),
{
    if v.len() > 0 {
        lemma_counts_total_nonneg(v.drop_last());
    }
}

/// Sum of the counts (which must fit in `u64`).
pub(crate) fn total_count(v: &Vec<(String, u64)>) -> (r: u64)
    requires
        counts_total(count_views(v@)) <= u64::MAX,
    ensures
        r == counts_total(count_views(v@)),
{
    let mut t: u64 = 0;
    let mut i: usize = 0;
    while i < v.len()
        invariant
            i <= v@.len(),
            counts_total(count_views(v@)) <= u64::MAX,
            t == counts_total(count_views(v@.take(i as int))),
        decreases v@.len() - i,
    {
        proof {
            crate::text::lemma_map_take_push(v@, i as int, |e: (String, u64)| (e.0@, e.1));
            assert(count_views(v@.take(i + 1)).drop_last() =~= count_views(v@.take(i as int)));
            lemma_counts_total_prefix(count_views(v@), i + 1);
            assert(count_views(v@).take(i + 1) =~= count_views(v@.take(i + 1)));
        }
        t = t + v[i].1;
        i = i + 1;
    }
    assert(v@.take(v@.len() as int) =~= v@);
    t
}

proof fn lemma_counts_total_prefix(v: Seq<(Seq<char>, u64)>, k: int)
    requires
        0 <= k <= v.len(),
    ensures
        counts_total(v.take(k)) <= counts_total(v),
    decreases v.len(),
{
    if k < v.len() {
        assert(v.drop_last().take(k) =~= v.take(k));
        lemma_counts_total_prefix(v.drop_last(), k);
    } else {
        assert(v.take(k) =~= v);
    }
}

/// Convert per-extension chunk counts to approximate per-extension file counts.
pub fn file_ext_counts(ext: &Vec<(String, u64)>, files: u64) -> (r: Vec<(String, u64)>)
    requires
        counts_total(count_views(ext@)) <= u64::MAX,
    ensures
        count_views(r@) == file_ext_estimates(count_views(ext@), files),
{
    let total = total_count(ext);
    let mut out: Vec<(String, u64)> = Vec::new();
    let mut i: usize = 0;
    let scale = total > 0 && files > 0;
    let ghost f = |e: (Seq<char>, u64)| (e.0, scaled_count(e.1, files, total as int));
    while i < ext.len()
        invariant
            i <= ext@.len(),
            total == counts_total(count_views(ext@)),
            f == |e: (Seq<char>, u64)| (e.0, scaled_count(e.1, files, total as int)),
            scale == (total > 0 && files > 0),
            scale ==> count_views(out@) == count_views(ext@.take(i as int)).map_values(f),
            !scale ==> count_views(out@) == count_views(ext@.take(i as int)),
        decreases ext@.len() - i,
    {
        let name = ext[i].0.clone();
        let c = ext[i].1;
        let v = if scale {
            let prod = match c.checked_mul(files) {
                Some(x) => x,
                None => u64::MAX,
            };
            let q = prod / total;
            let at_least: u64 = if c > 0 {
                1
            } else {
                0
            };
            if q >= at_least {
                q
            } else {
                at_least
            }
        } else {
            c
        };
        let ghost old_out = out@;
        out.push((name, v));
        proof {
            let g = |e: (String, u64)| (e.0@, e.1);
            crate::text::lemma_map_push(old_out, (name, v), g);
            crate::text::lemma_map_take_push(ext@, i as int, g);
            if scale {
                crate::text::lemma_map_push(count_views(ext@.take(i as int)), (ext@[i as int].0@, c), f);
                assert(v == scaled_count(c, files, total as int));
            }
        }
        i = i + 1;
    }
    assert(ext@.take(ext@.len() as int) =~= ext@);
    assert(count_views(ext@).map_values(f) =~= count_views(ext@).map_values(
        |e: (Seq<char>, u64)| (e.0, scaled_count(e.1, files, counts_total(count_views(ext@)))),
    ));
    out
}

/// The total of the counts whose key is one of `keys`.
pub open spec fn counts_among(v: Seq<(Seq<char>, u64)>, keys: Seq<Seq<char>>) -> int
    decreases v.len(),
{
    if v.len() == 0 {
        0
    } else {
        counts_among(v.drop_last(), keys) + if keys.contains(v.last().0) {
            v.last().1 as int
        } else {
            0
        }
    }
}

proof fn lemma_counts_among_bounded(v: Seq<(Seq<char>, u64)>, keys: Seq<Seq<char>>)
    ensures
        0 <= counts_among(v, keys) <= counts_total(v),
    decreases v.len(),
{
    if v.len() > 0 {
        lemma_counts_among_bounded(v.drop_last(), keys);
    }
}

/// The indexed chunks of OCR-converted files: the counts of the extensions among
/// `ocr_extensions`, added up.
pub fn ocr_indexed_count(ext: &Vec<(String, u64)>, ocr_extensions: &Vec<String>) -> (r: u64)
    requires
        counts_total(count_views(ext@)) <= u64::MAX,
    ensures
        r == counts_among(count_views(ext@), crate::text::views(ocr_extensions@)),
{
    let ghost keys = crate::text::views(ocr_extensions@);
    let mut t: u64 = 0;
    let mut i: usize = 0;
    while i < ext.len()
        invariant
            i <= ext@.len(),
            keys == crate::text::views(ocr_extensions@),
            counts_total(count_views(ext@)) <= u64::MAX,
            t == counts_among(count_views(ext@.take(i as int)), keys),
        decreases ext@.len() - i,
    {
        proof {
            crate::text::lemma_map_take_push(ext@, i as int, |e: (String, u64)| (e.0@, e.1));
            assert(count_views(ext@.take(i + 1)).drop_last() =~= count_views(ext@.take(i as int)));
            lemma_counts_total_prefix(count_views(ext@), i + 1);
            assert(count_views(ext@).take(i + 1) =~= count_views(ext@.take(i + 1)));
            lemma_counts_among_bounded(count_views(ext@.take(i + 1)), keys);
        }
        let mut found = false;
        let mut j: usize = 0;
        while j < ocr_extensions.len()
            invariant
                j <= ocr_extensions@.len(),
                i < ext@.len(),
                keys == crate::text::views(ocr_extensions@),
                found == exists|k: int| 0 <= k < j && keys[k] == ext@[i as int].0@,
            decreases ocr_extensions@.len() - j,
        {
            if ocr_extensions[j] == ext[i].0 {
                found = true;
            }
            proof {
                assert(keys[j as int] == ocr_extensions@[j as int]@);
            }
            j = j + 1;
        }
        proof {
            if keys.contains(ext@[i as int].0@) {
                let k = choose|k: int| 0 <= k < keys.len() && keys[k] == ext@[i as int].0@;
                assert(0 <= k < j);
            }
        }
        if found {
            t = t + ext[i].1;
        }
        i = i + 1;
    }
    assert(ext@.take(ext@.len() as int) =~= ext@);
    t
}

/// OCR counters of the index metrics.
pub struct OcrMetrics {
    /// Conversions attempted.
    pub attempted: u64,
    /// Conversions that succeeded.
    pub succeeded: u64,
    /// Conversions served from the cache.
    pub cached: u64,
    /// Whether OCR is enabled.
    pub enabled: bool,
}

/// Bootstrap OCR counters from the disk cache and the index when none were recorded: both
/// attempted and succeeded become the larger of the two counts.
pub fn bootstrap_ocr(m: &mut OcrMetrics, cache_count: u64, indexed_count: u64)
    ensures
        if old(m).attempted == 0 && (cache_count > 0 || indexed_count > 0) {
            let inferred = if cache_count >= indexed_count {
                cache_count
            } else {
                indexed_count
            };
            &&& final(m).attempted == inferred
            &&& final(m).succeeded == inferred
            &&& final(m).cached == cache_count
            &&& final(m).enabled
        } else {
            *final(m) == *old(m)
        },
{
    if m.attempted == 0 && (cache_count > 0 || indexed_count > 0) {
        let inferred = if cache_count >= indexed_count {
            cache_count
        } else {
            indexed_count
        };
        m.attempted = inferred;
        m.succeeded = inferred;
        m.cached = cache_count;
        m.enabled = true;
    }
}

/// Index metrics read at start-up, before the indexer has done any work.
pub struct InitialIndexMetrics {
    /// Documents in both indexes.
    pub chunks: u64,
    /// Estimated files in the files index.
    pub files: u64,
    /// Estimated files per extension.
    pub extension_counts: Vec<(String, u64)>,
    /// Chunks made by the tree-sitter splitter.
    pub tree_sitter_chunks: u64,
    /// Chunks made by the fallback splitter.
    pub fallback_chunks: u64,
}

/// The initial index metrics from what the search server reports: the document counts of
/// the files and logs indexes (`None` where the server could not tell) and the facet counts
/// of the files index per extension and per chunk type (empty where it could not tell).
pub fn initial_index_metrics(
    files_docs: Option<u64>,
    logs_docs: Option<u64>,
    ext: &Vec<(String, u64)>,
    chunk_types: &Vec<(String, u64)>,
) -> (r: InitialIndexMetrics)
    requires
        counts_total(count_views(ext@)) <= u64::MAX,
    ensures
        r.files == match files_docs {
            Some(c) => files_estimate_of(c),
            None => 0,
        },
        r.chunks == sat_add(
            match files_docs {
                Some(c) => c as int,
                None => 0,
            },
            match logs_docs {
                Some(c) => c as int,
                None => 0,
            },
        ),
        count_views(r.extension_counts@) == file_ext_estimates(count_views(ext@), r.files),
        crate::overlay::distinct_keys(count_views(ext@)) ==> crate::overlay::distinct_keys(
            count_views(r.extension_counts@),
        ),
        r.tree_sitter_chunks == chunk_split(count_views(chunk_types@)).0,
        r.fallback_chunks == chunk_split(count_views(chunk_types@)).1,
{
    let (chunks, files) = match files_docs {
        Some(c) => (c, files_estimate(c)),
        None => (0, 0),
    };
    let chunks = match logs_docs {
        Some(l) => chunks.saturating_add(l),
        None => chunks,
    };
    let (ts, fb) = split_chunk_types(chunk_types);
    let extension_counts = file_ext_counts(ext, files);
    proof {
        let e = count_views(ext@);
        let v = count_views(extension_counts@);
        assert(v.len() == e.len());
        assert forall|i: int| 0 <= i < v.len() implies (#[trigger] v[i]).0 == e[i].0 by {}
    }
    InitialIndexMetrics {
        chunks,
        files,
        extension_counts,
        tree_sitter_chunks: ts,
        fallback_chunks: fb,
    }
}

} // verus!
