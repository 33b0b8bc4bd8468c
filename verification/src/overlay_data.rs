//! Assembling the overlay's data from the indexer's metrics and the search server's
//! cached live statistics.
use crate::overlay::{
    distinct_keys, lemma_distinct_keys_take, law_sorted_desc, law_sorted_desc_keeps_keys, humanized, short_task_type, sorted_desc, task_info, top_entries, CpuLoad, MeiliTask, MeiliTaskInfo,
    SearchOverlayInfo,
};
use crate::search::count_views;
use vstd::prelude::*;
use vstd::string::*;

verus! {

/// How long live statistics stay fresh, in milliseconds.
pub const LIVE_STATS_TTL_MS: u64 = 2000;

/// How many entries each top list keeps.
pub const TOP_ENTRIES: usize = 8;

/// Statistics read from the search server, with the time they were read.
pub struct MeiliLiveStats {
    pub database_size_bytes: u64,
    pub used_database_size_bytes: u64,
    pub files_embedding_count: u64,
    pub files_is_indexing: bool,
    pub logs_doc_count: u64,
    pub embedding_model: String,
    /// When the statistics were read (ms since the epoch).
    pub fetched_at_ms: u64,
    pub version: String,
    pub avg_document_size: u64,
    pub raw_document_db_size: u64,
    pub files_embedded_doc_count: u64,
    pub files_total_doc_count: u64,
    pub last_update: String,
    pub recent_tasks: Vec<MeiliTask>,
}

/// The indexer's running metrics.
pub struct SearchMetrics {
    pub chunks_indexed: u64,
    pub files_indexed: u64,
    pub queue_depth: u64,
    pub error_count: u64,
    pub last_activity_ms: u64,
    /// The initial scan has completed.
    pub scan_complete: bool,
    /// Indexed files per extension.
    pub extension_counts: Vec<(String, u64)>,
    pub tree_sitter_chunks: u64,
    pub fallback_chunks: u64,
    pub ocr_attempted: u64,
    pub ocr_succeeded: u64,
    pub ocr_failed: u64,
    pub ocr_cached: u64,
    pub ocr_enabled: bool,
    /// How often each file was indexed again.
    pub recompute_counts: Vec<(String, u64)>,
    /// When each file was last sent (ms since the epoch).
    pub last_sent_ms: Vec<(String, u64)>,
    /// The cached live statistics, once read.
    pub live_stats: Option<MeiliLiveStats>,
}

impl SearchMetrics {
    /// Each per-file and per-extension list names a key at most once (they are maps).
    pub open spec fn wf(&self) -> bool {
        &&& distinct_keys(count_views(self.extension_counts@))
        &&& distinct_keys(count_views(self.recompute_counts@))
        &&& distinct_keys(count_views(self.last_sent_ms@))
    }
}

/// The top entries of a list with distinct keys have distinct keys.
proof fn lemma_top_views_distinct(entries: Seq<(String, u64)>, n: int)
    requires
        distinct_keys(count_views(entries)),
        0 <= n,
    ensures
        distinct_keys(top_views(entries, n)),
{
    law_sorted_desc_keeps_keys(count_views(entries));
    law_sorted_desc(count_views(entries));
    lemma_distinct_keys_take(
        sorted_desc(count_views(entries)),
        if n < entries.len() {
            n
        } else {
            entries.len() as int
        },
    );
}

/// The search server process's resource use, as measured.
pub struct ProcessStats {
    pub memory_bytes: u64,
    /// Whether the process uses any CPU.
    pub cpu_busy: bool,
    /// CPU use printed with one decimal.
    pub cpu_text: String,
    pub cpu_load: CpuLoad,
}

/// Live statistics are read again: the server runs, and there are none cached, or they are
/// older than the fresh time as seen at `now_ms`.
pub open spec fn refresh_due(port: u16, fetched_at_ms: Option<u64>, now_ms: u64) -> bool {
    port != 0 && match fetched_at_ms {
        None => true,
        Some(t) => (if now_ms >= t {
            now_ms - t
        } else {
            0
        }) > LIVE_STATS_TTL_MS,
    }
}

/// Whether to read the live statistics again (`fetched_at_ms`: when the cached ones were
/// read; `None` when there are none or the metrics cannot be read).
pub fn live_stats_refresh_due(port: u16, fetched_at_ms: Option<u64>, now_ms: u64) -> (r: bool)
    ensures
        r == refresh_due(port, fetched_at_ms, now_ms),
{
    if port == 0 {
        return false;
    }
    match fetched_at_ms {
        None => true,
        Some(t) => now_ms.saturating_sub(t) > LIVE_STATS_TTL_MS,
    }
}

/// The first `n` entries by decreasing count, as plain values.
pub open spec fn top_views(entries: Seq<(String, u64)>, n: int) -> Seq<(Seq<char>, u64)> {
    sorted_desc(count_views(entries)).take(if n < entries.len() { n } else { entries.len() as int })
}

/// `t` is the display form of `u`.
pub open spec fn displays_task(u: MeiliTask, t: MeiliTaskInfo) -> bool {
    &&& t.uid == u.uid
    &&& t.task_type@ == short_task_type(u.task_type@)
    &&& t.status@ == u.status@
    &&& t.duration@ == humanized(u.duration@)
}

fn display_tasks(tasks: &Vec<MeiliTask>) -> (r: Vec<MeiliTaskInfo>)
    ensures
        r@.len() == tasks@.len(),
        forall|k: int| 0 <= k < tasks@.len() ==> displays_task(tasks@[k], #[trigger] r@[k]),
{
    let mut out: Vec<MeiliTaskInfo> = Vec::new();
    let mut i: usize = 0;
    while i < tasks.len()
        invariant
            i <= tasks@.len(),
            out@.len() == i,
            forall|k: int| 0 <= k < i ==> displays_task(tasks@[k], #[trigger] out@[k]),
        decreases tasks@.len() - i,
    {
        out.push(task_info(&tasks[i]));
        i = i + 1;
    }
    out
}

/// The overlay data: the metrics and server port as they stand, the top eight extensions,
/// recomputed files and recently sent files by decreasing count (ties in the given order),
/// the live statistics (all zero and empty before any were read) with their tasks in
/// display form, and the process's resource use. Top lists of metrics whose lists are maps
/// name each key once.
pub fn overlay_info(port: u16, m: &SearchMetrics, process: ProcessStats) -> (r: SearchOverlayInfo)
    ensures
        m.wf() ==> distinct_keys(count_views(r.top_extensions@)) && distinct_keys(count_views(r.top_recomputed@))
            && distinct_keys(count_views(r.recently_sent@)),
        r.port == port,
        r.chunks_indexed == m.chunks_indexed,
        r.files_indexed == m.files_indexed,
        r.queue_depth == m.queue_depth,
        r.error_count == m.error_count,
        r.last_activity_ms == m.last_activity_ms,
        r.index_ready == m.scan_complete,
        count_views(r.top_extensions@) == top_views(m.extension_counts@, 8),
        count_views(r.top_recomputed@) == top_views(m.recompute_counts@, 8),
        count_views(r.recently_sent@) == top_views(m.last_sent_ms@, 8),
        r.tree_sitter_chunks == m.tree_sitter_chunks,
        r.fallback_chunks == m.fallback_chunks,
        r.ocr_attempted == m.ocr_attempted,
        r.ocr_succeeded == m.ocr_succeeded,
        r.ocr_failed == m.ocr_failed,
        r.ocr_cached == m.ocr_cached,
        r.ocr_available == m.ocr_enabled,
        r.meili_memory_bytes == process.memory_bytes,
        r.meili_cpu_busy == process.cpu_busy,
        r.meili_cpu_text@ == process.cpu_text@,
        r.meili_cpu_load == process.cpu_load,
        match m.live_stats {
            Some(l) => {
                &&& r.database_size_bytes == l.database_size_bytes
                &&& r.used_database_size_bytes == l.used_database_size_bytes
                &&& r.files_embedding_count == l.files_embedding_count
                &&& r.files_is_indexing == l.files_is_indexing
                &&& r.logs_doc_count == l.logs_doc_count
                &&& r.embedding_model@ == l.embedding_model@
                &&& r.meili_version@ == l.version@
                &&& r.avg_document_size == l.avg_document_size
                &&& r.raw_document_db_size == l.raw_document_db_size
                &&& r.files_embedded_doc_count == l.files_embedded_doc_count
                &&& r.files_total_doc_count == l.files_total_doc_count
                &&& r.last_update@ == l.last_update@
                &&& r.recent_tasks@.len() == l.recent_tasks@.len()
                &&& forall|k: int|
                    0 <= k < l.recent_tasks@.len() ==> displays_task(l.recent_tasks@[k], #[trigger] r.recent_tasks@[k])
            },
            None => {
                &&& r.database_size_bytes == 0
                &&& r.used_database_size_bytes == 0
                &&& r.files_embedding_count == 0
                &&& !r.files_is_indexing
                &&& r.logs_doc_count == 0
                &&& r.embedding_model@ == Seq::<char>::empty()
                &&& r.meili_version@ == Seq::<char>::empty()
                &&& r.avg_document_size == 0
                &&& r.raw_document_db_size == 0
                &&& r.files_embedded_doc_count == 0
                &&& r.files_total_doc_count == 0
                &&& r.last_update@ == Seq::<char>::empty()
                &&& r.recent_tasks@.len() == 0
            },
        },
{
    let top_extensions = top_entries(&m.extension_counts, TOP_ENTRIES);
    let top_recomputed = top_entries(&m.recompute_counts, TOP_ENTRIES);
    let recently_sent = top_entries(&m.last_sent_ms, TOP_ENTRIES);
    proof {
        if m.wf() {
            lemma_top_views_distinct(m.extension_counts@, 8);
            lemma_top_views_distinct(m.recompute_counts@, 8);
            lemma_top_views_distinct(m.last_sent_ms@, 8);
        }
    }
    match &m.live_stats {
        Some(l) => SearchOverlayInfo {
            port,
            chunks_indexed: m.chunks_indexed,
            files_indexed: m.files_indexed,
            queue_depth: m.queue_depth,
            error_count: m.error_count,
            last_activity_ms: m.last_activity_ms,
            index_ready: m.scan_complete,
            top_extensions,
            tree_sitter_chunks: m.tree_sitter_chunks,
            fallback_chunks: m.fallback_chunks,
            ocr_attempted: m.ocr_attempted,
            ocr_succeeded: m.ocr_succeeded,
            ocr_failed: m.ocr_failed,
            ocr_cached: m.ocr_cached,
            ocr_available: m.ocr_enabled,
            meili_memory_bytes: process.memory_bytes,
            meili_cpu_busy: process.cpu_busy,
            meili_cpu_text: process.cpu_text,
            meili_cpu_load: process.cpu_load,
            database_size_bytes: l.database_size_bytes,
            used_database_size_bytes: l.used_database_size_bytes,
            files_embedding_count: l.files_embedding_count,
            files_is_indexing: l.files_is_indexing,
            logs_doc_count: l.logs_doc_count,
            embedding_model: l.embedding_model.clone(),
            meili_version: l.version.clone(),
            avg_document_size: l.avg_document_size,
            raw_document_db_size: l.raw_document_db_size,
            files_embedded_doc_count: l.files_embedded_doc_count,
            files_total_doc_count: l.files_total_doc_count,
            recent_tasks: display_tasks(&l.recent_tasks),
            top_recomputed,
            recently_sent,
            last_update: l.last_update.clone(),
        },
        None => SearchOverlayInfo {
            port,
            chunks_indexed: m.chunks_indexed,
            files_indexed: m.files_indexed,
            queue_depth: m.queue_depth,
            error_count: m.error_count,
            last_activity_ms: m.last_activity_ms,
            index_ready: m.scan_complete,
            top_extensions,
            tree_sitter_chunks: m.tree_sitter_chunks,
            fallback_chunks: m.fallback_chunks,
            ocr_attempted: m.ocr_attempted,
            ocr_succeeded: m.ocr_succeeded,
            ocr_failed: m.ocr_failed,
            ocr_cached: m.ocr_cached,
            ocr_available: m.ocr_enabled,
            meili_memory_bytes: process.memory_bytes,
            meili_cpu_busy: process.cpu_busy,
            meili_cpu_text: process.cpu_text,
            meili_cpu_load: process.cpu_load,
            database_size_bytes: 0,
            used_database_size_bytes: 0,
            files_embedding_count: 0,
            files_is_indexing: false,
            logs_doc_count: 0,
            embedding_model: String::new(),
            meili_version: String::new(),
            avg_document_size: 0,
            raw_document_db_size: 0,
            files_embedded_doc_count: 0,
            files_total_doc_count: 0,
            recent_tasks: Vec::new(),
            top_recomputed,
            recently_sent,
            last_update: String::new(),
        },
    }
}

} // verus!
