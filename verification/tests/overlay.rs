use context_pilot::overlay::{
    build_overlay_text, format_ago, format_bytes, humanize_duration, shorten_task_type, task_info, top_entries,
    truncate_path, CpuLoad, MeiliTask, MeiliTaskInfo, SearchOverlayInfo,
};
use context_pilot::overlay_columns::{
    build_left_column, build_overlay_columns, build_right_column, centered_rect, cpu_tone, overlay_frame,
    repeat_char, section_header, task_status_tone, Area, Piece, Tone,
};
use context_pilot::overlay_data::{live_stats_refresh_due, overlay_info, MeiliLiveStats, ProcessStats, SearchMetrics};

const NOW: u64 = 1_000_000;

fn sample_info() -> SearchOverlayInfo {
    SearchOverlayInfo {
        port: 7700,
        chunks_indexed: 480,
        files_indexed: 120,
        queue_depth: 3,
        error_count: 1,
        last_activity_ms: NOW - 90_000,
        index_ready: true,
        top_extensions: vec![("rs".to_string(), 90), ("md".to_string(), 10)],
        tree_sitter_chunks: 300,
        fallback_chunks: 100,
        ocr_attempted: 0,
        ocr_succeeded: 0,
        ocr_failed: 0,
        ocr_cached: 0,
        ocr_available: false,
        meili_memory_bytes: 215 * 1024 * 1024,
        meili_cpu_busy: true,
        meili_cpu_text: "12.5".to_string(),
        meili_cpu_load: CpuLoad::Low,
        database_size_bytes: 2 * 1024 * 1024 * 1024,
        used_database_size_bytes: 1024 * 1024 * 1024,
        files_embedding_count: 480,
        files_is_indexing: false,
        logs_doc_count: 0,
        embedding_model: "bge".to_string(),
        meili_version: "1.10.0".to_string(),
        avg_document_size: 2048,
        raw_document_db_size: 5 * 1024 * 1024,
        files_embedded_doc_count: 240,
        files_total_doc_count: 480,
        recent_tasks: vec![MeiliTaskInfo {
            uid: 12,
            task_type: "docAdd".to_string(),
            status: "succeeded".to_string(),
            duration: "0.25s".to_string(),
        }],
        top_recomputed: vec![("src/main.rs".to_string(), 3)],
        recently_sent: vec![("a.md".to_string(), NOW - 5000)],
        last_update: String::new(),
    }
}

fn texts(line: &[Piece]) -> Vec<(String, Tone)> {
    line.iter().map(|p| (p.text.clone(), p.tone)).collect()
}

#[test]
fn ago_formats() {
    assert_eq!(format_ago(10_000, 5_000), "5s ago");
    assert_eq!(format_ago(200_000, 20_000), "3m ago");
    assert_eq!(format_ago(10_000_000, 0), "2h ago");
    assert_eq!(format_ago(5_000, 9_000), "0s ago");
}

#[test]
fn byte_formats() {
    assert_eq!(format_bytes(512), "512 B");
    assert_eq!(format_bytes(2048), "2 KB");
    assert_eq!(format_bytes(215 * 1024 * 1024), "215 MB");
    assert_eq!(format_bytes(3 * 1024 * 1024 * 1024 / 2), "1.5 GB");
}

#[test]
fn path_truncation() {
    assert_eq!(truncate_path("src/main.rs", 46), "src/main.rs");
    assert_eq!(truncate_path("abcdefghij", 5), "…ghij");
    assert_eq!(truncate_path("abcdé", 3), "…dé");
    assert_eq!(truncate_path("aébc", 3), "…bc");
    assert_eq!(truncate_path("aé", 2), "aé");
    assert_eq!(truncate_path("ééééé", 5), "ééééé");
    assert_eq!(truncate_path("éééééé", 5), "…éééé");
    assert_eq!(truncate_path("src/app/main.rs", 8), "…main.rs");
    assert_eq!(truncate_path("abc", 0), "…");
}

#[test]
fn task_type_names() {
    assert_eq!(shorten_task_type("documentAdditionOrUpdate"), "docAdd");
    assert_eq!(shorten_task_type("settingsUpdate"), "settings");
    assert_eq!(shorten_task_type("snapshotCreation"), "snapshot");
    assert_eq!(shorten_task_type("somethingNew"), "somethingNew");
}

#[test]
fn durations() {
    assert_eq!(humanize_duration("PT0.254092S"), "0.25s");
    assert_eq!(humanize_duration("PT12S"), "12s");
    assert_eq!(humanize_duration("PT1.5S"), "1.5s");
    assert_eq!(humanize_duration(""), "\u{2014}");
}

#[test]
fn task_display_form() {
    let t = MeiliTask {
        uid: 7,
        task_type: "documentDeletion".to_string(),
        status: "failed".to_string(),
        duration: "PT1.23456S".to_string(),
    };
    let i = task_info(&t);
    assert_eq!(i.uid, 7);
    assert_eq!(i.task_type, "docDel");
    assert_eq!(i.status, "failed");
    assert_eq!(i.duration, "1.23s");
}

#[test]
fn top_entries_sorted_and_cut() {
    let v = vec![
        ("a".to_string(), 1),
        ("b".to_string(), 5),
        ("c".to_string(), 3),
        ("d".to_string(), 5),
    ];
    let top = top_entries(&v, 3);
    assert_eq!(top, vec![("b".to_string(), 5), ("d".to_string(), 5), ("c".to_string(), 3)]);
    let all = top_entries(&v, 10);
    assert_eq!(all.len(), 4);
    let mut sorted_in = v.clone();
    sorted_in.sort();
    let mut sorted_out = all.clone();
    sorted_out.sort();
    assert_eq!(sorted_in, sorted_out);
    for w in all.windows(2) {
        assert!(w[0].1 >= w[1].1);
    }
}

#[test]
fn overlay_text_without_data() {
    assert_eq!(build_overlay_text(&None, NOW), "Search module not initialized.\n");
}

#[test]
fn overlay_text_with_data() {
    let expected = "Indexing Status\n\nServer  http://127.0.0.1:7700  online  v1.10.0\n\n\
Process CPU 12.5%    RAM 215 MB\n\n\
── Database ──\nDisk  1.0 GB / 2.0 GB    Docs  5 MB\nAvg chunk  2 KB\n\n\
Files  120    Chunks  480\nQueue  3 pending    Errors  1\nStatus Ready    Last  1m ago\n\
\n── Extensions ──\n  rs       90  90%\n  md       10  10%\n\
\n── Splitter ──\nTree-sitter  300 chunks (75%)\nFallback     100 chunks (25%)\n\
\n── Embeddings ──\nModel   bge\nVectors 480  ready\nCoverage 240/480  (50%)\n\
\n── Recent Tasks ──\n  #12     docAdd     succeeded  0.25s\n\
\n── Top Recomputed ──\n     3×  src/main.rs\n\
\n── Recently Sent ──\n    5s ago  a.md\n";
    assert_eq!(build_overlay_text(&Some(sample_info()), NOW), expected);
}

#[test]
fn overlay_text_offline_and_ocr() {
    let mut info = sample_info();
    info.port = 0;
    info.meili_version = String::new();
    info.meili_memory_bytes = 0;
    info.meili_cpu_busy = false;
    info.database_size_bytes = 0;
    info.top_extensions = Vec::new();
    info.tree_sitter_chunks = 0;
    info.fallback_chunks = 0;
    info.embedding_model = String::new();
    info.files_embedding_count = 0;
    info.ocr_available = true;
    info.recent_tasks = Vec::new();
    info.top_recomputed = Vec::new();
    info.recently_sent = Vec::new();
    info.index_ready = false;
    info.last_activity_ms = 0;
    let expected = "Indexing Status\n\nServer  http://127.0.0.1:0  offline\n\n\
Files  120    Chunks  480\nQueue  3 pending    Errors  1\nStatus Scanning    Last  never\n\
\n── OCR Pipeline ──\nEnabled — no OCR files found yet\n";
    assert_eq!(build_overlay_text(&Some(info), NOW), expected);
}

#[test]
fn section_header_fills_to_48_columns() {
    let h = section_header("Splitter");
    assert_eq!(h.len(), 2);
    assert_eq!(h[0].text, "  ── Splitter ");
    assert_eq!(h[0].tone, Tone::Accent);
    assert_eq!(h[1].text, "─".repeat(36));
    assert_eq!(h[1].tone, Tone::Muted);
    let long = section_header("A title that is much longer than forty-eight columns");
    assert_eq!(long[1].text, "");
    assert_eq!(repeat_char('x', 3), "xxx");
}

#[test]
fn right_column_lines() {
    let col = build_right_column(&sample_info(), NOW);
    assert_eq!(texts(&col[0]), vec![(String::new(), Tone::Plain)]);
    assert_eq!(
        texts(&col[2]),
        vec![
            ("  Tree-sitter  ".to_string(), Tone::Plain),
            ("300 chunks".to_string(), Tone::Success),
            ("  (75%)".to_string(), Tone::Muted),
        ]
    );
    assert_eq!(
        texts(&col[7]),
        vec![("  Vectors  480  ".to_string(), Tone::Plain), ("✓ ready".to_string(), Tone::Success)]
    );
    assert_eq!(
        texts(&col[8]),
        vec![
            ("  Coverage ".to_string(), Tone::Plain),
            ("240/480".to_string(), Tone::Warning),
            ("  (50%)".to_string(), Tone::Muted),
        ]
    );
    assert_eq!(
        texts(&col[11]),
        vec![
            ("  #12    ".to_string(), Tone::Muted),
            ("docAdd     ".to_string(), Tone::Plain),
            ("succeeded  ".to_string(), Tone::Success),
            ("0.25s".to_string(), Tone::Muted),
        ]
    );
    assert_eq!(
        texts(&col[14]),
        vec![("     3×  ".to_string(), Tone::Warning), ("src/main.rs".to_string(), Tone::Text)]
    );
    assert_eq!(texts(&col[17]), vec![("    5s ago  ".to_string(), Tone::Muted), ("a.md".to_string(), Tone::Text)]);
    assert_eq!(col.len(), 18);
}

#[test]
fn left_column_lines() {
    let col = build_left_column(&sample_info(), NOW);
    assert_eq!(
        texts(&col[1]),
        vec![
            ("  Server  ".to_string(), Tone::Plain),
            ("http://127.0.0.1:7700".to_string(), Tone::Text),
            ("  ".to_string(), Tone::Plain),
            ("● online".to_string(), Tone::Success),
            ("  v1.10.0".to_string(), Tone::Muted),
        ]
    );
    assert_eq!(
        texts(&col[2]),
        vec![
            ("  Process ".to_string(), Tone::Plain),
            ("CPU 12.5%".to_string(), Tone::Success),
            ("    ".to_string(), Tone::Plain),
            ("RAM 215 MB".to_string(), Tone::Text),
        ]
    );
    assert_eq!(texts(&col[9]), vec![(format!("  Files  {:<10} Chunks  {}", 120, 480), Tone::Plain)]);
    assert_eq!(texts(&col[10]), vec![(format!("  Queue  {:<10} Errors  {}", "3 pending", 1), Tone::Plain)]);
    assert_eq!(texts(&col[11]), vec![(format!("  Status {:<10} Last    {}", "Ready", "1m ago"), Tone::Plain)]);
    assert_eq!(
        texts(&col[14]),
        vec![
            ("  rs       90  ".to_string(), Tone::Plain),
            ("█".repeat(28), Tone::Accent),
            ("  90%".to_string(), Tone::Muted),
        ]
    );
    assert_eq!(texts(&col[15])[1], ("█".repeat(3), Tone::Accent));
    assert_eq!(col.len(), 16);
}

#[test]
fn columns_without_data() {
    let (left, right) = build_overlay_columns(&None, NOW);
    assert_eq!(left.len(), 2);
    assert_eq!(texts(&left[1]), vec![("  Search module not initialized.".to_string(), Tone::Plain)]);
    assert!(right.is_empty());
}

#[test]
fn tones() {
    assert_eq!(task_status_tone("succeeded"), Tone::Success);
    assert_eq!(task_status_tone("failed"), Tone::Error);
    assert_eq!(task_status_tone("processing"), Tone::Warning);
    assert_eq!(task_status_tone("enqueued"), Tone::Muted);
    assert_eq!(cpu_tone(CpuLoad::Medium), Tone::Warning);
    assert_eq!(cpu_tone(CpuLoad::High), Tone::Error);
}

#[test]
fn centered_rectangles() {
    let area = Area { x: 10, y: 5, width: 200, height: 50 };
    assert_eq!(centered_rect(120, 30, area), Area { x: 50, y: 15, width: 120, height: 30 });
    assert_eq!(centered_rect(300, 80, area), area);
    assert_eq!(centered_rect(121, 31, area), Area { x: 49, y: 14, width: 121, height: 31 });
}

#[test]
fn overlay_frame_size_and_title() {
    let area = Area { x: 0, y: 0, width: 100, height: 40 };
    let f = overlay_frame(10, 20, area, 0, NOW);
    assert_eq!(f.popup, Area { x: 0, y: 9, width: 100, height: 22 });
    assert_eq!(f.title, " Indexing Status ");
    assert_eq!(f.footer, " Ctrl+C copy · Ctrl+I or Esc to dismiss ");
    let f = overlay_frame(100, 2, area, NOW - 1000, NOW);
    assert_eq!(f.popup.height, 40);
    assert_eq!(f.title, " ✓ Copied! ");
    let f = overlay_frame(1, 1, area, NOW - 1500, NOW);
    assert_eq!(f.title, " Indexing Status ");
}

#[test]
fn live_stats_refresh() {
    assert!(!live_stats_refresh_due(0, None, NOW));
    assert!(live_stats_refresh_due(7700, None, NOW));
    assert!(!live_stats_refresh_due(7700, Some(NOW - 2000), NOW));
    assert!(live_stats_refresh_due(7700, Some(NOW - 2001), NOW));
    assert!(!live_stats_refresh_due(7700, Some(NOW + 5), NOW));
}

fn metrics(live: Option<MeiliLiveStats>) -> SearchMetrics {
    SearchMetrics {
        chunks_indexed: 10,
        files_indexed: 4,
        queue_depth: 0,
        error_count: 0,
        last_activity_ms: 5,
        scan_complete: true,
        extension_counts: (0..10).map(|i| (format!("e{i}"), i)).collect(),
        tree_sitter_chunks: 7,
        fallback_chunks: 3,
        ocr_attempted: 1,
        ocr_succeeded: 1,
        ocr_failed: 0,
        ocr_cached: 1,
        ocr_enabled: true,
        recompute_counts: vec![("x".to_string(), 2)],
        last_sent_ms: vec![("old".to_string(), 1), ("new".to_string(), 9)],
        live_stats: live,
    }
}

fn process() -> ProcessStats {
    ProcessStats { memory_bytes: 1, cpu_busy: false, cpu_text: "0.0".to_string(), cpu_load: CpuLoad::Low }
}

#[test]
fn overlay_data_without_live_stats() {
    let info = overlay_info(7700, &metrics(None), process());
    assert_eq!(info.port, 7700);
    assert_eq!(info.top_extensions.len(), 8);
    assert_eq!(info.top_extensions[0], ("e9".to_string(), 9));
    assert_eq!(info.top_extensions[7], ("e2".to_string(), 2));
    assert_eq!(info.recently_sent, vec![("new".to_string(), 9), ("old".to_string(), 1)]);
    assert_eq!(info.database_size_bytes, 0);
    assert!(info.embedding_model.is_empty());
    assert!(info.recent_tasks.is_empty());
    assert!(info.index_ready);
}

#[test]
fn overlay_data_with_live_stats() {
    let live = MeiliLiveStats {
        database_size_bytes: 100,
        used_database_size_bytes: 50,
        files_embedding_count: 9,
        files_is_indexing: true,
        logs_doc_count: 2,
        embedding_model: "bge".to_string(),
        fetched_at_ms: 1,
        version: "1.0".to_string(),
        avg_document_size: 3,
        raw_document_db_size: 4,
        files_embedded_doc_count: 5,
        files_total_doc_count: 6,
        last_update: "today".to_string(),
        recent_tasks: vec![MeiliTask {
            uid: 1,
            task_type: "indexCreation".to_string(),
            status: "succeeded".to_string(),
            duration: "PT0.5S".to_string(),
        }],
    };
    let info = overlay_info(1, &metrics(Some(live)), process());
    assert_eq!(info.database_size_bytes, 100);
    assert_eq!(info.meili_version, "1.0");
    assert_eq!(info.last_update, "today");
    assert_eq!(info.recent_tasks.len(), 1);
    assert_eq!(info.recent_tasks[0].task_type, "create");
    assert_eq!(info.recent_tasks[0].duration, "0.5s");
}

#[test]
fn overlay_top_lists_name_each_key_once() {
    let info = overlay_info(7700, &metrics(None), process());
    let mut keys: Vec<&String> = info.top_extensions.iter().map(|(k, _)| k).collect();
    keys.sort();
    keys.dedup();
    assert_eq!(keys.len(), info.top_extensions.len());
}
