use context_pilot::indexer::{
    chunk_documents, command_for_event, commands_for_event, delete_file_plan, index_file_plan, scan_action, Chunk,
    FsEventKind, IndexAction, ScanAction,
};
use context_pilot::search::{
    bootstrap_ocr, file_ext_counts, files_estimate, files_index_uid, hash_project_path, hex_encode_4_bytes,
    initial_index_metrics, logs_index_uid, ocr_indexed_count, split_chunk_types, OcrMetrics, SearchModule,
};
use context_pilot::search_config::{
    deduplicate, ends_with_str, file_path_filter, files_embedder_settings, files_index_settings, is_allowed_extension,
    is_excluded_dir, is_excluded_file, logs_embedder_settings, logs_index_settings, needs_embedder, path_eligible,
    size_eligible, IndexerCmd, EMBEDDER_MODEL, MAX_FILE_SIZE, file_route, is_binary, log_documents, FileRoute,
    LogEntry,
};

fn cmd_parts(c: &IndexerCmd) -> (bool, String) {
    match c {
        IndexerCmd::IndexFile(p) => (true, p.clone()),
        IndexerCmd::DeleteFile(p) => (false, p.clone()),
    }
}

#[test]
fn project_hashes() {
    assert_eq!(hash_project_path(""), "e3b0c442");
    assert_eq!(hash_project_path("abc"), "ba7816bf");
    assert_eq!(hash_project_path("/home/u/project").len(), 8);
    assert_eq!(hex_encode_4_bytes(&[0xde, 0xad, 0xbe, 0xef, 0x01]), "deadbeef");
    assert_eq!(hex_encode_4_bytes(&[0x0a]), "0a");
}

#[test]
fn index_uids() {
    assert_eq!(files_index_uid("1234abcd"), "cp_1234abcd_files");
    assert_eq!(logs_index_uid("1234abcd"), "cp_1234abcd_logs");
}

#[test]
fn search_module_identity() {
    let m = SearchModule;
    assert_eq!(m.id(), "search");
    let p = m.initial_persist("");
    assert_eq!(p.port, 0);
    assert!(p.master_key.is_empty());
    assert_eq!(p.project_hash, "e3b0c442");
    assert!(!p.index_ready);
}

#[test]
fn file_estimates() {
    assert_eq!(files_estimate(0), 0);
    assert_eq!(files_estimate(2), 1);
    assert_eq!(files_estimate(30), 10);
}

#[test]
fn chunk_type_split() {
    let types = vec![("function".to_string(), 10), ("raw".to_string(), 4), ("struct".to_string(), 6)];
    assert_eq!(split_chunk_types(&types), (16, 4));
    let huge = vec![("a".to_string(), u64::MAX), ("b".to_string(), 5)];
    assert_eq!(split_chunk_types(&huge), (u64::MAX, 0));
}

#[test]
fn extension_file_counts() {
    let ext = vec![("rs".to_string(), 90), ("md".to_string(), 10), ("none".to_string(), 0)];
    assert_eq!(
        file_ext_counts(&ext, 10),
        vec![("rs".to_string(), 9), ("md".to_string(), 1), ("none".to_string(), 0)]
    );
    let tiny = vec![("rs".to_string(), 1), ("md".to_string(), 999)];
    assert_eq!(file_ext_counts(&tiny, 10), vec![("rs".to_string(), 1), ("md".to_string(), 9)]);
    assert_eq!(file_ext_counts(&ext, 0), ext);
}

#[test]
fn initial_metrics() {
    let ext = vec![("rs".to_string(), 30)];
    let types = vec![("raw".to_string(), 5), ("fn".to_string(), 25)];
    let m = initial_index_metrics(Some(30), Some(7), &ext, &types);
    assert_eq!(m.chunks, 37);
    assert_eq!(m.files, 10);
    assert_eq!(m.extension_counts, vec![("rs".to_string(), 10)]);
    assert_eq!(m.tree_sitter_chunks, 25);
    assert_eq!(m.fallback_chunks, 5);
    let none = initial_index_metrics(None, Some(7), &Vec::new(), &Vec::new());
    assert_eq!(none.chunks, 7);
    assert_eq!(none.files, 0);
}

#[test]
fn ocr_bootstrap() {
    let mut m = OcrMetrics { attempted: 0, succeeded: 0, cached: 0, enabled: false };
    bootstrap_ocr(&mut m, 3, 5);
    assert_eq!((m.attempted, m.succeeded, m.cached, m.enabled), (5, 5, 3, true));
    let mut kept = OcrMetrics { attempted: 2, succeeded: 1, cached: 0, enabled: false };
    bootstrap_ocr(&mut kept, 3, 5);
    assert_eq!((kept.attempted, kept.succeeded, kept.cached, kept.enabled), (2, 1, 0, false));
    let mut nothing = OcrMetrics { attempted: 0, succeeded: 0, cached: 0, enabled: false };
    bootstrap_ocr(&mut nothing, 0, 0);
    assert!(!nothing.enabled);
}

#[test]
fn extension_allowlist() {
    assert!(is_allowed_extension("rs"));
    assert!(is_allowed_extension("dockerfile"));
    assert!(!is_allowed_extension("exe"));
    assert!(!is_allowed_extension("RS"));
    assert!(!is_allowed_extension(""));
}

#[test]
fn exclusions() {
    assert!(is_excluded_dir("node_modules"));
    assert!(is_excluded_dir(".context-pilot"));
    assert!(!is_excluded_dir("src"));
    assert!(is_excluded_file("app.min.js"));
    assert!(is_excluded_file("Cargo.lock"));
    assert!(!is_excluded_file("main.rs"));
    assert!(ends_with_str("go.sum", ".sum"));
    assert!(!ends_with_str("s", ".sum"));
}

#[test]
fn path_and_size_eligibility() {
    let comps = vec!["src".to_string(), "main.rs".to_string()];
    assert!(path_eligible(&comps, "rs", "main.rs"));
    let vendored = vec!["vendor".to_string(), "x.rs".to_string()];
    assert!(!path_eligible(&vendored, "rs", "x.rs"));
    assert!(!path_eligible(&comps, "exe", "main.exe"));
    assert!(!path_eligible(&vec!["a.min.js".to_string()], "js", "a.min.js"));
    assert!(size_eligible(MAX_FILE_SIZE));
    assert!(!size_eligible(MAX_FILE_SIZE + 1));
}

#[test]
fn filters_escape_quotes() {
    assert_eq!(file_path_filter("src/main.rs"), "file_path = 'src/main.rs'");
    assert_eq!(file_path_filter("it's.md"), "file_path = 'it\\'s.md'");
}

#[test]
fn dedup_keeps_latest_per_path() {
    let batch = vec![
        IndexerCmd::IndexFile("a".to_string()),
        IndexerCmd::IndexFile("b".to_string()),
        IndexerCmd::DeleteFile("a".to_string()),
        IndexerCmd::IndexFile("b".to_string()),
    ];
    let mut got: Vec<(bool, String)> = deduplicate(batch).iter().map(cmd_parts).collect();
    got.sort();
    assert_eq!(got, vec![(false, "a".to_string()), (true, "b".to_string())]);
    assert!(deduplicate(Vec::new()).is_empty());
}

#[test]
fn events_become_commands() {
    assert_eq!(
        cmd_parts(&command_for_event(FsEventKind::Create, "x".to_string()).unwrap()),
        (true, "x".to_string())
    );
    assert_eq!(
        cmd_parts(&command_for_event(FsEventKind::Modify, "x".to_string()).unwrap()),
        (true, "x".to_string())
    );
    assert_eq!(
        cmd_parts(&command_for_event(FsEventKind::Remove, "x".to_string()).unwrap()),
        (false, "x".to_string())
    );
    assert!(command_for_event(FsEventKind::Other, "x".to_string()).is_none());
    let cmds = commands_for_event(FsEventKind::Remove, vec!["a".to_string(), "b".to_string()]);
    let got: Vec<(bool, String)> = cmds.iter().map(cmd_parts).collect();
    assert_eq!(got, vec![(false, "a".to_string()), (false, "b".to_string())]);
    assert!(commands_for_event(FsEventKind::Other, vec!["a".to_string()]).is_empty());
}

#[test]
fn scan_decisions() {
    assert_eq!(scan_action(true, true, false, "src"), ScanAction::Skip);
    assert_eq!(scan_action(false, true, false, "src"), ScanAction::Descend);
    assert_eq!(scan_action(false, true, false, "target"), ScanAction::Skip);
    assert_eq!(scan_action(false, false, true, "a.rs"), ScanAction::Queue);
    assert_eq!(scan_action(false, false, false, "fifo"), ScanAction::Skip);
}

#[test]
fn chunk_docs() {
    let chunks = vec![
        Chunk {
            content: "fn a() {}".to_string(),
            kind: "function".to_string(),
            name: "a".to_string(),
            line_start: 1,
            line_end: 1,
            char_start: 0,
            char_end: 9,
        },
        Chunk {
            content: "rest".to_string(),
            kind: "raw".to_string(),
            name: String::new(),
            line_start: 2,
            line_end: 3,
            char_start: 10,
            char_end: 14,
        },
    ];
    let docs = chunk_documents("src/a.rs", "rs", &chunks, 77);
    assert_eq!(docs.len(), 2);
    assert_eq!(docs[0].id, "src/a.rs:0");
    assert_eq!(docs[1].id, "src/a.rs:1");
    assert_eq!(docs[1].file_path, "src/a.rs");
    assert_eq!(docs[1].extension, "rs");
    assert_eq!(docs[1].chunk_type, "raw");
    assert_eq!(docs[0].chunk_name, "a");
    assert_eq!((docs[1].line_start, docs[1].line_end, docs[1].char_start, docs[1].char_end), (2, 3, 10, 14));
    assert_eq!(docs[0].last_modified_ms, 77);
}

#[test]
fn index_and_embedder_settings() {
    let f = files_index_settings();
    assert_eq!(f.searchable, vec!["content", "chunk_name", "file_path"]);
    assert_eq!(f.filterable, vec!["file_path", "extension", "chunk_type", "last_modified_ms"]);
    assert_eq!(f.sortable, vec!["last_modified_ms"]);
    assert_eq!(f.typo_tolerance, Some((4, 8)));
    let l = logs_index_settings();
    assert_eq!(l.searchable, vec!["content", "datetime", "tags"]);
    assert_eq!(l.filterable, vec!["timestamp_ms", "importance", "tags"]);
    assert_eq!(l.sortable, vec!["timestamp_ms"]);
    assert_eq!(l.typo_tolerance, None);
    assert_eq!(files_embedder_settings().document_template_max_bytes, Some(1024));
    assert_eq!(logs_embedder_settings().document_template, "[{{doc.importance}}] {{doc.content}}");
    assert_eq!(files_embedder_settings().model, EMBEDDER_MODEL);
    assert!(needs_embedder(None));
    assert!(needs_embedder(Some(false)));
    assert!(!needs_embedder(Some(true)));
}

#[test]
fn search_module_registration() {
    let m = SearchModule;
    assert_eq!(m.name(), "Search");
    assert_eq!(m.dependencies(), vec!["core"]);
    assert!(!m.is_global());
    assert!(!m.is_core());
    assert!(m.watcher_immediate_refresh());
    assert_eq!(m.dynamic_panel_types(), vec!["search_result"]);
    assert_eq!(m.tool_category_descriptions(), vec![("Search", "Full-text search via Meilisearch")]);
    let meta = m.context_type_metadata();
    assert_eq!(meta.len(), 1);
    assert_eq!(meta[0].context_type, "search_result");
    assert!(!meta[0].is_fixed);
}

fn parts(p: &str) -> Vec<String> {
    p.split('/').map(String::from).collect()
}

#[test]
fn log_chunk_files_go_to_the_logs_index() {
    assert_eq!(file_route(&parts(".context-pilot/logs/chunk_3.json"), "json", "chunk_3.json"), FileRoute::LogChunk);
    assert_eq!(file_route(&parts(".context-pilot/state.json"), "json", "state.json"), FileRoute::Skip);
    assert_eq!(file_route(&parts(".context-pilot/logs/notes.md"), "md", "notes.md"), FileRoute::Skip);
    assert_eq!(file_route(&parts("src/main.rs"), "rs", "main.rs"), FileRoute::Project);
    assert_eq!(file_route(&parts("node_modules/x.js"), "js", "x.js"), FileRoute::Skip);
    let entries = vec![LogEntry {
        id: "L42".to_string(),
        content: "Decided to use tree-sitter for chunking".to_string(),
        timestamp_ms: 1746537600000,
        datetime: "2026-05-06T12:00:00+00:00".to_string(),
        importance: "high".to_string(),
        tags: vec!["decision".to_string(), "architecture".to_string()],
    }];
    let docs = log_documents(&entries);
    assert_eq!(docs.len(), 1);
    assert_eq!(docs[0].id, "L42");
    assert_eq!(docs[0].datetime, "2026-05-06T12:00:00+00:00");
    assert_eq!(docs[0].tags, vec!["decision".to_string(), "architecture".to_string()]);
}

#[test]
fn binary_detection_reads_the_first_8_kb() {
    assert!(!is_binary(b"fn main() {}"));
    assert!(is_binary(b"ab\0cd"));
    let mut late = vec![b'a'; 8192];
    late.push(0);
    assert!(!is_binary(&late));
    late[8191] = 0;
    assert!(is_binary(&late));
    assert!(!is_binary(b""));
}

fn chunk(content: &str) -> Chunk {
    Chunk {
        content: content.to_string(),
        kind: "function".to_string(),
        name: "f".to_string(),
        line_start: 1,
        line_end: 2,
        char_start: 0,
        char_end: content.len(),
    }
}

#[test]
fn reindexing_deletes_old_chunks_then_adds_new_ones() {
    let chunks = vec![chunk("fn a() {}"), chunk("fn b() {}")];
    let plan = index_file_plan(FileRoute::Project, true, true, "src/it's.rs", "rs", &chunks, 9);
    assert_eq!(plan.len(), 2);
    match &plan[0] {
        IndexAction::DeleteByFilter { filter } => assert_eq!(filter, "file_path = 'src/it\\'s.rs'"),
        IndexAction::AddDocs { .. } => panic!("expected the delete first"),
    }
    match &plan[1] {
        IndexAction::AddDocs { docs } => {
            assert_eq!(docs.len(), 2);
            assert_eq!(docs[1].id, "src/it's.rs:1");
            assert_eq!(docs[0].content, "fn a() {}");
        }
        IndexAction::DeleteByFilter { .. } => panic!("expected the documents"),
    }
    let no_chunks = index_file_plan(FileRoute::Project, true, true, "a.rs", "rs", &Vec::new(), 0);
    assert_eq!(no_chunks.len(), 1);
    assert!(index_file_plan(FileRoute::Skip, true, true, "a.rs", "rs", &chunks, 0).is_empty());
    assert!(index_file_plan(FileRoute::Project, false, true, "a.rs", "rs", &chunks, 0).is_empty());
    assert!(index_file_plan(FileRoute::Project, true, false, "a.rs", "rs", &chunks, 0).is_empty());
    match &delete_file_plan("b.md")[0] {
        IndexAction::DeleteByFilter { filter } => assert_eq!(filter, "file_path = 'b.md'"),
        IndexAction::AddDocs { .. } => panic!("expected a delete"),
    }
}

#[test]
fn ocr_chunks_are_counted_by_extension() {
    let ext = vec![("pdf".to_string(), 4), ("rs".to_string(), 10), ("png".to_string(), 2)];
    let ocr = vec!["pdf".to_string(), "png".to_string(), "jpg".to_string()];
    assert_eq!(ocr_indexed_count(&ext, &ocr), 6);
    assert_eq!(ocr_indexed_count(&ext, &Vec::new()), 0);
}
