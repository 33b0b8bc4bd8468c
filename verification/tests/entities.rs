use context_pilot::context::ContextEntry;
use context_pilot::entities::{
    build_context_text, entity_paths, find_of_type, recovery_action, sum_rows, DbObservation, EntitiesModule,
    EntitiesPanel, EntitiesState, RecoveryAction,
};
use context_pilot::migrations::{migration_id_of, pending_migrations};
use context_pilot::entity_blocks::{
    create_result_panel, empty_state_blocks, populated_blocks, restore_request, result_blocks, result_title, StyledText, TextStyle,
};
use context_pilot::entity_sql::{
    affected_text, check_sql_present, ddl_text, dml_action, dml_after_execute, dml_start, execution_kind,
    format_cell, has_returning, returning_text, select_plan, sql_outcome_result, CellValue, DmlAction,
};
use context_pilot::schema::{ColumnInfo, ForeignKeyInfo, SchemaCache, TableInfo};
use context_pilot::sql::SqlKind;
use context_pilot::sql_tools::{
    closest_match, enrich_error, eq_ignore_ascii_case, extract_after, extract_table_name, format_markdown_table,
    levenshtein, panel_notice, query_result_text, QueryOutput,
};
use context_pilot::tool::ToolUse;

fn col(name: &str, ty: &str, pk: bool, nn: bool) -> ColumnInfo {
    ColumnInfo { name: name.to_string(), col_type: ty.to_string(), is_pk: pk, is_not_null: nn }
}

fn schema() -> SchemaCache {
    SchemaCache {
        tables: vec![
            TableInfo {
                name: "companies".to_string(),
                row_count: 3,
                columns: vec![col("id", "INTEGER", true, false), col("name", "TEXT", false, true)],
                foreign_keys: Vec::new(),
            },
            TableInfo {
                name: "people".to_string(),
                row_count: 5,
                columns: vec![col("id", "INTEGER", true, false), col("company_id", "INTEGER", false, false)],
                foreign_keys: vec![ForeignKeyInfo {
                    from_col: "company_id".to_string(),
                    to_table: "companies".to_string(),
                    to_col: "id".to_string(),
                }],
            },
        ],
        db_size_bytes: 8192,
    }
}

fn tool() -> ToolUse {
    ToolUse { id: "t1".to_string(), name: "entity_sql".to_string() }
}

fn s(v: &[&str]) -> Vec<String> {
    v.iter().map(|x| x.to_string()).collect()
}

#[test]
fn levenshtein_distances() {
    assert_eq!(levenshtein("kitten", "sitting"), 3);
    assert_eq!(levenshtein("", "abc"), 3);
    assert_eq!(levenshtein("same", "same"), 0);
    assert_eq!(levenshtein("flaw", "lawn"), levenshtein("lawn", "flaw"));
    assert_eq!(levenshtein("héllo", "hello"), 1);
}

#[test]
fn closest_matches() {
    let names = ["companies", "people"];
    assert_eq!(closest_match("companie", &names, 2), Some("companies"));
    assert_eq!(closest_match("PEOPLE", &names, 2), Some("people"));
    assert_eq!(closest_match("zzz", &names, 2), None);
    let tie = ["abd", "abe"];
    assert_eq!(closest_match("abc", &tie, 2), Some("abd"));
}

#[test]
fn words_after_patterns() {
    assert_eq!(extract_after("no such table: compnies", "no such table: "), Some("compnies".to_string()));
    assert_eq!(extract_after("no such column: a_b.c", "no such column: "), Some("a_b".to_string()));
    assert_eq!(extract_after("no such table: ", "no such table: "), None);
    assert_eq!(extract_after("other", "no such table: "), None);
}

#[test]
fn table_names_in_queries() {
    assert_eq!(extract_table_name("SELECT * FROM people WHERE id = 1"), Some("people".to_string()));
    assert_eq!(extract_table_name("select id from   companies;"), Some("companies".to_string()));
    assert_eq!(extract_table_name("SELECT 1"), None);
}

#[test]
fn markdown_tables() {
    assert_eq!(format_markdown_table(&[], &[]), "");
    let t = format_markdown_table(&s(&["id", "name"]), &[s(&["1", "Acme"])]);
    assert_eq!(t, "| id | name |\n|------|------|\n| 1 | Acme |\n");
}

#[test]
fn ascii_case_insensitive() {
    assert!(eq_ignore_ascii_case("People", "PEOPLE"));
    assert!(!eq_ignore_ascii_case("people", "person"));
}

#[test]
fn enriched_errors() {
    let e = enrich_error("no such table: compnies", &schema());
    assert_eq!(
        e,
        "SQL error: no such table: compnies\nDid you mean table 'companies'?\n\nCurrent schema:\n  companies (3): id INTEGER PK, name TEXT\n  people (5): id INTEGER PK, company_id INTEGER"
    );
    let e = enrich_error("no such column: nam", &schema());
    assert!(e.starts_with("SQL error: no such column: nam\nDid you mean column 'name'?\n"));
    let empty = SchemaCache { tables: Vec::new(), db_size_bytes: 0 };
    assert_eq!(enrich_error("syntax error", &empty), "SQL error: syntax error");
}

fn inline(o: QueryOutput) -> String {
    match o {
        QueryOutput::Inline(t) => t,
        QueryOutput::Panel { .. } => panic!("expected an inline report"),
    }
}

#[test]
fn query_reports() {
    let cache = Some(schema());
    assert_eq!(
        inline(query_result_text("SELECT * FROM people WHERE id = 99", &s(&["id"]), &[], &cache)),
        "0 rows returned. (Table 'people' has 5 total rows.)"
    );
    assert_eq!(inline(query_result_text("SELECT 1 WHERE 0", &s(&["1"]), &[], &cache)), "0 rows returned.");
    let rows: Vec<Vec<String>> = (0..3).map(|i| vec![i.to_string()]).collect();
    assert_eq!(
        inline(query_result_text("SELECT id FROM t", &s(&["id"]), &rows, &None)),
        "| id |\n|------|\n| 0 |\n| 1 |\n| 2 |\n\n\n(3 rows)"
    );
    let fifty: Vec<Vec<String>> = (0..50).map(|i| vec![i.to_string()]).collect();
    assert!(inline(query_result_text("SELECT id FROM t", &s(&["id"]), &fifty, &None)).ends_with("| 49 |\n\n\n(50 rows)"));
}

#[test]
fn large_query_goes_to_panel() {
    let many: Vec<Vec<String>> = (0..60).map(|i| vec![i.to_string()]).collect();
    match query_result_text("SELECT id FROM t", &s(&["id"]), &many, &None) {
        QueryOutput::Panel { title, content, rows } => {
            assert_eq!(rows, 60);
            assert_eq!(title, "SQL result (60 rows)");
            assert!(content.starts_with("| id |\n|------|\n| 0 |\n"));
            assert!(content.ends_with("| 59 |\n\n\n(60 rows)"));
        }
        QueryOutput::Inline(_) => panic!("expected a panel"),
    }
    assert_eq!(
        panel_notice(60, "P15"),
        "60 rows: too many to show inline; the full result is in panel P15."
    );
}

#[test]
fn sql_tool_decisions() {
    let r = check_sql_present(&tool(), "   \n").unwrap();
    assert_eq!(r.content, "SQL parameter is empty.");
    assert!(r.is_error);
    assert!(check_sql_present(&tool(), "SELECT 1").is_none());
    assert_eq!(execution_kind("  with x as (select 1) select * from x"), SqlKind::Select);
    assert_eq!(execution_kind("DROP TABLE t"), SqlKind::Ddl);
    assert_eq!(execution_kind("insert into t values (1)"), SqlKind::Dml);
    let (batch, last) = select_plan("PRAGMA foreign_keys=ON; SELECT * FROM t;");
    assert_eq!(batch, vec!["PRAGMA foreign_keys=ON"]);
    assert_eq!(last, "SELECT * FROM t");
    let (batch, last) = select_plan(";;");
    assert!(batch.is_empty());
    assert_eq!(last, ";;");
    assert!(has_returning("insert into t values (1) returning *"));
    assert!(!has_returning("insert into t values (1)"));
}

#[test]
fn sql_reports() {
    assert_eq!(affected_text(3), "3 row(s) affected.");
    assert_eq!(
        returning_text(2, &s(&["id"]), &[s(&["7"])]),
        "2 row(s) affected.\n\n| id |\n|------|\n| 7 |\n\n\n(1 returned)"
    );
    assert_eq!(returning_text(0, &s(&["id"]), &[]), "| id |\n|------|\n\n\n(0 returned)");
    assert_eq!(ddl_text("0003_add_people.sql"), "Schema updated. Migration saved: 0003_add_people.sql");
    let ok = sql_outcome_result(&tool(), Ok("1 row(s) affected.".to_string()), &schema());
    assert!(!ok.is_error);
    assert_eq!(ok.content, "1 row(s) affected.");
    let bad = sql_outcome_result(&tool(), Err("no such table: peple".to_string()), &schema());
    assert!(bad.is_error);
    assert!(bad.content.starts_with("SQL error: no such table: peple\nDid you mean table 'people'?"));
}

#[test]
fn cell_formats() {
    assert_eq!(format_cell(&CellValue::Null), "NULL");
    assert_eq!(format_cell(&CellValue::Integer(-42)), "-42");
    assert_eq!(format_cell(&CellValue::Integer(i64::MIN)), i64::MIN.to_string());
    assert_eq!(format_cell(&CellValue::Real("1.5".to_string())), "1.5");
    assert_eq!(format_cell(&CellValue::Text("héllo".to_string())), "héllo");
    assert_eq!(format_cell(&CellValue::Blob(16)), "[BLOB 16 bytes]");
}

#[test]
fn entities_state_counts() {
    let es = EntitiesState { schema_cache: Some(schema()) };
    assert_eq!(es.table_count(), 2);
    assert_eq!(es.total_rows(), 8);
    assert_eq!(sum_rows(&schema().tables), 8);
    let none = EntitiesState { schema_cache: None };
    assert_eq!(none.table_count(), 0);
    assert_eq!(none.total_rows(), 0);
}

#[test]
fn entities_module_identity() {
    let m = EntitiesModule;
    assert_eq!(m.id(), "entities");
    assert!(m.handles_tool("entity_sql"));
    assert!(!m.handles_tool("other"));
    assert!(m.creates_panel("entities"));
    assert!(!m.creates_panel("entity_result"));
    let es = EntitiesState { schema_cache: Some(schema()) };
    assert!(m.overview_context_section(&es).is_some());
}

#[test]
fn entities_context_text() {
    let es = EntitiesState { schema_cache: Some(schema()) };
    let text = build_context_text(&es, &None);
    assert!(text.contains("companies"));
    assert!(text.contains("people"));
    let none = EntitiesState { schema_cache: None };
    assert_eq!(
        build_context_text(&none, &None),
        "Entity Database (empty)\n\nNo entity tables yet. Use entity_sql to create your schema."
    );
}

fn panel_entry(id: &str, kind: &str, content: Option<&str>) -> ContextEntry {
    ContextEntry {
        id: id.to_string(),
        name: format!("{id} result"),
        context_type: kind.to_string(),
        is_fixed: false,
        last_refresh_ms: 42,
        cached_content: content.map(|c| c.to_string()),
    }
}

#[test]
fn entities_panel_context() {
    let entries = vec![panel_entry("P1", "tools", None), panel_entry("P5", "entities", None)];
    assert_eq!(find_of_type(&entries, "entities"), Some(1));
    assert_eq!(find_of_type(&entries, "library"), None);
    let item = EntitiesPanel.context(&entries, "body".to_string());
    assert_eq!(item.id, "P5");
    assert_eq!(item.header, "Entities");
    assert_eq!(item.last_refresh_ms, 42);
    assert_eq!(EntitiesPanel.title(), "Entities");
}

#[test]
fn database_recovery() {
    let mut o = DbObservation { opened: true, healthy: true, has_user_tables: true, dump_exists: true, reopened: false };
    assert_eq!(recovery_action(&o), RecoveryAction::Nothing);
    o.dump_exists = false;
    assert_eq!(recovery_action(&o), RecoveryAction::RegenerateDump);
    o.has_user_tables = false;
    assert_eq!(recovery_action(&o), RecoveryAction::RestoreThenMigrate { restore_dump: false });
    o.healthy = false;
    o.reopened = true;
    o.dump_exists = true;
    assert_eq!(recovery_action(&o), RecoveryAction::Rebuild { reopened: true, restore_dump: true });
    o.opened = false;
    assert_eq!(recovery_action(&o), RecoveryAction::Nothing);
}

#[test]
fn database_paths() {
    let p = entity_paths("/work/proj");
    assert_eq!(p.db_path, "/work/proj/.context-pilot/entities.db");
    assert_eq!(p.shared_dir, "/work/proj/.context-pilot/shared/entities");
    assert_eq!(p.dump_path, "/work/proj/.context-pilot/shared/entities/schema.sql");
    assert_eq!(p.migrations_dir, "/work/proj/.context-pilot/shared/entities/migrations");
    assert_eq!(entity_paths("/").db_path, "/.context-pilot/entities.db");
    assert_eq!(entity_paths("").db_path, ".context-pilot/entities.db");
}

fn runs(line: &[StyledText]) -> Vec<(String, TextStyle)> {
    line.iter().map(|r| (r.text.clone(), r.style)).collect()
}

#[test]
fn schema_overview_blocks() {
    let es = EntitiesState { schema_cache: Some(schema()) };
    let b = populated_blocks(&es, Some(2));
    assert_eq!(runs(&b[0]), vec![("Entity Database (2 tables, 8 rows, 8 KB)".to_string(), TextStyle::StrongAccent)]);
    assert!(b[1].is_empty());
    assert_eq!(runs(&b[2]), vec![("2 migration(s) tracked".to_string(), TextStyle::Muted)]);
    assert_eq!(
        runs(&b[4]),
        vec![("companies".to_string(), TextStyle::StrongAccent), (" (3 rows)".to_string(), TextStyle::Plain)]
    );
    assert_eq!(
        runs(&b[5]),
        vec![("  id ".to_string(), TextStyle::Plain), ("INTEGER PK".to_string(), TextStyle::Code)]
    );
    assert_eq!(runs(&b[6])[1], ("TEXT NOT NULL".to_string(), TextStyle::Code));
    assert_eq!(runs(&b[11]), vec![("  FK: company_id → companies(id)".to_string(), TextStyle::Muted)]);
    assert_eq!(b.len(), 13);
    let no_mig = populated_blocks(&es, Some(0));
    assert_eq!(no_mig.len(), 11);
    let loading = populated_blocks(&EntitiesState { schema_cache: None }, None);
    assert_eq!(runs(&loading[0]), vec![("Entity Database (loading...)".to_string(), TextStyle::Plain)]);
}

#[test]
fn onboarding_blocks() {
    let b = empty_state_blocks();
    assert_eq!(b.len(), 16);
    assert_eq!(runs(&b[0]), vec![("Entity Database (empty)".to_string(), TextStyle::Plain)]);
    assert_eq!(runs(&b[4]), vec![("Quick start:".to_string(), TextStyle::Strong)]);
}

#[test]
fn result_panel_blocks() {
    let entries = vec![
        panel_entry("P3", "entity_result", Some("| a |\r\n| 1 |\n")),
        panel_entry("P4", "entity_result", None),
        panel_entry("P5", "file", Some("x")),
    ];
    let b = result_blocks(&entries, 0);
    assert_eq!(b.len(), 2);
    assert_eq!(runs(&b[0]), vec![(" | a |".to_string(), TextStyle::Plain)]);
    assert_eq!(runs(&b[1]), vec![(" | 1 |".to_string(), TextStyle::Plain)]);
    assert_eq!(runs(&result_blocks(&entries, 1)[0]), vec![("Loading...".to_string(), TextStyle::MutedItalic)]);
    assert_eq!(
        runs(&result_blocks(&entries, 2)[0]),
        vec![("No entity result panel".to_string(), TextStyle::Muted)]
    );
    assert_eq!(runs(&result_blocks(&entries, 9)[0])[0].0, "No entity result panel");
    assert_eq!(result_title(&entries, 0), "P3 result");
    assert_eq!(result_title(&entries, 7), "Entity Result");
}

#[test]
fn result_panel_restore() {
    let loaded = panel_entry("P3", "entity_result", Some("x"));
    assert!(restore_request(&loaded, Some("stored".to_string())).is_none());
    let empty = panel_entry("P4", "entity_result", None);
    let r = restore_request(&empty, Some("stored".to_string())).unwrap();
    assert_eq!(r.context_id, "P4");
    assert_eq!(r.content, "stored");
    assert!(restore_request(&empty, None).is_none());
}

#[test]
fn entities_module_registration() {
    let m = EntitiesModule;
    assert_eq!(m.name(), "Entities");
    assert!(m.is_global());
    assert!(!m.is_core());
    assert_eq!(m.dependencies(), vec!["search"]);
    assert_eq!(m.fixed_panel_defaults(), vec![("entities", "Entities", false)]);
    assert_eq!(m.tool_category_descriptions(), vec![("Entity", "Persistent relational entity database")]);
    let meta = m.context_type_metadata();
    assert_eq!(meta[0].fixed_order, Some(5));
    assert!(meta[0].is_fixed);
    let es = EntitiesState { schema_cache: Some(schema()) };
    assert_eq!(m.overview_context_section(&es), Some("Entities: 2 tables, 8 rows\n".to_string()));
    assert_eq!(m.overview_context_section(&EntitiesState { schema_cache: None }), None);
}

#[test]
fn entities_panel_blocks_choice() {
    let empty = EntitiesState { schema_cache: Some(SchemaCache { tables: Vec::new(), db_size_bytes: 0 }) };
    assert_eq!(EntitiesPanel.blocks(&empty, None).len(), 16);
    let full = EntitiesState { schema_cache: Some(schema()) };
    assert_eq!(EntitiesPanel.blocks(&full, None).len(), 11);
    assert!(!EntitiesPanel.needs_cache());
    assert_eq!(EntitiesPanel.max_freezes(), 2);
}

#[test]
fn dml_steps_run_each_statement_then_report() {
    let mut run = dml_start();
    for expected in 0..2 {
        match dml_action(2, false, &run) {
            DmlAction::Execute { index } => assert_eq!(index, expected),
            _ => panic!("expected a statement to run"),
        }
        run = dml_after_execute(run, 3);
    }
    match dml_action(2, false, &run) {
        DmlAction::Finish { report } => assert_eq!(report, "6 row(s) affected."),
        _ => panic!("expected the report"),
    }
}

#[test]
fn dml_returning_queries_the_last_statement() {
    let run = dml_after_execute(dml_start(), 2);
    match dml_action(2, true, &run) {
        DmlAction::QueryReturning { index, total } => assert_eq!((index, total), (1, 2)),
        _ => panic!("expected the returning query"),
    }
    let run = dml_after_execute(dml_start(), usize::MAX);
    let run = dml_after_execute(run, 5);
    assert_eq!(run.total, usize::MAX);
    match dml_action(0, true, &dml_start()) {
        DmlAction::Finish { report } => assert_eq!(report, "0 row(s) affected."),
        _ => panic!("expected the report"),
    }
}

#[test]
fn pending_migrations_are_newer_and_in_order() {
    assert_eq!(migration_id_of("0003_20260605T100000.sql"), Some(3));
    assert_eq!(migration_id_of("notes.sql"), None);
    assert_eq!(migration_id_of("0004_x.txt"), None);
    assert_eq!(migration_id_of("_x.sql"), None);
    assert_eq!(migration_id_of("+4_x.sql"), None);
    let names: Vec<String> = ["0004_d.sql", "0001_a.sql", "README.md", "0003_c.sql", "0002_b.sql"]
        .iter()
        .map(|s| s.to_string())
        .collect();
    let pending = pending_migrations(&names, 2);
    let got: Vec<(u64, String)> = pending.iter().map(|m| (m.id, m.filename.clone())).collect();
    assert_eq!(got, vec![(3, "0003_c.sql".to_string()), (4, "0004_d.sql".to_string())]);
    assert_eq!(pending_migrations(&names, 0).len(), 4);
    assert!(pending_migrations(&names, 4).is_empty());
}

#[test]
fn result_panel_takes_the_next_uid() {
    let (panel, next) = create_result_panel("P15", 41, "SQL result (60 rows)", "| id |");
    assert_eq!(panel.id, "P15");
    assert_eq!(panel.uid, "UID_41_P");
    assert_eq!(panel.title, "SQL result (60 rows)");
    assert_eq!(panel.content, "| id |");
    assert_eq!(panel.context_type, "entity_result");
    assert_eq!(next, 42);
    assert_eq!(create_result_panel("P1", usize::MAX, "t", "c").1, usize::MAX);
}
