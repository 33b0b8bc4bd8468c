//! Entities module: a persistent relational database for structured domain knowledge.
//!
//! One tool, `entity_sql`, runs arbitrary SQL against an embedded SQLite database;
//! a fixed panel shows the live schema with sample data.
use crate::context::{ContextEntry, ContextItem, TypeMeta};
use crate::schema::{ColumnInfo, ForeignKeyInfo, SchemaCache, TableInfo, rows_total};
use crate::sql_tools::column_summary;
use crate::text::{
    dec, join, join_seq, lemma_map_push, lemma_map_take_push, push_dec, views,
};
use vstd::prelude::*;
use vstd::string::*;

verus! {

/// Entities state: the last introspected schema, when known.
pub struct EntitiesState {
    /// Schema of the entity database.
    pub schema_cache: Option<SchemaCache>,
}

/// Number of tables in a known schema (0 when unknown).
pub open spec fn table_count_of(es: EntitiesState) -> nat {
    match es.schema_cache {
        Some(c) => c.tables@.len(),
        None => 0,
    }
}

/// Total number of rows in a known schema (0 when unknown).
pub open spec fn total_rows_of(es: EntitiesState) -> int {
    match es.schema_cache {
        Some(c) => rows_total(c.tables@),
        None => 0,
    }
}

/// Sum of row counts, which must fit in `u64`.
pub fn sum_rows(tables: &Vec<TableInfo>) -> (r: u64)
    requires
        rows_total(tables@) <= u64::MAX,
    ensures
        r == rows_total(tables@),
{
    let mut total: u64 = 0;
    let mut i: usize = 0;
    while i < tables.len()
        invariant
            i <= tables@.len(),
            rows_total(tables@) <= u64::MAX,
            total == rows_total(tables@.take(i as int)),
        decreases tables@.len() - i,
    {
        proof {
            assert(tables@.take(i + 1).drop_last() =~= tables@.take(i as int));
            lemma_rows_total_prefix(tables@, i + 1);
        }
        total = total + tables[i].row_count;
        i = i + 1;
    }
    assert(tables@.take(tables@.len() as int) =~= tables@);
    total
}

/// Row counts are non-negative, so a prefix never sums to more than the whole.
pub proof fn lemma_rows_total_prefix(tables: Seq<TableInfo>, k: int)
    requires
        0 <= k <= tables.len(),
    ensures
        rows_total(tables.take(k)) <= rows_total(tables),
        0 <= rows_total(tables.take(k)),
    decreases tables.len(),
{
    if k < tables.len() {
        assert(tables.drop_last().take(k) =~= tables.take(k));
        lemma_rows_total_prefix(tables.drop_last(), k);
    } else {
        assert(tables.take(k) =~= tables);
        if tables.len() > 0 {
            lemma_rows_total_prefix(tables.drop_last(), k - 1);
            assert(tables.drop_last().take(k - 1) =~= tables.drop_last());
        }
    }
}

impl EntitiesState {
    /// Number of user tables (0 before the schema is known).
    pub fn table_count(&self) -> (r: usize)
        ensures
            r == table_count_of(*self),
    {
        match &self.schema_cache {
            Some(c) => c.tables.len(),
            None => 0,
        }
    }

    /// Total rows over all user tables (0 before the schema is known).
    pub fn total_rows(&self) -> (r: u64)
        requires
            total_rows_of(*self) <= u64::MAX,
        ensures
            r == total_rows_of(*self),
    {
        match &self.schema_cache {
            Some(c) => sum_rows(&c.tables),
            None => 0,
        }
    }
}

/// Entities module: persistent relational entity database.
#[derive(Debug, Clone, Copy)]
pub struct EntitiesModule;

/// The text of the overview section, for a known schema with tables.
pub open spec fn overview_section(es: EntitiesState) -> Option<Seq<char>> {
    if table_count_of(es) == 0 {
        None
    } else {
        Some(
            "Entities: "@ + dec(table_count_of(es)) + " tables, "@ + dec(total_rows_of(es) as nat)
                + " rows\n"@,
        )
    }
}

impl EntitiesModule {
    /// Module id.
    pub fn id(&self) -> (r: &'static str)
        ensures
            r@ == "entities"@,
    {
        "entities"
    }

    /// Module name.
    pub fn name(&self) -> (r: &'static str)
        ensures
            r@ == "Entities"@,
    {
        "Entities"
    }

    /// Module description.
    pub fn description(&self) -> (r: &'static str)
        ensures
            r@ == "Persistent relational entity database"@,
    {
        "Persistent relational entity database"
    }

    /// The module is global (shared by all workers).
    pub fn is_global(&self) -> (r: bool)
        ensures
            r,
    {
        true
    }

    /// The module is not a core module.
    pub fn is_core(&self) -> (r: bool)
        ensures
            !r,
    {
        false
    }

    /// Modules this one depends on: `search`.
    pub fn dependencies(&self) -> (r: Vec<&'static str>)
        ensures
            r@.len() == 1,
            r@[0]@ == "search"@,
    {
        let mut v: Vec<&'static str> = Vec::new();
        v.push("search");
        v
    }

    /// File-system changes refresh the panel immediately.
    pub fn watcher_immediate_refresh(&self) -> (r: bool)
        ensures
            r,
    {
        true
    }

    /// The fixed panel this module provides: kind, title, and whether it starts hidden.
    pub fn fixed_panel_defaults(&self) -> (r: Vec<(&'static str, &'static str, bool)>)
        ensures
            r@.len() == 1,
            r@[0].0@ == "entities"@,
            r@[0].1@ == "Entities"@,
            !r@[0].2,
    {
        let mut v: Vec<(&'static str, &'static str, bool)> = Vec::new();
        v.push(("entities", "Entities", false));
        v
    }

    /// The tool category this module contributes.
    pub fn tool_category_descriptions(&self) -> (r: Vec<(&'static str, &'static str)>)
        ensures
            r@.len() == 1,
            r@[0].0@ == "Entity"@,
            r@[0].1@ == "Persistent relational entity database"@,
    {
        let mut v: Vec<(&'static str, &'static str)> = Vec::new();
        v.push(("Entity", "Persistent relational entity database"));
        v
    }

    /// Registration of the `entities` context type: fixed, fifth among fixed panels.
    pub fn context_type_metadata(&self) -> (r: Vec<TypeMeta>)
        ensures
            r@.len() == 1,
            r@[0].context_type@ == "entities"@,
            r@[0].icon_id@ == "entities"@,
            r@[0].is_fixed,
            !r@[0].needs_cache,
            r@[0].fixed_order == Some(5u32),
            r@[0].display_name@ == "entities"@,
            r@[0].short_name@ == "entities"@,
            !r@[0].needs_async_wait,
    {
        let mut v: Vec<TypeMeta> = Vec::new();
        v.push(
            TypeMeta {
                context_type: "entities",
                icon_id: "entities",
                is_fixed: true,
                needs_cache: false,
                fixed_order: Some(5),
                display_name: "entities",
                short_name: "entities",
                needs_async_wait: false,
            },
        );
        v
    }

    /// Whether this module executes the named tool (`entity_sql`).
    pub fn handles_tool(&self, tool_name: &str) -> (r: bool)
        ensures
            r == (tool_name@ == "entity_sql"@),
    {
        let v = crate::text::chars_of(tool_name);
        crate::text::chars_eq_str(&v, "entity_sql")
    }

    /// Whether this module creates panels of the given context type (`entities`).
    pub fn creates_panel(&self, context_type: &str) -> (r: bool)
        ensures
            r == (context_type@ == "entities"@),
    {
        let v = crate::text::chars_of(context_type);
        crate::text::chars_eq_str(&v, "entities")
    }

    /// The overview line: table and row counts, or nothing when there are no tables.
    pub fn overview_context_section(&self, es: &EntitiesState) -> (r: Option<String>)
        requires
            total_rows_of(*es) <= u64::MAX,
        ensures
            match overview_section(*es) {
                Some(t) => r matches Some(s) && s@ == t,
                None => r is None,
            },
    {
        let tc = es.table_count();
        if tc == 0 {
            return None;
        }
        let mut s = String::from_str("Entities: ");
        push_dec(&mut s, tc as u64);
        s.append(" tables, ");
        push_dec(&mut s, es.total_rows());
        s.append(" rows\n");
        Some(s)
    }
}

// =============================================================================
// Panel context text
// =============================================================================

/// Text of the empty panel.
pub open spec fn empty_database_text() -> Seq<char> {
    "Entity Database (empty)\n\nNo entity tables yet. Use entity_sql to create your schema."@
}

/// The foreign-key line of a table.
pub open spec fn fk_line(fk: ForeignKeyInfo) -> Seq<char> {
    "  FK: "@ + fk.from_col@ + " → "@ + fk.to_table@ + "("@ + fk.to_col@ + ")\n"@
}

/// Concatenation of the foreign-key lines.
pub open spec fn fk_lines(fks: Seq<ForeignKeyInfo>) -> Seq<char>
    decreases fks.len(),
{
    if fks.len() == 0 {
        Seq::empty()
    } else {
        fk_lines(fks.drop_last()) + fk_line(fks.last())
    }
}

/// Concatenation of the sample lines, `  Sample: (v, v)`.
pub open spec fn sample_lines(rows: Seq<Seq<Seq<char>>>) -> Seq<char>
    decreases rows.len(),
{
    if rows.len() == 0 {
        Seq::empty()
    } else {
        sample_lines(rows.drop_last()) + "  Sample: ("@ + join_seq(rows.last(), ", "@) + ")\n"@
    }
}

/// The sample part of a table: its sample rows, or a note when there are none; nothing
/// when samples could not be read.
pub open spec fn sample_part(t: TableInfo, samples: Option<Seq<Seq<Seq<char>>>>) -> Seq<char> {
    match samples {
        None => Seq::empty(),
        Some(rows) => if rows.len() > 0 {
            sample_lines(rows)
        } else if t.row_count > 0 && t.columns@.len() > 10 {
            "  (wide table, sample omitted)\n"@
        } else {
            "  (empty)\n"@
        },
    }
}

/// The block of one table: header, columns, foreign keys, samples, blank line.
pub open spec fn table_block(t: TableInfo, samples: Option<Seq<Seq<Seq<char>>>>) -> Seq<char> {
    t.name@ + " ("@ + dec(t.row_count as nat) + " rows):\n"@ + "  "@ + join_seq(
        t.columns@.map_values(|c: ColumnInfo| column_summary(c)),
        ", "@,
    ) + "\n"@ + fk_lines(t.foreign_keys@) + sample_part(t, samples) + "\n"@
}

/// Sample rows for table `i`, when samples were read.
pub open spec fn samples_for(samples: Option<Seq<Vec<Vec<String>>>>, i: int) -> Option<
    Seq<Seq<Seq<char>>>,
> {
    match samples {
        Some(s) => Some(s[i]@.map_values(|r: Vec<String>| views(r@))),
        None => None,
    }
}

/// The blocks of tables `0..n`.
pub open spec fn table_blocks(tables: Seq<TableInfo>, samples: Option<Seq<Vec<Vec<String>>>>, n: int) -> Seq<
    char,
>
    decreases n,
{
    if n <= 0 {
        Seq::empty()
    } else {
        table_blocks(tables, samples, n - 1) + table_block(tables[n - 1], samples_for(samples, n - 1))
    }
}

/// The sample rows per table, when they were read.
pub open spec fn sample_seq(samples: Option<Vec<Vec<Vec<String>>>>) -> Option<Seq<Vec<Vec<String>>>> {
    match samples {
        Some(v) => Some(v@),
        None => None,
    }
}

/// The Entities panel text sent to the model.
pub open spec fn context_text(es: EntitiesState, samples: Option<Seq<Vec<Vec<String>>>>) -> Seq<char> {
    match es.schema_cache {
        None => empty_database_text(),
        Some(c) => if c.tables@.len() == 0 {
            empty_database_text()
        } else {
            "Entity Database ("@ + dec(c.tables@.len()) + " tables, "@ + dec(rows_total(c.tables@) as nat)
                + " rows, "@ + dec((c.db_size_bytes / 1024) as nat) + " KB):\n\n"@ + table_blocks(
                c.tables@,
                samples,
                c.tables@.len() as int,
            )
        },
    }
}

/// `  Sample: (...)` lines of one table.
fn push_sample_lines(out: &mut String, rows: &Vec<Vec<String>>)
    ensures
        final(out)@ == old(out)@ + sample_lines(rows@.map_values(|r: Vec<String>| views(r@))),
{
    let mut i: usize = 0;
    while i < rows.len()
        invariant
            i <= rows@.len(),
            out@ == old(out)@ + sample_lines(rows@.take(i as int).map_values(|r: Vec<String>| views(r@))),
        decreases rows@.len() - i,
    {
        out.append("  Sample: (");
        let j = join(&rows[i], ", ");
        out.append(j.as_str());
        out.append(")\n");
        proof {
            let f = |r: Vec<String>| views(r@);
            lemma_map_take_push(rows@, i as int, f);
            let m1 = rows@.take(i + 1).map_values(f);
            assert(m1.drop_last() =~= rows@.take(i as int).map_values(f));
            assert(m1.last() == views(rows@[i as int]@));
            assert(out@ =~= old(out)@ + sample_lines(m1));
        }
        i = i + 1;
    }
    assert(rows@.take(rows@.len() as int) =~= rows@);
}

/// Appends the block of one table.
fn push_table_block(out: &mut String, t: &TableInfo, samples: Option<&Vec<Vec<String>>>)
    ensures
        final(out)@ == old(out)@ + table_block(
            *t,
            match samples {
                Some(s) => Some(s@.map_values(|r: Vec<String>| views(r@))),
                None => None,
            },
        ),
{
    out.append(t.name.as_str());
    out.append(" (");
    push_dec(out, t.row_count);
    out.append(" rows):\n");
    let mut cols: Vec<String> = Vec::new();
    let mut k: usize = 0;
    while k < t.columns.len()
        invariant
            k <= t.columns@.len(),
            views(cols@) == t.columns@.take(k as int).map_values(|c: ColumnInfo| column_summary(c)),
        decreases t.columns@.len() - k,
    {
        let c = &t.columns[k];
        let mut s = c.name.clone();
        s.append(" ");
        s.append(c.col_type.as_str());
        if c.is_pk {
            s.append(" PK");
        } else {
            assert(s@ =~= s@ + Seq::<char>::empty());
        }
        let ghost old_cols = cols@;
        cols.push(s);
        proof {
            lemma_map_push(old_cols, s, |x: String| x@);
            lemma_map_take_push(t.columns@, k as int, |c: ColumnInfo| column_summary(c));
        }
        k = k + 1;
    }
    assert(t.columns@.take(t.columns@.len() as int) =~= t.columns@);
    out.append("  ");
    let j = join(&cols, ", ");
    out.append(j.as_str());
    out.append("\n");
    let mut f: usize = 0;
    while f < t.foreign_keys.len()
        invariant
            f <= t.foreign_keys@.len(),
            out@ == old(out)@ + t.name@ + " ("@ + dec(t.row_count as nat) + " rows):\n"@ + "  "@ + join_seq(
                t.columns@.map_values(|c: ColumnInfo| column_summary(c)),
                ", "@,
            ) + "\n"@ + fk_lines(t.foreign_keys@.take(f as int)),
        decreases t.foreign_keys@.len() - f,
    {
        let fk = &t.foreign_keys[f];
        out.append("  FK: ");
        out.append(fk.from_col.as_str());
        out.append(" → ");
        out.append(fk.to_table.as_str());
        out.append("(");
        out.append(fk.to_col.as_str());
        out.append(")\n");
        proof {
            assert(t.foreign_keys@.take(f + 1).drop_last() =~= t.foreign_keys@.take(f as int));
        }
        f = f + 1;
    }
    assert(t.foreign_keys@.take(t.foreign_keys@.len() as int) =~= t.foreign_keys@);
    match samples {
        Some(rows) => {
            if rows.len() > 0 {
                push_sample_lines(out, rows);
            } else if t.row_count > 0 && t.columns.len() > 10 {
                out.append("  (wide table, sample omitted)\n");
            } else {
                out.append("  (empty)\n");
            }
        },
        None => {},
    }
    out.append("\n");
}

/// Build the text sent to the model for the Entities panel.
///
/// `samples` holds, per table and in table order, the first rows read for display, or is
/// `None` when the database could not be opened for sampling.
pub fn build_context_text(es: &EntitiesState, samples: &Option<Vec<Vec<Vec<String>>>>) -> (r: String)
    requires
        total_rows_of(*es) <= u64::MAX,
        samples matches Some(s) ==> es.schema_cache matches Some(c) && s@.len() == c.tables@.len(),
    ensures
        r@ == context_text(*es, sample_seq(*samples)),
{
    let cache = match &es.schema_cache {
        Some(c) => c,
        None => {
            return String::from_str(
                "Entity Database (empty)\n\nNo entity tables yet. Use entity_sql to create your schema.",
            );
        },
    };
    if cache.tables.len() == 0 {
        return String::from_str(
            "Entity Database (empty)\n\nNo entity tables yet. Use entity_sql to create your schema.",
        );
    }
    let ghost gs = sample_seq(*samples);
    let total_rows = sum_rows(&cache.tables);
    let kb = cache.db_size_bytes / 1024;
    let mut out = String::from_str("Entity Database (");
    push_dec(&mut out, cache.tables.len() as u64);
    out.append(" tables, ");
    push_dec(&mut out, total_rows);
    out.append(" rows, ");
    push_dec(&mut out, kb);
    out.append(" KB):\n\n");
    let ghost header = out@;
    let mut i: usize = 0;
    while i < cache.tables.len()
        invariant
            i <= cache.tables@.len(),
            samples matches Some(s) ==> s@.len() == cache.tables@.len(),
            gs == sample_seq(*samples),
            out@ == header + table_blocks(cache.tables@, gs, i as int),
        decreases cache.tables@.len() - i,
    {
        let sample_rows: Option<&Vec<Vec<String>>> = match samples {
            Some(s) => Some(&s[i]),
            None => None,
        };
        push_table_block(&mut out, &cache.tables[i], sample_rows);
        i = i + 1;
    }
    out
}

// =============================================================================
// The Entities panel
// =============================================================================

/// Fixed panel showing entity schema and sample data.
#[derive(Debug)]
pub struct EntitiesPanel;

impl EntitiesPanel {
    /// Panel title.
    pub fn title(&self) -> (r: &'static str)
        ensures
            r@ == "Entities"@,
    {
        "Entities"
    }

    /// The panel needs no background cache.
    pub fn needs_cache(&self) -> (r: bool)
        ensures
            !r,
    {
        false
    }

    /// How many times the panel may be frozen.
    pub fn max_freezes(&self) -> (r: u8)
        ensures
            r == 2,
    {
        2
    }

    /// The context item for the panel: the entry of type `entities` (id and refresh time,
    /// or an empty id and 0 when there is none) with the given panel text.
    pub fn context(&self, entries: &Vec<ContextEntry>, content: String) -> (r: ContextItem)
        ensures
            r.header@ == "Entities"@,
            r.content@ == content@,
            match first_of_type(entries@, "entities"@) {
                Some(i) => r.id@ == entries@[i].id@ && r.last_refresh_ms == entries@[i].last_refresh_ms,
                None => r.id@ == Seq::<char>::empty() && r.last_refresh_ms == 0,
            },
    {
        let found = find_of_type(entries, "entities");
        match found {
            Some(i) => ContextItem {
                id: entries[i].id.clone(),
                header: String::from_str("Entities"),
                content,
                last_refresh_ms: entries[i].last_refresh_ms,
            },
            None => ContextItem {
                id: String::new(),
                header: String::from_str("Entities"),
                content,
                last_refresh_ms: 0,
            },
        }
    }
}

/// Index of the first entry of the given context type.
pub open spec fn first_of_type(entries: Seq<ContextEntry>, kind: Seq<char>) -> Option<int>
    decreases entries.len(),
{
    if entries.len() == 0 {
        None
    } else {
        match first_of_type(entries.drop_last(), kind) {
            Some(i) => Some(i),
            None => if entries.last().context_type@ == kind {
                Some(entries.len() - 1)
            } else {
                None
            },
        }
    }
}

/// Index of the first entry of the given context type.
pub fn find_of_type(entries: &Vec<ContextEntry>, kind: &str) -> (r: Option<usize>)
    ensures
        r matches Some(i) ==> i < entries@.len(),
        match first_of_type(entries@, kind@) {
            Some(i) => r matches Some(k) && k as int == i,
            None => r is None,
        },
{
    let mut i: usize = 0;
    while i < entries.len()
        invariant
            i <= entries@.len(),
            first_of_type(entries@.take(i as int), kind@) is None,
        decreases entries@.len() - i,
    {
        let v = crate::text::chars_of(entries[i].context_type.as_str());
        if crate::text::chars_eq_str(&v, kind) {
            proof {
                lemma_first_of_type_prefix(entries@, kind@, i + 1);
            }
            return Some(i);
        }
        proof {
            assert(entries@.take(i + 1).drop_last() =~= entries@.take(i as int));
        }
        i = i + 1;
    }
    assert(entries@.take(entries@.len() as int) =~= entries@);
    None
}

proof fn lemma_first_of_type_prefix(entries: Seq<ContextEntry>, kind: Seq<char>, k: int)
    requires
        0 < k <= entries.len(),
        first_of_type(entries.take(k - 1), kind) is None,
        entries[k - 1].context_type@ == kind,
    ensures
        first_of_type(entries, kind) == Some(k - 1),
    decreases entries.len(),
{
    assert(entries.take(k).drop_last() =~= entries.take(k - 1));
    if k < entries.len() {
        assert(entries.drop_last().take(k) =~= entries.take(k));
        assert(entries.drop_last().take(k - 1) =~= entries.take(k - 1));
        lemma_first_of_type_prefix(entries.drop_last(), kind, k);
    } else {
        assert(entries.take(k) =~= entries);
    }
}

// =============================================================================
// Database recovery
// =============================================================================

/// What is known of the database and its backup files when the module starts.
///
/// `healthy` matters only when the database opened, `has_user_tables` only when it is
/// healthy, `reopened` only after a corrupt database was removed.
pub struct DbObservation {
    /// The database could be opened.
    pub opened: bool,
    /// The integrity check passed.
    pub healthy: bool,
    /// The database holds user tables.
    pub has_user_tables: bool,
    /// The dump file (`schema.sql`) exists.
    pub dump_exists: bool,
    /// After removing a corrupt database, a fresh one could be opened.
    pub reopened: bool,
}

/// The recovery to perform at start-up.
#[derive(Debug, Clone, Copy, PartialEq, Eq, Structural)]
pub enum RecoveryAction {
    /// Nothing to do (database unavailable, or healthy with its dump present).
    Nothing,
    /// Healthy database, dump missing: write the dump.
    RegenerateDump,
    /// Empty database: restore the dump if it exists, then apply pending migrations.
    RestoreThenMigrate {
        /// Whether to restore the dump first.
        restore_dump: bool,
    },
    /// Corrupt database: remove it; if a fresh one opens, restore the dump if it exists and
    /// apply pending migrations.
    Rebuild {
        /// A fresh database opened after removal.
        reopened: bool,
        /// Whether to restore the dump first.
        restore_dump: bool,
    },
}

/// Recovery priority: a healthy database is the source of truth; otherwise the dump, then
/// the migrations; a corrupt database is removed first.
pub open spec fn recovery_for(o: DbObservation) -> RecoveryAction {
    if !o.opened {
        RecoveryAction::Nothing
    } else if !o.healthy {
        RecoveryAction::Rebuild { reopened: o.reopened, restore_dump: o.reopened && o.dump_exists }
    } else if o.has_user_tables {
        if o.dump_exists {
            RecoveryAction::Nothing
        } else {
            RecoveryAction::RegenerateDump
        }
    } else {
        RecoveryAction::RestoreThenMigrate { restore_dump: o.dump_exists }
    }
}

/// Decide how to recover the entity database.
pub fn recovery_action(o: &DbObservation) -> (r: RecoveryAction)
    ensures
        r == recovery_for(*o),
{
    if !o.opened {
        return RecoveryAction::Nothing;
    }
    if !o.healthy {
        return RecoveryAction::Rebuild { reopened: o.reopened, restore_dump: o.reopened && o.dump_exists };
    }
    if o.has_user_tables {
        if o.dump_exists {
            return RecoveryAction::Nothing;
        }
        return RecoveryAction::RegenerateDump;
    }
    RecoveryAction::RestoreThenMigrate { restore_dump: o.dump_exists }
}

/// Law: a healthy database with user tables is never overwritten from the files.
pub proof fn law_healthy_database_kept(o: DbObservation)
    requires
        o.opened,
        o.healthy,
        o.has_user_tables,
    ensures
        recovery_for(o) == RecoveryAction::Nothing || recovery_for(o) == RecoveryAction::RegenerateDump,
{
}

/// Law: an empty database (opened, healthy, no user tables) is restored from the dump
/// exactly when the dump exists, and then the pending migrations are applied.
pub proof fn law_empty_database_restored_from_dump(o: DbObservation)
    requires
        o.opened,
        o.healthy,
        !o.has_user_tables,
    ensures
        recovery_for(o) matches RecoveryAction::RestoreThenMigrate { restore_dump } && restore_dump == o.dump_exists,
{
}

/// Law: the dump is restored only when it exists, and whenever the database is empty or was
/// rebuilt after corruption and the dump exists, it is restored.
pub proof fn law_dump_restored_iff_present(o: DbObservation)
    ensures
        (recovery_for(o) matches RecoveryAction::RestoreThenMigrate { restore_dump } && restore_dump) ==> o.dump_exists,
        (recovery_for(o) matches RecoveryAction::Rebuild { restore_dump, .. } && restore_dump) ==> o.dump_exists,
        o.opened && o.healthy && !o.has_user_tables && o.dump_exists ==> (recovery_for(o) matches RecoveryAction::RestoreThenMigrate {
            restore_dump,
        } && restore_dump),
        o.opened && !o.healthy && o.reopened && o.dump_exists ==> (recovery_for(o) matches RecoveryAction::Rebuild {
            restore_dump,
            ..
        } && restore_dump),
{
}

/// Law: recovery by the database's state: nothing when it cannot be opened; a corrupt
/// database is rebuilt (restored and migrated only when a fresh one opened); a healthy one
/// with tables is kept, its dump written only when missing.
pub proof fn law_recovery_by_state(o: DbObservation)
    ensures
        !o.opened ==> recovery_for(o) == RecoveryAction::Nothing,
        o.opened && !o.healthy ==> (recovery_for(o) matches RecoveryAction::Rebuild { reopened, restore_dump }
            && reopened == o.reopened && (restore_dump ==> o.reopened)),
        o.opened && o.healthy && o.has_user_tables ==> (recovery_for(o) == RecoveryAction::RegenerateDump
            <==> !o.dump_exists),
        o.opened && o.healthy && o.has_user_tables ==> !(recovery_for(o) is RestoreThenMigrate) && !(recovery_for(
            o,
        ) is Rebuild),
{
}

/// `base` joined with the relative path `part` (`Path::join`): `part` alone when `base` is
/// empty, appended directly when `base` ends with a separator, else after one.
pub open spec fn path_join(base: Seq<char>, part: Seq<char>) -> Seq<char> {
    if base.len() == 0 {
        part
    } else if base.last() == '/' {
        base + part
    } else {
        base + "/"@ + part
    }
}

/// Where the entity database keeps its files.
pub struct EntityPaths {
    /// The database: `<cwd>/.context-pilot/entities.db`.
    pub db_path: String,
    /// The shared directory: `<cwd>/.context-pilot/shared/entities`.
    pub shared_dir: String,
    /// The schema dump: `<shared>/schema.sql`.
    pub dump_path: String,
    /// The migrations: `<shared>/migrations`.
    pub migrations_dir: String,
}

fn join_path(base: &str, part: &str) -> (r: String)
    ensures
        r@ == path_join(base@, part@),
{
    let v = crate::text::chars_of(base);
    let mut s = String::from_str(base);
    if v.len() > 0 && v[v.len() - 1] != '/' {
        s.append("/");
    }
    s.append(part);
    s
}

/// The entity database's paths under the working directory `cwd`.
pub fn entity_paths(cwd: &str) -> (r: EntityPaths)
    ensures
        r.db_path@ == path_join(path_join(cwd@, ".context-pilot"@), "entities.db"@),
        r.shared_dir@ == path_join(path_join(path_join(cwd@, ".context-pilot"@), "shared"@), "entities"@),
        r.dump_path@ == path_join(r.shared_dir@, "schema.sql"@),
        r.migrations_dir@ == path_join(r.shared_dir@, "migrations"@),
{
    let cp_dir = join_path(cwd, ".context-pilot");
    let db_path = join_path(cp_dir.as_str(), "entities.db");
    let shared = join_path(cp_dir.as_str(), "shared");
    let shared_dir = join_path(shared.as_str(), "entities");
    let dump_path = join_path(shared_dir.as_str(), "schema.sql");
    let migrations_dir = join_path(shared_dir.as_str(), "migrations");
    EntityPaths { db_path, shared_dir, dump_path, migrations_dir }
}

} // verus!
