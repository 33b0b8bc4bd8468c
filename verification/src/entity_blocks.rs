//! What the entity panels show: the schema overview, the onboarding guide for an empty
//! database, and the lines of a result panel.
use crate::context::ContextEntry;
use crate::download::{first_line, first_line_exec};
use crate::entities::{sum_rows, table_count_of, EntitiesPanel, EntitiesState};
use crate::schema::{ColumnInfo, ForeignKeyInfo, SchemaCache, TableInfo, rows_total};
use crate::text::{chars_eq_str, chars_of, dec, lemma_find_seq, push_dec, string_of_range};
use vstd::prelude::*;
use vstd::string::*;

verus! {

/// How a piece of panel text is drawn.
#[derive(Debug, PartialEq, Eq, Structural, Clone, Copy)]
pub enum TextStyle {
    /// Default style.
    Plain,
    /// Bold.
    Strong,
    /// Bold, in the accent colour.
    StrongAccent,
    /// Dimmed.
    Muted,
    /// Dimmed and italic.
    MutedItalic,
    /// Code.
    Code,
}

/// A run of panel text in one style.
pub struct StyledText {
    pub text: String,
    pub style: TextStyle,
}

/// A run as plain values.
pub open spec fn run_view(r: StyledText) -> (Seq<char>, TextStyle) {
    (r.text@, r.style)
}

/// Panel lines as plain values; an empty line has no runs.
pub open spec fn panel_view(ls: Seq<Vec<StyledText>>) -> Seq<Seq<(Seq<char>, TextStyle)>> {
    ls.map_values(|l: Vec<StyledText>| l@.map_values(|r: StyledText| run_view(r)))
}

fn push_runs(out: &mut Vec<Vec<StyledText>>, runs: Vec<StyledText>)
    ensures
        panel_view(final(out)@) == panel_view(old(out)@).push(runs@.map_values(|r: StyledText| run_view(r))),
{
    out.push(runs);
    assert(panel_view(out@) =~= panel_view(old(out)@).push(runs@.map_values(|r: StyledText| run_view(r))));
}

fn push_one(out: &mut Vec<Vec<StyledText>>, text: String, style: TextStyle)
    ensures
        panel_view(final(out)@) == panel_view(old(out)@).push(seq![(text@, style)]),
{
    let r = StyledText { text, style };
    let v = vec![r];
    assert(v@.map_values(|r: StyledText| run_view(r)) =~= seq![(text@, style)]);
    push_runs(out, v);
}

fn push_two(out: &mut Vec<Vec<StyledText>>, a: String, sa: TextStyle, b: String, sb: TextStyle)
    ensures
        panel_view(final(out)@) == panel_view(old(out)@).push(seq![(a@, sa), (b@, sb)]),
{
    let ra = StyledText { text: a, style: sa };
    let rb = StyledText { text: b, style: sb };
    let v = vec![ra, rb];
    assert(v@.map_values(|r: StyledText| run_view(r)) =~= seq![(a@, sa), (b@, sb)]);
    push_runs(out, v);
}

fn push_empty(out: &mut Vec<Vec<StyledText>>)
    ensures
        panel_view(final(out)@) == panel_view(old(out)@).push(Seq::empty()),
{
    let v: Vec<StyledText> = Vec::new();
    assert(v@.map_values(|r: StyledText| run_view(r)) =~= Seq::<(Seq<char>, TextStyle)>::empty());
    push_runs(out, v);
}

// =============================================================================
// Schema overview
// =============================================================================

/// One column line: name, then type with its markers.
pub open spec fn column_line(c: ColumnInfo) -> Seq<(Seq<char>, TextStyle)> {
    seq![
        ("  "@ + c.name@ + " "@, TextStyle::Plain),
        (c.col_type@ + (if c.is_pk {
            " PK"@
        } else {
            Seq::empty()
        }) + (if c.is_not_null {
            " NOT NULL"@
        } else {
            Seq::empty()
        }), TextStyle::Code),
    ]
}

/// One foreign-key line.
pub open spec fn fk_row(fk: ForeignKeyInfo) -> Seq<(Seq<char>, TextStyle)> {
    seq![("  FK: "@ + fk.from_col@ + " → "@ + fk.to_table@ + "("@ + fk.to_col@ + ")"@, TextStyle::Muted)]
}

/// The lines of one table: name and rows, its columns, its foreign keys, a blank line.
pub open spec fn table_lines(t: TableInfo) -> Seq<Seq<(Seq<char>, TextStyle)>> {
    seq![seq![(t.name@, TextStyle::StrongAccent), (" ("@ + dec(t.row_count as nat) + " rows)"@, TextStyle::Plain)]]
        + t.columns@.map_values(|c: ColumnInfo| column_line(c)) + t.foreign_keys@.map_values(
        |fk: ForeignKeyInfo| fk_row(fk),
    ) + seq![Seq::empty()]
}

/// The lines of the tables, in order.
pub open spec fn tables_lines(ts: Seq<TableInfo>) -> Seq<Seq<(Seq<char>, TextStyle)>>
    decreases ts.len(),
{
    if ts.len() == 0 {
        Seq::empty()
    } else {
        tables_lines(ts.drop_last()) + table_lines(ts.last())
    }
}

/// The schema overview of a known schema, with the number of tracked migrations when it
/// could be read.
pub open spec fn schema_overview(c: SchemaCache, migrations: Option<u64>) -> Seq<Seq<(Seq<char>, TextStyle)>> {
    seq![
        seq![
            (
                "Entity Database ("@ + dec(c.tables@.len()) + " tables, "@ + dec(rows_total(c.tables@) as nat)
                    + " rows, "@ + dec((c.db_size_bytes / 1024) as nat) + " KB)"@,
                TextStyle::StrongAccent,
            ),
        ],
        Seq::empty(),
    ] + (match migrations {
        Some(n) => if n > 0 {
            seq![seq![(dec(n as nat) + " migration(s) tracked"@, TextStyle::Muted)], Seq::empty()]
        } else {
            Seq::empty()
        },
        None => Seq::empty(),
    }) + tables_lines(c.tables@)
}

/// The panel lines while the schema is not known yet.
pub open spec fn loading_lines() -> Seq<Seq<(Seq<char>, TextStyle)>> {
    seq![seq![("Entity Database (loading...)"@, TextStyle::Plain)]]
}

fn push_table(out: &mut Vec<Vec<StyledText>>, t: &TableInfo)
    ensures
        panel_view(final(out)@) == panel_view(old(out)@) + table_lines(*t),
{
    let mut rows = String::from_str(" (");
    push_dec(&mut rows, t.row_count);
    rows.append(" rows)");
    push_two(out, t.name.clone(), TextStyle::StrongAccent, rows, TextStyle::Plain);
    let ghost h = panel_view(out@);
    let mut i: usize = 0;
    while i < t.columns.len()
        invariant
            i <= t.columns@.len(),
            panel_view(out@) == h + t.columns@.take(i as int).map_values(|c: ColumnInfo| column_line(c)),
        decreases t.columns@.len() - i,
    {
        let c = &t.columns[i];
        let mut a = String::from_str("  ");
        a.append(c.name.as_str());
        a.append(" ");
        let mut b = c.col_type.clone();
        if c.is_pk {
            b.append(" PK");
        }
        if c.is_not_null {
            b.append(" NOT NULL");
        }
        proof {
            assert(b@ =~= c.col_type@ + (if c.is_pk {
                " PK"@
            } else {
                Seq::<char>::empty()
            }) + (if c.is_not_null {
                " NOT NULL"@
            } else {
                Seq::<char>::empty()
            }));
        }
        push_two(out, a, TextStyle::Plain, b, TextStyle::Code);
        proof {
            assert(t.columns@.take(i + 1).map_values(|c: ColumnInfo| column_line(c)) =~= t.columns@.take(
                i as int,
            ).map_values(|c: ColumnInfo| column_line(c)).push(column_line(t.columns@[i as int])));
        }
        i = i + 1;
    }
    assert(t.columns@.take(t.columns@.len() as int) =~= t.columns@);
    let ghost h2 = panel_view(out@);
    let mut j: usize = 0;
    while j < t.foreign_keys.len()
        invariant
            j <= t.foreign_keys@.len(),
            panel_view(out@) == h2 + t.foreign_keys@.take(j as int).map_values(|fk: ForeignKeyInfo| fk_row(fk)),
        decreases t.foreign_keys@.len() - j,
    {
        let fk = &t.foreign_keys[j];
        let mut s = String::from_str("  FK: ");
        s.append(fk.from_col.as_str());
        s.append(" → ");
        s.append(fk.to_table.as_str());
        s.append("(");
        s.append(fk.to_col.as_str());
        s.append(")");
        push_one(out, s, TextStyle::Muted);
        proof {
            assert(t.foreign_keys@.take(j + 1).map_values(|fk: ForeignKeyInfo| fk_row(fk)) =~= t.foreign_keys@.take(
                j as int,
            ).map_values(|fk: ForeignKeyInfo| fk_row(fk)).push(fk_row(t.foreign_keys@[j as int])));
        }
        j = j + 1;
    }
    assert(t.foreign_keys@.take(t.foreign_keys@.len() as int) =~= t.foreign_keys@);
    push_empty(out);
    assert(panel_view(out@) =~= panel_view(old(out)@) + table_lines(*t));
}

/// The entity panel for a populated database: a heading with the table, row and size
/// counts, the number of tracked migrations when it is known and positive, then each table
/// with its row count, columns (type, primary key and not-null markers) and foreign keys.
/// While the schema is unknown, a loading line.
pub fn populated_blocks(es: &EntitiesState, migrations: Option<u64>) -> (r: Vec<Vec<StyledText>>)
    requires
        es.schema_cache matches Some(c) ==> rows_total(c.tables@) <= u64::MAX,
    ensures
        match es.schema_cache {
            Some(c) => panel_view(r@) == schema_overview(c, migrations),
            None => panel_view(r@) == loading_lines(),
        },
{
    let mut out: Vec<Vec<StyledText>> = Vec::new();
    assert(panel_view(out@) =~= Seq::<Seq<(Seq<char>, TextStyle)>>::empty());
    let cache = match &es.schema_cache {
        Some(c) => c,
        None => {
            push_one(&mut out, String::from_str("Entity Database (loading...)"), TextStyle::Plain);
            assert(panel_view(out@) =~= loading_lines());
            return out;
        },
    };
    let total = sum_rows(&cache.tables);
    let mut head = String::from_str("Entity Database (");
    push_dec(&mut head, cache.tables.len() as u64);
    head.append(" tables, ");
    push_dec(&mut head, total);
    head.append(" rows, ");
    push_dec(&mut head, cache.db_size_bytes / 1024);
    head.append(" KB)");
    push_one(&mut out, head, TextStyle::StrongAccent);
    push_empty(&mut out);
    match migrations {
        Some(n) => {
            if n > 0 {
                let mut m = String::new();
                push_dec(&mut m, n);
                m.append(" migration(s) tracked");
                push_one(&mut out, m, TextStyle::Muted);
                push_empty(&mut out);
            }
        },
        None => {},
    }
    let ghost h = panel_view(out@);
    let mut i: usize = 0;
    while i < cache.tables.len()
        invariant
            i <= cache.tables@.len(),
            panel_view(out@) == h + tables_lines(cache.tables@.take(i as int)),
        decreases cache.tables@.len() - i,
    {
        push_table(&mut out, &cache.tables[i]);
        proof {
            assert(cache.tables@.take(i + 1).drop_last() =~= cache.tables@.take(i as int));
        }
        i = i + 1;
    }
    assert(cache.tables@.take(cache.tables@.len() as int) =~= cache.tables@);
    assert(panel_view(out@) =~= schema_overview(*cache, migrations));
    out
}

// =============================================================================
// Onboarding guide
// =============================================================================

/// The onboarding guide for an empty database.
pub open spec fn onboarding_lines() -> Seq<Seq<(Seq<char>, TextStyle)>> {
    seq![
        seq![("Entity Database (empty)"@, TextStyle::Plain)],
        Seq::empty(),
        seq![("No entity tables yet. Use entity_sql to create your schema."@, TextStyle::Plain)],
        Seq::empty(),
        seq![("Quick start:"@, TextStyle::Strong)],
        seq![("  CREATE TABLE companies (id INTEGER PRIMARY KEY, name TEXT NOT NULL, country TEXT);"@, TextStyle::Code)],
        seq![("  CREATE TABLE people (id INTEGER PRIMARY KEY, name TEXT, role TEXT,"@, TextStyle::Code)],
        seq![("    company_id INTEGER REFERENCES companies(id));"@, TextStyle::Code)],
        seq![("  INSERT INTO companies (name, country) VALUES ('Acme', 'France') RETURNING *;"@, TextStyle::Code)],
        Seq::empty(),
        seq![("Tips:"@, TextStyle::Strong)],
        seq![("  - INTEGER PRIMARY KEY = auto-increment (don't use AUTOINCREMENT)"@, TextStyle::Plain)],
        seq![("  - FOREIGN KEY constraints model relationships"@, TextStyle::Plain)],
        seq![("  - SQLite types: TEXT, INTEGER, REAL, BLOB (VARCHAR(N) length is ignored)"@, TextStyle::Plain)],
        seq![("  - Use RETURNING * on INSERT/UPDATE to see results immediately"@, TextStyle::Plain)],
        seq![("  - For graph patterns: edges(source_id, target_id, rel_type)"@, TextStyle::Plain)],
    ]
}

/// The onboarding guide shown for an empty database.
pub fn empty_state_blocks() -> (r: Vec<Vec<StyledText>>)
    ensures
        panel_view(r@) == onboarding_lines(),
{
    let mut out: Vec<Vec<StyledText>> = Vec::new();
    assert(panel_view(out@) =~= Seq::<Seq<(Seq<char>, TextStyle)>>::empty());
    push_one(&mut out, String::from_str("Entity Database (empty)"), TextStyle::Plain);
    push_empty(&mut out);
    push_one(&mut out, String::from_str("No entity tables yet. Use entity_sql to create your schema."), TextStyle::Plain);
    push_empty(&mut out);
    push_one(&mut out, String::from_str("Quick start:"), TextStyle::Strong);
    push_one(
        &mut out,
        String::from_str("  CREATE TABLE companies (id INTEGER PRIMARY KEY, name TEXT NOT NULL, country TEXT);"),
        TextStyle::Code,
    );
    push_one(&mut out, String::from_str("  CREATE TABLE people (id INTEGER PRIMARY KEY, name TEXT, role TEXT,"), TextStyle::Code);
    push_one(&mut out, String::from_str("    company_id INTEGER REFERENCES companies(id));"), TextStyle::Code);
    push_one(
        &mut out,
        String::from_str("  INSERT INTO companies (name, country) VALUES ('Acme', 'France') RETURNING *;"),
        TextStyle::Code,
    );
    push_empty(&mut out);
    push_one(&mut out, String::from_str("Tips:"), TextStyle::Strong);
    push_one(
        &mut out,
        String::from_str("  - INTEGER PRIMARY KEY = auto-increment (don't use AUTOINCREMENT)"),
        TextStyle::Plain,
    );
    push_one(&mut out, String::from_str("  - FOREIGN KEY constraints model relationships"), TextStyle::Plain);
    push_one(
        &mut out,
        String::from_str("  - SQLite types: TEXT, INTEGER, REAL, BLOB (VARCHAR(N) length is ignored)"),
        TextStyle::Plain,
    );
    push_one(&mut out, String::from_str("  - Use RETURNING * on INSERT/UPDATE to see results immediately"), TextStyle::Plain);
    push_one(&mut out, String::from_str("  - For graph patterns: edges(source_id, target_id, rel_type)"), TextStyle::Plain);
    assert(panel_view(out@) =~= onboarding_lines());
    out
}

impl EntitiesPanel {
    /// The panel's blocks: the onboarding guide while the database has no table, else the
    /// schema overview (with the number of tracked migrations, when it could be read).
    pub fn blocks(&self, es: &EntitiesState, migrations: Option<u64>) -> (r: Vec<Vec<StyledText>>)
        requires
            es.schema_cache matches Some(c) ==> rows_total(c.tables@) <= u64::MAX,
        ensures
            table_count_of(*es) == 0 ==> panel_view(r@) == onboarding_lines(),
            table_count_of(*es) > 0 ==> (es.schema_cache matches Some(c) && panel_view(r@) == schema_overview(
                c,
                migrations,
            )),
    {
        if es.table_count() == 0 {
            empty_state_blocks()
        } else {
            populated_blocks(es, migrations)
        }
    }
}

// =============================================================================
// Result panels
// =============================================================================

/// The context type of entity result panels.
pub const ENTITY_RESULT_TYPE: &'static str = "entity_result";

/// A new `entity_result` panel holding a large query result.
pub struct ResultPanel {
    /// Panel id (`P<n>`).
    pub id: String,
    /// Global uid, `UID_<n>_P`.
    pub uid: String,
    /// The panel's title.
    pub title: String,
    /// The content, cached and stored in the panel's metadata for restoring.
    pub content: String,
    /// The panel's context type, `entity_result`.
    pub context_type: &'static str,
}

/// The result panel `panel_id` for a query result, taking the global uid counter's value;
/// also the counter's next value (saturating).
pub fn create_result_panel(panel_id: &str, global_next_uid: usize, title: &str, content: &str) -> (r: (
    ResultPanel,
    usize,
))
    ensures
        r.0.id@ == panel_id@,
        r.0.uid@ == "UID_"@ + dec(global_next_uid as nat) + "_P"@,
        r.0.title@ == title@,
        r.0.content@ == content@,
        r.0.context_type@ == ENTITY_RESULT_TYPE@,
        r.1 == if global_next_uid < usize::MAX {
            global_next_uid + 1
        } else {
            global_next_uid as int
        },
{
    let mut uid = String::from_str("UID_");
    push_dec(&mut uid, global_next_uid as u64);
    uid.append("_P");
    (
        ResultPanel {
            id: String::from_str(panel_id),
            uid,
            title: String::from_str(title),
            content: String::from_str(content),
            context_type: ENTITY_RESULT_TYPE,
        },
        global_next_uid.saturating_add(1),
    )
}

/// The lines of a text (`str::lines`): split at each newline (dropping a `\r` just before
/// it); a final newline does not start another line.
pub open spec fn text_lines(s: Seq<char>) -> Seq<Seq<char>>
    decreases s.len(),
{
    match first_line(s) {
        None => Seq::empty(),
        Some((l, rest)) => if rest.len() < s.len() {
            seq![l] + text_lines(rest)
        } else {
            seq![l]
        },
    }
}

/// What follows the first line is shorter than the text.
pub proof fn lemma_first_line_shrinks(s: Seq<char>)
    ensures
        first_line(s) matches Some((l, rest)) ==> rest.len() < s.len(),
{
    if s.len() > 0 {
        lemma_find_seq(s, seq!['\n']);
    }
}

/// A result panel line: the text line after one space.
pub open spec fn result_line(l: Seq<char>) -> Seq<(Seq<char>, TextStyle)> {
    seq![(" "@ + l, TextStyle::Plain)]
}

/// What a result panel shows for entry `selected` of `entries`.
pub open spec fn result_view(entries: Seq<ContextEntry>, selected: usize) -> Seq<Seq<(Seq<char>, TextStyle)>> {
    if selected < entries.len() && entries[selected as int].context_type@ == "entity_result"@ {
        match entries[selected as int].cached_content {
            None => seq![seq![("Loading..."@, TextStyle::MutedItalic)]],
            Some(c) => text_lines(c@).map_values(|l: Seq<char>| result_line(l)),
        }
    } else {
        seq![seq![("No entity result panel"@, TextStyle::Muted)]]
    }
}

fn content_lines(content: &str) -> (r: Vec<Vec<StyledText>>)
    ensures
        panel_view(r@) == text_lines(content@).map_values(|l: Seq<char>| result_line(l)),
{
    let v = chars_of(content);
    let mut out: Vec<Vec<StyledText>> = Vec::new();
    let mut from: usize = 0;
    let ghost done: Seq<Seq<char>> = Seq::empty();
    assert(v@.skip(0) =~= v@);
    while from < v.len()
        invariant
            from <= v@.len(),
            v@ == content@,
            text_lines(content@) == done + text_lines(v@.skip(from as int)),
            panel_view(out@) == done.map_values(|l: Seq<char>| result_line(l)),
        ensures
            from <= v@.len(),
            v@ == content@,
            text_lines(content@) == done + text_lines(v@.skip(from as int)),
            panel_view(out@) == done.map_values(|l: Seq<char>| result_line(l)),
            from >= v@.len() || text_lines(v@.skip(from as int)) == Seq::<Seq<char>>::empty(),
        decreases v@.len() - from,
    {
        let ghost rest_before = v@.skip(from as int);
        proof {
            lemma_first_line_shrinks(rest_before);
        }
        let found = first_line_exec(&v, from);
        match found {
            Some((a, b, n)) => {
                let mut s = String::from_str(" ");
                let line = string_of_range(&v, a, b);
                s.append(line.as_str());
                push_one(&mut out, s, TextStyle::Plain);
                proof {
                    let l = v@.subrange(a as int, b as int);
                    assert(text_lines(rest_before) == seq![l] + text_lines(v@.skip(n as int)));
                    assert(done + text_lines(rest_before) =~= done.push(l) + text_lines(v@.skip(n as int)));
                    assert(done.push(l).map_values(|l: Seq<char>| result_line(l)) =~= done.map_values(
                        |l: Seq<char>| result_line(l),
                    ).push(result_line(l)));
                    done = done.push(l);
                }
                from = n;
            },
            None => {
                proof {
                    assert(text_lines(rest_before) =~= Seq::<Seq<char>>::empty());
                }
                break;
            },
        }
    }
    proof {
        if from >= v@.len() {
            assert(v@.skip(from as int) =~= Seq::<char>::empty());
            assert(text_lines(v@.skip(from as int)) =~= Seq::<Seq<char>>::empty());
        }
        assert(done + Seq::<Seq<char>>::empty() =~= done);
    }
    out
}

/// The blocks of the entity result panel for the selected entry: its content line by line
/// (each after a space) when it is a result panel with loaded content, a loading line
/// while the content is not loaded, and a notice when the selection is not a result panel.
pub fn result_blocks(entries: &Vec<ContextEntry>, selected: usize) -> (r: Vec<Vec<StyledText>>)
    ensures
        panel_view(r@) == result_view(entries@, selected),
{
    let mut out: Vec<Vec<StyledText>> = Vec::new();
    assert(panel_view(out@) =~= Seq::<Seq<(Seq<char>, TextStyle)>>::empty());
    if selected < entries.len() {
        let e = &entries[selected];
        let t = chars_of(e.context_type.as_str());
        if chars_eq_str(&t, ENTITY_RESULT_TYPE) {
            match &e.cached_content {
                None => {
                    push_one(&mut out, String::from_str("Loading..."), TextStyle::MutedItalic);
                    assert(panel_view(out@) =~= result_view(entries@, selected));
                    return out;
                },
                Some(c) => {
                    return content_lines(c.as_str());
                },
            }
        }
    }
    push_one(&mut out, String::from_str("No entity result panel"), TextStyle::Muted);
    assert(panel_view(out@) =~= result_view(entries@, selected));
    out
}

/// The title of the entity result panel: the selected entry's name, or `Entity Result`
/// when nothing is selected.
pub fn result_title(entries: &Vec<ContextEntry>, selected: usize) -> (r: String)
    ensures
        r@ == if selected < entries@.len() {
            entries@[selected as int].name@
        } else {
            "Entity Result"@
        },
{
    if selected < entries.len() {
        entries[selected].name.clone()
    } else {
        String::from_str("Entity Result")
    }
}

/// A request to restore a result panel's content after a reload.
pub struct RestoreRequest {
    /// The panel's id.
    pub context_id: String,
    /// The content to restore.
    pub content: String,
}

/// The restore request for a result panel: only when its content is not loaded and its
/// stored content (`stored`, when the panel's metadata holds it as a string) is there.
pub fn restore_request(entry: &ContextEntry, stored: Option<String>) -> (r: Option<RestoreRequest>)
    ensures
        entry.cached_content is Some ==> r is None,
        entry.cached_content is None ==> match stored {
            Some(s) => r matches Some(q) && q.context_id@ == entry.id@ && q.content@ == s@,
            None => r is None,
        },
{
    if entry.cached_content.is_some() {
        return None;
    }
    match stored {
        Some(s) => Some(RestoreRequest { context_id: entry.id.clone(), content: s }),
        None => None,
    }
}

} // verus!
