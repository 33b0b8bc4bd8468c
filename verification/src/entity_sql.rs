//! The `entity_sql` tool's decisions around the database calls.
//!
//! The caller opens the connection and runs statements; these functions say which
//! statements to run and what to report for what the database answered.
use crate::schema::SchemaCache;
use crate::sql::{SqlKind, classify, split_statements, statements, str_views};
use crate::sql_tools::{
    enrich_error, enriched_error, format_markdown_table, markdown_table, row_views,
};
use crate::text::{
    contains_seq, contains_str, chars_of, dec, push_char, push_dec, to_uppercase, trim, trim_seq,
    uppercase_of, views,
};
use crate::tool::{ToolResult, ToolUse, err, plain_result, result_for};
use vstd::prelude::*;
use vstd::string::*;

verus! {

/// The error result for a call whose `sql` argument is blank, if it is.
pub fn check_sql_present(tool: &ToolUse, sql: &str) -> (r: Option<ToolResult>)
    ensures
        r is Some <==> trim_seq(sql@).len() == 0,
        r matches Some(res) ==> plain_result(*tool, "SQL parameter is empty."@, true, res),
{
    if trim(sql).is_empty() {
        Some(err(tool, "SQL parameter is empty."))
    } else {
        None
    }
}

/// Which of the three execution paths a statement text takes.
pub fn execution_kind(sql: &str) -> (r: SqlKind)
    ensures
        r == crate::sql::kind_of(sql@),
{
    classify(sql)
}

/// For a read query: the statements run first as a batch (all but the last), and the one
/// run as the query (the last, or the whole text when it splits into no statement).
pub fn select_plan(sql: &str) -> (r: (Vec<&str>, &str))
    ensures
        statements(sql@).len() == 0 ==> str_views(r.0@).len() == 0 && r.1@ == sql@,
        statements(sql@).len() > 0 ==> str_views(r.0@) == statements(sql@).drop_last() && r.1@
            == statements(sql@).last(),
{
    let mut stmts = split_statements(sql);
    let ghost all = str_views(stmts@);
    match stmts.pop() {
        Some(last) => {
            proof {
                assert(str_views(stmts@) =~= all.drop_last());
            }
            (stmts, last)
        },
        None => {
            assert(str_views(stmts@) =~= Seq::<Seq<char>>::empty());
            (stmts, sql)
        },
    }
}

/// Whether a data statement asks for its rows back (`RETURNING`, in any case).
pub fn has_returning(sql: &str) -> (r: bool)
    ensures
        r == contains_seq(uppercase_of(sql@), "RETURNING"@),
{
    let upper = to_uppercase(sql);
    let u = chars_of(upper.as_str());
    contains_str(&u, "RETURNING")
}

/// The report for data statements without `RETURNING`.
pub open spec fn affected_report(total: nat) -> Seq<char> {
    dec(total) + " row(s) affected."@
}

/// `{total} row(s) affected.`
pub fn affected_text(total_affected: usize) -> (r: String)
    ensures
        r@ == affected_report(total_affected as nat),
{
    let mut s = String::new();
    push_dec(&mut s, total_affected as u64);
    s.append(" row(s) affected.");
    assert(s@ =~= dec(total_affected as nat) + " row(s) affected."@);
    s
}

/// The report for data statements whose last one returned rows.
pub open spec fn returning_report(total: nat, cols: Seq<Seq<char>>, rows: Seq<Seq<Seq<char>>>) -> Seq<char> {
    let table = markdown_table(cols, rows);
    let tail = table + "\n\n("@ + dec(rows.len()) + " returned)"@;
    if total > 0 {
        dec(total) + " row(s) affected.\n\n"@ + tail
    } else {
        tail
    }
}

/// Report the rows returned by the last data statement, after `total_affected` rows changed
/// by the statements before it.
pub fn returning_text(total_affected: usize, cols: &[String], rows: &[Vec<String>]) -> (r: String)
    ensures
        r@ == returning_report(total_affected as nat, views(cols@), row_views(rows@)),
{
    let table = format_markdown_table(cols, rows);
    let mut s = String::new();
    if total_affected > 0 {
        push_dec(&mut s, total_affected as u64);
        s.append(" row(s) affected.\n\n");
    }
    s.append(table.as_str());
    s.append("\n\n(");
    push_dec(&mut s, rows.len() as u64);
    s.append(" returned)");
    s
}

/// Progress through the statements of a data call.
pub struct DmlRun {
    /// The index of the next statement to run.
    pub next: usize,
    /// Rows changed by the statements run so far (saturating).
    pub total: usize,
}

/// What to do next in a data call.
pub enum DmlAction {
    /// Run statement `index` and count the rows it changed.
    Execute { index: usize },
    /// Run statement `index`, the last one, as a query and report its rows after `total`.
    QueryReturning { index: usize, total: usize },
    /// All statements ran: report this text.
    Finish { report: String },
}

/// The start of a data call: at the first statement, nothing changed yet.
pub fn dml_start() -> (r: DmlRun)
    ensures
        r.next == 0,
        r.total == 0,
{
    DmlRun { next: 0, total: 0 }
}

/// The next step of a data call of `count` statements; `returning` when the text asks for
/// rows back (`RETURNING`): the last statement then runs as a query.
pub fn dml_action(count: usize, returning: bool, run: &DmlRun) -> (r: DmlAction)
    requires
        run.next <= count,
    ensures
        run.next < count && returning && run.next == count - 1 ==> (r matches DmlAction::QueryReturning {
            index,
            total,
        } && index == run.next && total == run.total),
        run.next < count && !(returning && run.next == count - 1) ==> (r matches DmlAction::Execute { index }
            && index == run.next),
        run.next == count ==> (r matches DmlAction::Finish { report } && report@ == affected_report(
            run.total as nat,
        )),
{
    if run.next < count {
        if returning && run.next == count - 1 {
            DmlAction::QueryReturning { index: run.next, total: run.total }
        } else {
            DmlAction::Execute { index: run.next }
        }
    } else {
        DmlAction::Finish { report: affected_text(run.total) }
    }
}

/// After statement `run.next` changed `affected` rows: on to the next statement, the count
/// added (saturating at `usize::MAX`).
pub fn dml_after_execute(run: DmlRun, affected: usize) -> (r: DmlRun)
    requires
        run.next < usize::MAX,
    ensures
        r.next == run.next + 1,
        r.total == if run.total + affected > usize::MAX {
            usize::MAX as int
        } else {
            run.total + affected
        },
{
    DmlRun { next: run.next + 1, total: run.total.saturating_add(affected) }
}

/// `Schema updated. Migration saved: {filename}`.
pub fn ddl_text(filename: &str) -> (r: String)
    ensures
        r@ == "Schema updated. Migration saved: "@ + filename@,
{
    let mut s = String::from_str("Schema updated. Migration saved: ");
    s.append(filename);
    s
}

/// The tool result for what the statements gave: their report, or the database error
/// enriched with the schema (as an error result).
pub fn sql_outcome_result(tool: &ToolUse, outcome: Result<String, String>, schema: &SchemaCache) -> (r:
    ToolResult)
    ensures
        match outcome {
            Ok(text) => plain_result(*tool, text@, false, r),
            Err(e) => plain_result(*tool, enriched_error(e@, *schema), true, r),
        },
{
    match outcome {
        Ok(text) => result_for(tool, text, false),
        Err(e) => {
            let content = enrich_error(e.as_str(), schema);
            result_for(tool, content, true)
        },
    }
}

/// A cell value as the database returned it. Real numbers arrive already printed.
pub enum CellValue {
    /// `NULL`, or a value that could not be read.
    Null,
    /// An integer.
    Integer(i64),
    /// A real number, printed.
    Real(String),
    /// Text (invalid UTF-8 already replaced).
    Text(String),
    /// A blob of the given length in bytes.
    Blob(usize),
}

/// Decimal form of a signed integer.
pub open spec fn dec_i64(n: i64) -> Seq<char> {
    if n < 0 {
        seq!['-'] + dec((-(n as int)) as nat)
    } else {
        dec(n as nat)
    }
}

/// The display text of a cell.
pub open spec fn cell_text(v: CellValue) -> Seq<char> {
    match v {
        CellValue::Null => "NULL"@,
        CellValue::Integer(n) => dec_i64(n),
        CellValue::Real(s) => s@,
        CellValue::Text(s) => s@,
        CellValue::Blob(len) => "[BLOB "@ + dec(len as nat) + " bytes]"@,
    }
}

/// Format a single cell value for markdown table display.
pub fn format_cell(v: &CellValue) -> (r: String)
    ensures
        r@ == cell_text(*v),
{
    match v {
        CellValue::Null => String::from_str("NULL"),
        CellValue::Integer(n) => {
            let mut s = String::new();
            if *n < 0 {
                push_char(&mut s, '-');
                let mag: u64 = if *n == i64::MIN {
                    9223372036854775808u64
                } else {
                    (-*n) as u64
                };
                push_dec(&mut s, mag);
                assert(s@ =~= seq!['-'] + dec((-(*n as int)) as nat));
            } else {
                push_dec(&mut s, *n as u64);
                assert(s@ =~= dec(*n as nat));
            }
            s
        },
        CellValue::Real(s) => s.clone(),
        CellValue::Text(s) => s.clone(),
        CellValue::Blob(len) => {
            let mut s = String::from_str("[BLOB ");
            push_dec(&mut s, *len as u64);
            s.append(" bytes]");
            s
        },
    }
}

} // verus!
