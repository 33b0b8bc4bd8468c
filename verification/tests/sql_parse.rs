use context_pilot::sql::{classify, split_statements, strip_leading_comments, SqlKind};

/// Multi-byte UTF-8 in a non-final `VALUES` row must not truncate the statement.
#[test]
fn multibyte_non_final_rows_not_truncated() {
    let sql = "INSERT INTO t(a,b) VALUES\n\
               ('s1','Réserve légale'),\n\
               ('s2','Disponibilités'),\n\
               ('s3','Créances diverses'),\n\
               ('s4','AT');";
    let stmts = split_statements(sql);
    assert_eq!(stmts.len(), 1, "expected one statement, got {stmts:?}");
    let stmt = stmts.first().copied().unwrap_or_default();
    assert!(stmt.ends_with("('s4','AT')"), "statement truncated: {stmt}");
    assert!(stmt.contains("Réserve légale"));
    assert!(stmt.contains("Créances diverses"));
}

/// Multiple statements separated by `;`, each carrying multi-byte content.
#[test]
fn multibyte_multiple_statements() {
    let sql = "INSERT INTO t VALUES ('é');\nINSERT INTO t VALUES ('à');";
    let stmts = split_statements(sql);
    assert_eq!(stmts.len(), 2, "got {stmts:?}");
    assert!(stmts.first().copied().unwrap_or_default().contains("'é'"));
    assert!(stmts.get(1).copied().unwrap_or_default().contains("'à'"));
}

/// Escaped quotes (`''`) inside a multi-byte string literal.
#[test]
fn escaped_quotes_with_multibyte() {
    let sql = "INSERT INTO t VALUES ('Cré''ance'),('x');";
    let stmts = split_statements(sql);
    assert_eq!(stmts.len(), 1, "got {stmts:?}");
    assert!(stmts.first().copied().unwrap_or_default().contains("Cré''ance"));
}

/// A `;` inside a string literal must not split the statement.
#[test]
fn semicolon_inside_multibyte_string() {
    let sql = "INSERT INTO t VALUES ('café; thé');";
    let stmts = split_statements(sql);
    assert_eq!(stmts.len(), 1, "got {stmts:?}");
    assert!(stmts.first().copied().unwrap_or_default().contains("café; thé"));
}

/// Pure-ASCII multi-statement splitting.
#[test]
fn ascii_multi_statement() {
    let sql = "CREATE TABLE t (a TEXT); INSERT INTO t VALUES ('x'); SELECT * FROM t;";
    let stmts = split_statements(sql);
    assert_eq!(stmts.len(), 3, "got {stmts:?}");
}

/// Classification of the basic statement kinds.
#[test]
fn classify_basic() {
    assert_eq!(classify("SELECT 1"), SqlKind::Select);
    assert_eq!(classify("  -- c\nINSERT INTO t VALUES (1)"), SqlKind::Dml);
    assert_eq!(classify("CREATE TABLE t (a)"), SqlKind::Ddl);
    assert_eq!(classify("WITH x AS (SELECT 1) INSERT INTO t SELECT * FROM x"), SqlKind::Dml);
    assert_eq!(classify("WITH x AS (SELECT 1) SELECT * FROM x"), SqlKind::Select);
}

#[test]
fn split_exact_pieces_and_comment_only_dropped() {
    let stmts = split_statements("  a ; ;-- only a comment\n; /* c */ ; 'x;y' ;b");
    assert_eq!(stmts, vec!["a", "'x;y'", "b"]);
}

#[test]
fn strip_comments_line_and_block() {
    assert_eq!(strip_leading_comments("  -- one\n /* two */  SELECT 1"), "SELECT 1");
    assert_eq!(strip_leading_comments("-- unterminated"), "");
    assert_eq!(strip_leading_comments("/* unterminated"), "");
    assert_eq!(strip_leading_comments("/*/ x */y"), "y");
}

#[test]
fn classify_comment_law_example() {
    assert_eq!(classify("-- note\nDROP TABLE t"), classify("DROP TABLE t"));
    assert_eq!(classify("/* c */ pragma table_info(t)"), SqlKind::Select);
    assert_eq!(classify("REPLACE INTO t VALUES (1)"), SqlKind::Dml);
    assert_eq!(classify("with x as (select 1) create table y as select 1"), SqlKind::Ddl);
}

/// Semicolons inside literals only: one statement, the whole text trimmed.
#[test]
fn quoted_semicolons_keep_one_statement() {
    let sql = "  UPDATE t SET a = 'x;y;z' WHERE b = ';'  ";
    let stmts = split_statements(sql);
    assert_eq!(stmts, vec!["UPDATE t SET a = 'x;y;z' WHERE b = ';'"]);
}

#[test]
fn split_of_joined_texts_is_joined_splits() {
    let a = "INSERT INTO t VALUES ('x;y'); -- c";
    let b = " SELECT 1; SELECT 2";
    let joined = format!("{a};{b}");
    let mut expected = split_statements(a);
    expected.extend(split_statements(b));
    assert_eq!(split_statements(&joined), expected);
}

#[test]
fn stripped_comments_are_a_trimmed_fixed_point() {
    let r = strip_leading_comments("  -- a\n /* b */  SELECT 1");
    assert_eq!(r, "SELECT 1");
    assert_eq!(strip_leading_comments(r), r);
    assert_eq!(strip_leading_comments("/* open"), "");
    assert_eq!(strip_leading_comments("-- only a comment"), "");
}
