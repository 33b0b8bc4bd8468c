//! SQL statement parsing: classification and statement splitting.
//!
//! These helpers run before SQL reaches the database. Positions are
//! character positions in the statement text; every slice taken here starts
//! and ends on a character, so multi-byte text is never cut.
use crate::text::{
    ascii_alpha, chars_eq_str, chars_of, contains_seq, contains_str, find_from,
    find_seq, is_ws, leading_ws, lemma_find_from_seq_unique, lemma_find_seq, lemma_leading_ws,
    lemma_leading_ws_unique, lemma_occurs_skip, occurs_at, occurs_at_exec, skip_ws_forward, starts_with_seq,
    to_uppercase, trim, trim_seq, trim_start_seq, uppercase_of,
};
use vstd::prelude::*;
use vstd::string::*;

verus! {

// =============================================================================
// Leading comments
// =============================================================================

/// `s` with leading whitespace, `--` line comments and `/* */` block comments removed.
///
/// A line comment runs to the next newline (the rest is dropped when there is none);
/// a block comment runs to the next `*/` (the rest is dropped when there is none).
pub open spec fn strip_comments_seq(s: Seq<char>) -> Seq<char>
    decreases s.len(),
{
    let t = trim_start_seq(s);
    if starts_with_seq(t, seq!['-', '-']) {
        match find_seq(t, seq!['\n']) {
            Some(p) => {
                proof {
                    lemma_leading_ws(s);
                    lemma_find_seq(t, seq!['\n']);
                }
                strip_comments_seq(t.skip(p + 1))
            },
            None => Seq::empty(),
        }
    } else if starts_with_seq(t, seq!['/', '*']) {
        match find_seq(t.skip(2), seq!['*', '/']) {
            Some(p) => {
                proof {
                    lemma_leading_ws(s);
                    lemma_find_seq(t.skip(2), seq!['*', '/']);
                }
                strip_comments_seq(t.skip(p + 4))
            },
            None => Seq::empty(),
        }
    } else {
        t
    }
}

/// Trimming leading whitespace twice is trimming it once.
pub proof fn lemma_trim_start_idempotent(s: Seq<char>)
    ensures
        trim_start_seq(trim_start_seq(s)) == trim_start_seq(s),
        leading_ws(trim_start_seq(s)) == 0,
{
    lemma_leading_ws(s);
    let t = trim_start_seq(s);
    if t.len() > 0 {
        assert(t[0] == s[leading_ws(s) as int]);
    }
    lemma_leading_ws_unique(t, 0);
    assert(t.skip(0) =~= t);
}

/// Comment stripping ignores leading whitespace.
pub proof fn lemma_strip_trim_start(s: Seq<char>)
    ensures
        strip_comments_seq(trim_start_seq(s)) == strip_comments_seq(s),
{
    lemma_trim_start_idempotent(s);
}

/// `r` is a suffix of `s`.
pub open spec fn is_suffix_of(r: Seq<char>, s: Seq<char>) -> bool {
    r.len() <= s.len() && s.skip(s.len() - r.len()) == r
}

/// Law: stripping leading comments gives a suffix of the text that starts with neither
/// whitespace nor a comment opener, and that stripping leaves unchanged.
pub proof fn law_strip_comments(s: Seq<char>)
    ensures
        is_suffix_of(strip_comments_seq(s), s),
        trim_start_seq(strip_comments_seq(s)) == strip_comments_seq(s),
        !starts_with_seq(strip_comments_seq(s), seq!['-', '-']),
        !starts_with_seq(strip_comments_seq(s), seq!['/', '*']),
        strip_comments_seq(strip_comments_seq(s)) == strip_comments_seq(s),
    decreases s.len(),
{
    lemma_trim_start_idempotent(s);
    lemma_leading_ws(s);
    let t = trim_start_seq(s);
    let r = strip_comments_seq(s);
    let w = leading_ws(s) as int;
    if starts_with_seq(t, seq!['-', '-']) {
        match find_seq(t, seq!['\n']) {
            Some(p) => {
                lemma_find_seq(t, seq!['\n']);
                let u = t.skip(p + 1);
                law_strip_comments(u);
                assert(s.skip(w + p + 1) =~= u);
                assert(s.skip(s.len() - r.len()) =~= u.skip(u.len() - r.len()));
            },
            None => {
                lemma_empty_stripped();
                assert(s.skip(s.len() as int) =~= Seq::<char>::empty());
            },
        }
    } else if starts_with_seq(t, seq!['/', '*']) {
        match find_seq(t.skip(2), seq!['*', '/']) {
            Some(p) => {
                lemma_find_seq(t.skip(2), seq!['*', '/']);
                let u = t.skip(p + 4);
                law_strip_comments(u);
                assert(s.skip(w + p + 4) =~= u);
                assert(s.skip(s.len() - r.len()) =~= u.skip(u.len() - r.len()));
            },
            None => {
                lemma_empty_stripped();
                assert(s.skip(s.len() as int) =~= Seq::<char>::empty());
            },
        }
    } else {
        assert(r == t);
        assert(s.skip(s.len() - r.len()) =~= t);
        lemma_strip_trim_start(s);
    }
}

/// The empty text is stripped to itself.
proof fn lemma_empty_stripped()
    ensures
        trim_start_seq(Seq::<char>::empty()) == Seq::<char>::empty(),
        strip_comments_seq(Seq::<char>::empty()) == Seq::<char>::empty(),
{
    lemma_leading_ws(Seq::<char>::empty());
    assert(Seq::<char>::empty().skip(0) =~= Seq::<char>::empty());
}

/// Index `k` of `v` after which `v` holds no leading whitespace.
spec fn at_word(v: Seq<char>, k: int) -> bool {
    &&& 0 <= k <= v.len()
    &&& (k < v.len() ==> !is_ws(v[k]))
}

proof fn lemma_at_word(v: Seq<char>, k: int)
    requires
        at_word(v, k),
    ensures
        trim_start_seq(v.skip(k)) == v.skip(k),
{
    let t = v.skip(k);
    if t.len() > 0 {
        assert(t[0] == v[k]);
    }
    lemma_leading_ws_unique(t, 0);
    assert(t.skip(0) =~= t);
}

/// `str::trim_start` followed by dropping leading `--` and `/* */` comments.
pub fn strip_leading_comments(sql: &str) -> (r: &str)
    ensures
        r@ == strip_comments_seq(sql@),
{
    let v = chars_of(sql);
    let n = v.len();
    let mut k = skip_ws_forward(&v, 0);
    proof {
        lemma_leading_ws_unique(sql@, k as int);
        assert(sql@.skip(k as int) == trim_start_seq(sql@));
        lemma_strip_trim_start(sql@);
    }
    let dash = vec!['-', '-'];
    let open = vec!['/', '*'];
    let close = vec!['*', '/'];
    let nl = vec!['\n'];
    loop
        invariant
            n == v@.len(),
            v@ == sql@,
            at_word(v@, k as int),
            strip_comments_seq(sql@) == strip_comments_seq(v@.skip(k as int)),
            dash@ == seq!['-', '-'],
            open@ == seq!['/', '*'],
            close@ == seq!['*', '/'],
            nl@ == seq!['\n'],
        decreases n - k,
    {
        let ghost t = v@.skip(k as int);
        proof {
            lemma_at_word(v@, k as int);
            lemma_strip_trim_start(t);
        }
        if occurs_at_exec(&v, &dash, k) {
            assert(starts_with_seq(t, seq!['-', '-'])) by {
                assert(t.take(2) =~= v@.subrange(k as int, k + 2));
            }
            match find_from(&v, &nl, k) {
                Some(p) => {
                    proof {
                        assert forall|j: int| 0 <= j < p - k implies !occurs_at(t, seq!['\n'], j) by {
                            lemma_occurs_skip(v@, seq!['\n'], k as int, j);
                        }
                        lemma_occurs_skip(v@, seq!['\n'], k as int, p - k);
                        lemma_find_from_seq_unique(t, seq!['\n'], 0, Some(p - k));
                        assert(t.skip(p - k + 1) =~= v@.skip(p + 1));
                    }
                    let k2 = skip_ws_forward(&v, p + 1);
                    proof {
                        let u = v@.skip(p + 1);
                        lemma_leading_ws_unique(u, k2 - p - 1);
                        assert(trim_start_seq(u) =~= v@.skip(k2 as int));
                        lemma_strip_trim_start(u);
                    }
                    k = k2;
                },
                None => {
                    proof {
                        assert forall|j: int| 0 <= j implies !occurs_at(t, seq!['\n'], j) by {
                            lemma_occurs_skip(v@, seq!['\n'], k as int, j);
                        }
                        lemma_find_from_seq_unique(t, seq!['\n'], 0, None);
                    }
                    return sql.substring_char(n, n);
                },
            }
        } else if occurs_at_exec(&v, &open, k) {
            assert(starts_with_seq(t, seq!['/', '*'])) by {
                assert(t.take(2) =~= v@.subrange(k as int, k + 2));
                assert(!starts_with_seq(t, seq!['-', '-']));
            }
            let ghost t2 = t.skip(2);
            assert(t2 =~= v@.skip(k + 2));
            match find_from(&v, &close, k + 2) {
                Some(p) => {
                    proof {
                        assert forall|j: int| 0 <= j < p - k - 2 implies !occurs_at(t2, seq!['*', '/'], j) by {
                            lemma_occurs_skip(v@, seq!['*', '/'], k + 2, j);
                        }
                        lemma_occurs_skip(v@, seq!['*', '/'], k + 2, p - k - 2);
                        lemma_find_from_seq_unique(t2, seq!['*', '/'], 0, Some(p - k - 2));
                        assert(t.skip(p - k - 2 + 4) =~= v@.skip(p + 2));
                    }
                    let k2 = skip_ws_forward(&v, p + 2);
                    proof {
                        let u = v@.skip(p + 2);
                        lemma_leading_ws_unique(u, k2 - p - 2);
                        assert(trim_start_seq(u) =~= v@.skip(k2 as int));
                        lemma_strip_trim_start(u);
                    }
                    k = k2;
                },
                None => {
                    proof {
                        assert forall|j: int| 0 <= j implies !occurs_at(t2, seq!['*', '/'], j) by {
                            lemma_occurs_skip(v@, seq!['*', '/'], k + 2, j);
                        }
                        lemma_find_from_seq_unique(t2, seq!['*', '/'], 0, None);
                    }
                    return sql.substring_char(n, n);
                },
            }
        } else {
            assert(!starts_with_seq(t, seq!['-', '-'])) by {
                if t.len() >= 2 {
                    assert(t.take(2) =~= v@.subrange(k as int, k + 2));
                }
            }
            assert(!starts_with_seq(t, seq!['/', '*'])) by {
                if t.len() >= 2 {
                    assert(t.take(2) =~= v@.subrange(k as int, k + 2));
                }
            }
            return sql.substring_char(k, n);
        }
    }
}

// =============================================================================
// Classification
// =============================================================================

/// Broad category of a SQL statement.
#[derive(Debug, Clone, Copy, PartialEq, Eq, Structural)]
pub enum SqlKind {
    /// `SELECT`, `EXPLAIN`, `PRAGMA` (read-only).
    Select,
    /// `INSERT`, `UPDATE`, `DELETE` (data manipulation).
    Dml,
    /// `CREATE`, `ALTER`, `DROP` (schema change).
    Ddl,
}

/// The leading run of ASCII letters.
pub open spec fn first_word(s: Seq<char>) -> Seq<char>
    decreases s.len(),
{
    if s.len() > 0 && ascii_alpha(s[0]) {
        seq![s[0]] + first_word(s.drop_first())
    } else {
        Seq::empty()
    }
}

/// Kind of a `WITH` statement, from its upper-cased text.
pub open spec fn cte_kind(upper: Seq<char>) -> SqlKind {
    if contains_seq(upper, "CREATE "@) || contains_seq(upper, "ALTER "@) || contains_seq(
        upper,
        "DROP "@,
    ) {
        SqlKind::Ddl
    } else if contains_seq(upper, "INSERT "@) || contains_seq(upper, "UPDATE "@) || contains_seq(
        upper,
        "DELETE "@,
    ) || contains_seq(upper, "REPLACE "@) {
        SqlKind::Dml
    } else {
        SqlKind::Select
    }
}

/// Kind of a statement from its trimmed, upper-cased text: decided by its first word.
pub open spec fn kind_of_upper(upper: Seq<char>) -> SqlKind {
    let w = first_word(upper);
    if w == "SELECT"@ || w == "EXPLAIN"@ || w == "PRAGMA"@ {
        SqlKind::Select
    } else if w == "CREATE"@ || w == "ALTER"@ || w == "DROP"@ {
        SqlKind::Ddl
    } else if w == "WITH"@ {
        cte_kind(upper)
    } else {
        SqlKind::Dml
    }
}

/// Kind of a statement: comments stripped, trimmed, upper-cased, then by first word.
pub open spec fn kind_of(sql: Seq<char>) -> SqlKind {
    kind_of_upper(uppercase_of(trim_seq(strip_comments_seq(sql))))
}

/// The leading ASCII letters of `v`.
fn first_word_exec(v: &Vec<char>) -> (r: Vec<char>)
    ensures
        r@ == first_word(v@),
{
    let mut k: usize = 0;
    while k < v.len() && (('a' <= v[k] && v[k] <= 'z') || ('A' <= v[k] && v[k] <= 'Z'))
        invariant
            k <= v@.len(),
            forall|j: int| 0 <= j < k ==> ascii_alpha(#[trigger] v@[j]),
        decreases v@.len() - k,
    {
        k = k + 1;
    }
    proof {
        lemma_first_word(v@, k as int);
    }
    let mut r: Vec<char> = Vec::new();
    let mut i: usize = 0;
    while i < k
        invariant
            k <= v@.len(),
            i <= k,
            r@ == v@.take(i as int),
        decreases k - i,
    {
        r.push(v[i]);
        assert(v@.take(i + 1) =~= v@.take(i as int).push(v@[i as int]));
        i = i + 1;
    }
    r
}

proof fn lemma_first_word(s: Seq<char>, k: int)
    requires
        0 <= k <= s.len(),
        forall|j: int| 0 <= j < k ==> ascii_alpha(#[trigger] s[j]),
        k < s.len() ==> !ascii_alpha(s[k]),
    ensures
        first_word(s) == s.take(k),
    decreases s.len(),
{
    if k > 0 {
        assert(ascii_alpha(s[0]));
        assert forall|j: int| 0 <= j < k - 1 implies ascii_alpha(#[trigger] s.drop_first()[j]) by {
            assert(s.drop_first()[j] == s[j + 1]);
        }
        if k - 1 < s.drop_first().len() {
            assert(s.drop_first()[k - 1] == s[k]);
        }
        lemma_first_word(s.drop_first(), k - 1);
        assert(seq![s[0]] + s.drop_first().take(k - 1) =~= s.take(k));
    } else {
        assert(s.take(0) =~= Seq::<char>::empty());
    }
}

/// Classify a `WITH` statement by scanning its upper-cased text for DDL, then DML keywords.
pub fn classify_cte(upper: &str) -> (r: SqlKind)
    ensures
        r == cte_kind(upper@),
{
    let u = chars_of(upper);
    if contains_str(&u, "CREATE ") || contains_str(&u, "ALTER ") || contains_str(&u, "DROP ") {
        return SqlKind::Ddl;
    }
    if contains_str(&u, "INSERT ") || contains_str(&u, "UPDATE ") || contains_str(&u, "DELETE ")
        || contains_str(&u, "REPLACE ") {
        return SqlKind::Dml;
    }
    SqlKind::Select
}

/// Classify a statement from its trimmed, upper-cased text by its first keyword.
pub fn classify_upper(upper: &str) -> (r: SqlKind)
    ensures
        r == kind_of_upper(upper@),
{
    let u = chars_of(upper);
    let w = first_word_exec(&u);
    if chars_eq_str(&w, "SELECT") || chars_eq_str(&w, "EXPLAIN") || chars_eq_str(&w, "PRAGMA") {
        SqlKind::Select
    } else if chars_eq_str(&w, "CREATE") || chars_eq_str(&w, "ALTER") || chars_eq_str(&w, "DROP") {
        SqlKind::Ddl
    } else if chars_eq_str(&w, "WITH") {
        classify_cte(upper)
    } else {
        SqlKind::Dml
    }
}

/// Classify a SQL statement by its first keyword.
///
/// Leading comments are stripped first; `WITH` statements are classified by the
/// keywords that follow; anything unrecognised is `Dml` (the conservative choice).
pub fn classify(sql: &str) -> (r: SqlKind)
    ensures
        r == kind_of(sql@),
{
    let stripped = strip_leading_comments(sql);
    let upper = to_uppercase(trim(stripped));
    classify_upper(upper.as_str())
}

/// `u` holds a DDL keyword (`CREATE `, `ALTER `, `DROP `).
pub open spec fn has_ddl_keyword(u: Seq<char>) -> bool {
    contains_seq(u, "CREATE "@) || contains_seq(u, "ALTER "@) || contains_seq(u, "DROP "@)
}

/// `u` holds a data-change keyword (`INSERT `, `UPDATE `, `DELETE `, `REPLACE `).
pub open spec fn has_dml_keyword(u: Seq<char>) -> bool {
    contains_seq(u, "INSERT "@) || contains_seq(u, "UPDATE "@) || contains_seq(u, "DELETE "@) || contains_seq(
        u,
        "REPLACE "@,
    )
}

/// Law: a `WITH` statement is a schema change when it holds a DDL keyword, else a data
/// change when it holds any of `INSERT`, `UPDATE`, `DELETE`, `REPLACE` (each followed by a
/// space), else a read query. Stated for the upper-cased statement text and for the
/// statement as `classify` takes it.
pub proof fn law_with_statement_kind(sql: Seq<char>)
    ensures
        ({
            let u = uppercase_of(trim_seq(strip_comments_seq(sql)));
            first_word(u) == "WITH"@ ==> {
                &&& has_ddl_keyword(u) ==> kind_of(sql) == SqlKind::Ddl
                &&& !has_ddl_keyword(u) && has_dml_keyword(u) ==> kind_of(sql) == SqlKind::Dml
                &&& !has_ddl_keyword(u) && !has_dml_keyword(u) ==> kind_of(sql) == SqlKind::Select
            }
        }),
{
    let u = uppercase_of(trim_seq(strip_comments_seq(sql)));
    if first_word(u) == "WITH"@ {
        reveal_strlit("WITH");
        reveal_strlit("SELECT");
        reveal_strlit("EXPLAIN");
        reveal_strlit("PRAGMA");
        reveal_strlit("CREATE");
        reveal_strlit("ALTER");
        reveal_strlit("DROP");
        let w = "WITH"@;
        assert(w.len() == 4 && w[0] == 'W');
        assert("SELECT"@.len() == 6 && "EXPLAIN"@.len() == 7 && "PRAGMA"@.len() == 6);
        assert("CREATE"@.len() == 6 && "ALTER"@.len() == 5 && "DROP"@[0] == 'D');
        assert(first_word(u) != "SELECT"@ && first_word(u) != "EXPLAIN"@ && first_word(u) != "PRAGMA"@);
        assert(first_word(u) != "CREATE"@ && first_word(u) != "ALTER"@ && first_word(u) != "DROP"@);
    }
}

/// Law: a statement whose first word is `SELECT`, `EXPLAIN` or `PRAGMA` is a read query;
/// `CREATE`, `ALTER` or `DROP` a schema change; any other word but `WITH` (including none)
/// a data change, the conservative choice.
pub proof fn law_first_word_kind(upper: Seq<char>)
    ensures
        first_word(upper) == "SELECT"@ || first_word(upper) == "EXPLAIN"@ || first_word(upper) == "PRAGMA"@
            ==> kind_of_upper(upper) == SqlKind::Select,
        first_word(upper) == "CREATE"@ || first_word(upper) == "ALTER"@ || first_word(upper) == "DROP"@
            ==> kind_of_upper(upper) == SqlKind::Ddl,
        first_word(upper) != "SELECT"@ && first_word(upper) != "EXPLAIN"@ && first_word(upper) != "PRAGMA"@
            && first_word(upper) != "CREATE"@ && first_word(upper) != "ALTER"@ && first_word(upper) != "DROP"@
            && first_word(upper) != "WITH"@ ==> kind_of_upper(upper) == SqlKind::Dml,
{
    reveal_strlit("WITH");
    reveal_strlit("SELECT");
    reveal_strlit("EXPLAIN");
    reveal_strlit("PRAGMA");
    reveal_strlit("CREATE");
    reveal_strlit("ALTER");
    reveal_strlit("DROP");
    let w = first_word(upper);
    if w == "SELECT"@ || w == "EXPLAIN"@ || w == "PRAGMA"@ {
        assert(w.len() >= 6);
    }
    if w == "CREATE"@ || w == "ALTER"@ {
        assert(w.len() >= 5);
        assert(w != "SELECT"@ && w != "EXPLAIN"@ && w != "PRAGMA"@) by {
            if w == "CREATE"@ {
                assert(w[0] == 'C');
                assert("SELECT"@[0] == 'S' && "PRAGMA"@[0] == 'P');
            }
        }
    }
    if w == "DROP"@ {
        assert(w.len() == 4);
    }
}

/// Law: `classify_cte`'s verdict on an upper-cased `WITH` text: a data-change keyword with no
/// DDL keyword makes it a data change, whatever else the text holds.
pub proof fn law_cte_data_change(upper: Seq<char>)
    ensures
        !has_ddl_keyword(upper) && contains_seq(upper, "UPDATE "@) ==> cte_kind(upper) == SqlKind::Dml,
        !has_ddl_keyword(upper) && contains_seq(upper, "INSERT "@) ==> cte_kind(upper) == SqlKind::Dml,
        !has_ddl_keyword(upper) && contains_seq(upper, "DELETE "@) ==> cte_kind(upper) == SqlKind::Dml,
        !has_ddl_keyword(upper) && contains_seq(upper, "REPLACE "@) ==> cte_kind(upper) == SqlKind::Dml,
        has_ddl_keyword(upper) ==> cte_kind(upper) == SqlKind::Ddl,
        !has_ddl_keyword(upper) && !has_dml_keyword(upper) ==> cte_kind(upper) == SqlKind::Select,
{
}

/// Law: a leading `--` line comment does not change how a statement is classified.
pub proof fn law_line_comment_ignored(comment: Seq<char>, sql: Seq<char>)
    requires
        !comment.contains('\n'),
    ensures
        kind_of(seq!['-', '-'] + comment + seq!['\n'] + sql) == kind_of(sql),
{
    let s = seq!['-', '-'] + comment + seq!['\n'] + sql;
    lemma_leading_ws_unique(s, 0);
    assert(trim_start_seq(s) =~= s);
    assert(s.take(2) =~= seq!['-', '-']);
    let p: int = comment.len() as int + 2;
    assert(occurs_at(s, seq!['\n'], p)) by {
        assert(s.subrange(p, p + 1) =~= seq!['\n']);
    }
    assert forall|j: int| 0 <= j < p implies !occurs_at(s, seq!['\n'], j) by {
        if occurs_at(s, seq!['\n'], j) {
            assert(s.subrange(j, j + 1)[0] == s[j]);
            if j >= 2 {
                assert(s[j] == comment[j - 2]);
            }
        }
    }
    lemma_find_from_seq_unique(s, seq!['\n'], 0, Some(p));
    assert(s.skip(p + 1) =~= sql);
}

// =============================================================================
// Statement splitting
// =============================================================================

/// Number of single quotes in `s`.
pub open spec fn quote_count(s: Seq<char>) -> nat
    decreases s.len(),
{
    if s.len() == 0 {
        0
    } else {
        quote_count(s.drop_last()) + if s.last() == '\'' {
            1nat
        } else {
            0nat
        }
    }
}

/// `s[i]` is a `;` outside any single-quoted literal: an even number of quotes precede it.
/// (An escaped quote `''` inside a literal counts twice, so parity is unchanged.)
pub open spec fn unquoted_semicolon(s: Seq<char>, i: int) -> bool {
    s[i] == ';' && quote_count(s.take(i)) % 2 == 0
}

/// The pieces of `s` between unquoted semicolons (always at least one).
pub open spec fn pieces(s: Seq<char>) -> Seq<Seq<char>>
    decreases s.len(),
{
    if s.len() == 0 {
        seq![Seq::empty()]
    } else {
        let prev = pieces(s.drop_last());
        if unquoted_semicolon(s, s.len() - 1) {
            prev.push(Seq::empty())
        } else {
            prev.update(prev.len() - 1, prev.last().push(s.last()))
        }
    }
}

/// A piece is a statement when its trimmed text is non-empty and not only comments.
pub open spec fn is_statement(p: Seq<char>) -> bool {
    trim_seq(p).len() > 0 && strip_comments_seq(trim_seq(p)).len() > 0
}

/// The trimmed statements among `ps`, in order.
pub open spec fn kept(ps: Seq<Seq<char>>) -> Seq<Seq<char>>
    decreases ps.len(),
{
    if ps.len() == 0 {
        Seq::empty()
    } else if is_statement(ps.last()) {
        kept(ps.drop_last()).push(trim_seq(ps.last()))
    } else {
        kept(ps.drop_last())
    }
}

/// The statements of a SQL text: its pieces between unquoted semicolons, trimmed,
/// without the empty and comment-only ones.
pub open spec fn statements(s: Seq<char>) -> Seq<Seq<char>> {
    kept(pieces(s))
}

/// The views of a sequence of string slices.
pub open spec fn str_views(v: Seq<&str>) -> Seq<Seq<char>> {
    v.map_values(|x: &str| x@)
}

/// No `;` of `s` stands outside a single-quoted literal.
pub open spec fn no_unquoted_semicolon(s: Seq<char>) -> bool {
    forall|i: int| 0 <= i < s.len() ==> !#[trigger] unquoted_semicolon(s, i)
}

/// Law: a `;` inside a string literal never splits a statement. A text whose semicolons
/// all stand inside literals is one piece, and gives at most one statement: the whole text,
/// trimmed.
pub proof fn law_quoted_semicolons_do_not_split(s: Seq<char>)
    requires
        no_unquoted_semicolon(s),
    ensures
        pieces(s) == seq![s],
        statements(s).len() <= 1,
        is_statement(s) ==> statements(s) == seq![trim_seq(s)],
    decreases s.len(),
{
    if s.len() > 0 {
        let d = s.drop_last();
        assert forall|i: int| 0 <= i < d.len() implies !#[trigger] unquoted_semicolon(d, i) by {
            assert(d.take(i) =~= s.take(i));
            assert(!unquoted_semicolon(s, i));
        }
        law_quoted_semicolons_do_not_split(d);
        assert(!unquoted_semicolon(s, s.len() - 1));
        assert(d.push(s.last()) =~= s);
        assert(pieces(s) =~= seq![s]);
    } else {
        assert(s =~= Seq::<char>::empty());
    }
    let ps = seq![s];
    assert(ps.drop_last() =~= Seq::<Seq<char>>::empty());
    assert(ps.last() == s);
    assert(kept(ps.drop_last()) == Seq::<Seq<char>>::empty());
    assert(statements(s) == kept(ps));
    if is_statement(s) {
        assert(kept(ps) =~= seq![trim_seq(s)]);
    } else {
        assert(kept(ps) =~= Seq::<Seq<char>>::empty());
    }
}

/// Quotes of two texts joined add up.
proof fn lemma_quote_count_concat(x: Seq<char>, y: Seq<char>)
    ensures
        quote_count(x + y) == quote_count(x) + quote_count(y),
    decreases y.len(),
{
    if y.len() == 0 {
        assert(x + y =~= x);
    } else {
        lemma_quote_count_concat(x, y.drop_last());
        assert((x + y).drop_last() =~= x + y.drop_last());
    }
}

/// After a text whose last piece is empty and whose quotes are balanced, the pieces of what
/// follows are the pieces of that text alone.
proof fn lemma_pieces_after_break(c: Seq<char>, b: Seq<char>)
    requires
        quote_count(c) % 2 == 0,
        pieces(c).last() == Seq::<char>::empty(),
    ensures
        pieces(c + b) == pieces(c).drop_last() + pieces(b),
    decreases b.len(),
{
    lemma_pieces_nonempty(c);
    if b.len() == 0 {
        assert(c + b =~= c);
        assert(pieces(c).drop_last() + pieces(b) =~= pieces(c));
    } else {
        let b1 = b.drop_last();
        lemma_pieces_after_break(c, b1);
        lemma_pieces_nonempty(b1);
        let cb = c + b;
        assert(cb.drop_last() =~= c + b1);
        assert(cb.take(cb.len() - 1) =~= c + b1);
        assert(b.take(b.len() - 1) =~= b1);
        lemma_quote_count_concat(c, b1);
        assert(cb.last() == b.last());
        assert(unquoted_semicolon(cb, cb.len() - 1) == unquoted_semicolon(b, b.len() - 1));
        let pp = pieces(c).drop_last();
        let q = pieces(b1);
        if unquoted_semicolon(b, b.len() - 1) {
            assert((pp + q).push(Seq::empty()) =~= pp + q.push(Seq::empty()));
        } else {
            assert((pp + q).update((pp + q).len() - 1, (pp + q).last().push(b.last())) =~= pp + q.update(
                q.len() - 1,
                q.last().push(b.last()),
            ));
        }
    }
}

/// The statements kept from two lists of pieces are those kept from each, in order.
proof fn lemma_kept_concat(p: Seq<Seq<char>>, q: Seq<Seq<char>>)
    ensures
        kept(p + q) == kept(p) + kept(q),
    decreases q.len(),
{
    if q.len() == 0 {
        assert(p + q =~= p);
        assert(kept(p) + kept(q) =~= kept(p));
    } else {
        lemma_kept_concat(p, q.drop_last());
        assert((p + q).drop_last() =~= p + q.drop_last());
        assert((p + q).last() == q.last());
        if is_statement(q.last()) {
            assert((kept(p) + kept(q.drop_last())).push(trim_seq(q.last())) =~= kept(p) + kept(
                q.drop_last(),
            ).push(trim_seq(q.last())));
        }
    }
}

/// Law: splitting two texts joined by a `;` gives the statements of the first, then those
/// of the second, when the first does not end inside a string literal (an even number of
/// single quotes).
pub proof fn law_split_joined(a: Seq<char>, b: Seq<char>)
    requires
        quote_count(a) % 2 == 0,
    ensures
        statements(a + seq![';'] + b) == statements(a) + statements(b),
{
    let c = a + seq![';'];
    assert(c.drop_last() =~= a);
    assert(c.take(c.len() - 1) =~= a);
    assert(unquoted_semicolon(c, c.len() - 1));
    assert(pieces(c) == pieces(a).push(Seq::empty()));
    assert(pieces(c).drop_last() =~= pieces(a));
    lemma_quote_count_concat(a, seq![';']);
    assert(seq![';'].drop_last() =~= Seq::<char>::empty());
    assert(quote_count(seq![';']) == 0);
    lemma_pieces_after_break(c, b);
    assert(a + seq![';'] + b =~= c + b);
    lemma_kept_concat(pieces(a), pieces(b));
}

pub proof fn lemma_pieces_nonempty(s: Seq<char>)
    ensures
        pieces(s).len() >= 1,
    decreases s.len(),
{
    if s.len() > 0 {
        lemma_pieces_nonempty(s.drop_last());
    }
}

proof fn lemma_step(s: Seq<char>, i: int)
    requires
        0 <= i < s.len(),
    ensures
        quote_count(s.take(i + 1)) == quote_count(s.take(i)) + if s[i] == '\'' {
            1nat
        } else {
            0nat
        },
        pieces(s.take(i + 1)) == if s[i] == ';' && quote_count(s.take(i)) % 2 == 0 {
            pieces(s.take(i)).push(Seq::empty())
        } else {
            pieces(s.take(i)).update(
                pieces(s.take(i)).len() - 1,
                pieces(s.take(i)).last().push(s[i]),
            )
        },
{
    let t = s.take(i + 1);
    assert(t.drop_last() =~= s.take(i));
    assert(t.take(i) =~= s.take(i));
    assert(t.last() == s[i]);
}

/// Split SQL on `;` while respecting single-quoted string literals (with `''` escapes).
///
/// Each statement is trimmed; empty and comment-only statements are dropped.
pub fn split_statements(sql: &str) -> (r: Vec<&str>)
    ensures
        str_views(r@) == statements(sql@),
{
    let v = chars_of(sql);
    let n = v.len();
    let mut results: Vec<&str> = Vec::new();
    let mut start: usize = 0;
    let mut in_string = false;
    let mut i: usize = 0;
    proof {
        assert(v@.take(0) =~= Seq::<char>::empty());
        assert(v@.subrange(0, 0) =~= Seq::<char>::empty());
        assert(str_views(results@) =~= Seq::<Seq<char>>::empty());
    }
    while i < n
        invariant
            n == v@.len(),
            v@ == sql@,
            start <= i <= n,
            in_string == (quote_count(v@.take(i as int)) % 2 == 1),
            pieces(v@.take(i as int)).last() == v@.subrange(start as int, i as int),
            str_views(results@) == kept(pieces(v@.take(i as int)).drop_last()),
        decreases n - i,
    {
        let ch = v[i];
        let ghost p0 = pieces(v@.take(i as int));
        proof {
            lemma_step(v@, i as int);
            lemma_pieces_nonempty(v@.take(i as int));
        }
        if in_string {
            if ch == '\'' {
                if i + 1 < n && v[i + 1] == '\'' {
                    proof {
                        lemma_step(v@, i + 1);
                        let p1 = pieces(v@.take(i + 1));
                        assert(p1.drop_last() =~= p0.drop_last());
                        assert(p1.last() =~= v@.subrange(start as int, i + 1));
                        lemma_pieces_nonempty(v@.take(i + 1));
                        let p2 = pieces(v@.take(i + 2));
                        assert(p2.drop_last() =~= p0.drop_last());
                        assert(p2.last() =~= v@.subrange(start as int, i + 2));
                    }
                    i = i + 2;
                    continue;
                }
                in_string = false;
            }
        } else if ch == '\'' {
            in_string = true;
        } else if ch == ';' {
            let stmt = trim(sql.substring_char(start, i));
            proof {
                let p1 = pieces(v@.take(i + 1));
                assert(p1.drop_last() =~= p0);
                assert(p0 =~= p0.drop_last().push(p0.last()));
            }
            if !stmt.is_empty() && !strip_leading_comments(stmt).is_empty() {
                results.push(stmt);
                proof {
                    assert(str_views(results@) =~= kept(p0.drop_last()).push(trim_seq(p0.last())));
                }
            }
            start = i + 1;
            proof {
                assert(v@.subrange(start as int, start as int) =~= Seq::<char>::empty());
            }
            i = i + 1;
            continue;
        }
        proof {
            let p1 = pieces(v@.take(i + 1));
            assert(p1.drop_last() =~= p0.drop_last());
            assert(p1.last() =~= v@.subrange(start as int, i + 1));
        }
        i = i + 1;
    }
    let tail = trim(sql.substring_char(start, n));
    proof {
        let p = pieces(v@.take(n as int));
        lemma_pieces_nonempty(v@.take(n as int));
        assert(v@.take(n as int) =~= sql@);
        assert(p =~= p.drop_last().push(p.last()));
    }
    if !tail.is_empty() && !strip_leading_comments(tail).is_empty() {
        results.push(tail);
        proof {
            let p = pieces(sql@);
            assert(str_views(results@) =~= kept(p.drop_last()).push(trim_seq(p.last())));
        }
    }
    results
}

} // verus!
