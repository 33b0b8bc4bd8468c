//! The `entity_sql` tool: result formatting and error enrichment.
//!
//! The database calls themselves are made by the caller; these functions decide
//! what is reported for what the database answered.
use crate::schema::{ColumnInfo, SchemaCache, TableInfo};
use crate::text::{
    alphanumeric, chars_of, dec, find_chars, find_seq, is_alphanumeric, join, join_seq,
    lemma_map_push, lemma_map_take_push, lowercase_of, push_char, push_dec, string_of_chars,
    to_lowercase, to_uppercase, trim, trim_seq, uppercase_of, views,
};
use crate::tool::err;
use vstd::prelude::*;
use vstd::string::*;
use vstd::utf8::{decode_utf8, encode_utf8, encode_utf8_decode_utf8, is_char_boundary};

verus! {

// =============================================================================
// Markdown tables
// =============================================================================

/// `s` repeated `n` times.
pub open spec fn repeat_seq(s: Seq<char>, n: nat) -> Seq<char>
    decreases n,
{
    if n == 0 {
        Seq::empty()
    } else {
        repeat_seq(s, (n - 1) as nat) + s
    }
}

/// One table line: `| a | b |` and a newline.
pub open spec fn md_line(cells: Seq<Seq<char>>) -> Seq<char> {
    "| "@ + join_seq(cells, " | "@) + " |\n"@
}

/// The lines of all rows, in order.
pub open spec fn md_lines(rows: Seq<Seq<Seq<char>>>) -> Seq<char>
    decreases rows.len(),
{
    if rows.len() == 0 {
        Seq::empty()
    } else {
        md_lines(rows.drop_last()) + md_line(rows.last())
    }
}

/// A markdown table: header line, separator line, one line per row; empty without columns.
pub open spec fn markdown_table(cols: Seq<Seq<char>>, rows: Seq<Seq<Seq<char>>>) -> Seq<char> {
    if cols.len() == 0 {
        Seq::empty()
    } else {
        md_line(cols) + seq!['|'] + repeat_seq("------|"@, cols.len()) + seq!['\n'] + md_lines(rows)
    }
}

/// The cell texts of each row.
pub open spec fn row_views(rows: Seq<Vec<String>>) -> Seq<Seq<Seq<char>>> {
    rows.map_values(|r: Vec<String>| views(r@))
}

/// Appends one table line for `cells`.
fn push_md_line(out: &mut String, cells: &Vec<String>)
    ensures
        final(out)@ == old(out)@ + md_line(views(cells@)),
{
    out.append("| ");
    let j = join(cells, " | ");
    out.append(j.as_str());
    out.append(" |\n");
}

/// Build a markdown table from column names and row data.
pub fn format_markdown_table(cols: &[String], rows: &[Vec<String>]) -> (r: String)
    ensures
        r@ == markdown_table(views(cols@), row_views(rows@)),
{
    if cols.len() == 0 {
        return String::new();
    }
    let mut out = String::new();
    let mut header: Vec<String> = Vec::new();
    let mut c: usize = 0;
    while c < cols.len()
        invariant
            c <= cols@.len(),
            header@ == cols@.take(c as int),
        decreases cols@.len() - c,
    {
        header.push(cols[c].clone());
        assert(cols@.take(c + 1) =~= cols@.take(c as int).push(cols@[c as int]));
        c = c + 1;
    }
    assert(cols@.take(cols@.len() as int) =~= cols@);
    push_md_line(&mut out, &header);
    push_char(&mut out, '|');
    let mut k: usize = 0;
    while k < cols.len()
        invariant
            k <= cols@.len(),
            out@ == md_line(views(cols@)) + seq!['|'] + repeat_seq("------|"@, k as nat),
        decreases cols@.len() - k,
    {
        out.append("------|");
        k = k + 1;
    }
    push_char(&mut out, '\n');
    let mut i: usize = 0;
    while i < rows.len()
        invariant
            i <= rows@.len(),
            cols@.len() > 0,
            out@ == md_line(views(cols@)) + seq!['|'] + repeat_seq("------|"@, cols@.len()) + seq!['\n']
                + md_lines(row_views(rows@.take(i as int))),
        decreases rows@.len() - i,
    {
        push_md_line(&mut out, &rows[i]);
        proof {
            let a = row_views(rows@.take(i as int));
            let b = row_views(rows@.take(i + 1));
            assert(b.drop_last() =~= a);
            assert(b.last() == views(rows@[i as int]@));
        }
        i = i + 1;
    }
    assert(rows@.take(rows@.len() as int) =~= rows@);
    out
}

// =============================================================================
// Identifiers in messages
// =============================================================================

/// A character allowed in a table or column name here: alphanumeric or `_`.
pub open spec fn ident_char(c: char) -> bool {
    alphanumeric(c) || c == '_'
}

/// The leading run of identifier characters.
pub open spec fn ident_prefix(s: Seq<char>) -> Seq<char>
    decreases s.len(),
{
    if s.len() > 0 && ident_char(s[0]) {
        seq![s[0]] + ident_prefix(s.drop_first())
    } else {
        Seq::empty()
    }
}

proof fn lemma_ident_prefix(s: Seq<char>, k: int)
    requires
        0 <= k <= s.len(),
        forall|j: int| 0 <= j < k ==> ident_char(#[trigger] s[j]),
        k < s.len() ==> !ident_char(s[k]),
    ensures
        ident_prefix(s) == s.take(k),
    decreases s.len(),
{
    if k > 0 {
        assert(ident_char(s[0]));
        assert forall|j: int| 0 <= j < k - 1 implies ident_char(#[trigger] s.drop_first()[j]) by {
            assert(s.drop_first()[j] == s[j + 1]);
        }
        if k - 1 < s.drop_first().len() {
            assert(s.drop_first()[k - 1] == s[k]);
        }
        lemma_ident_prefix(s.drop_first(), k - 1);
        assert(seq![s[0]] + s.drop_first().take(k - 1) =~= s.take(k));
    } else {
        assert(s.take(0) =~= Seq::<char>::empty());
    }
}

/// The leading identifier characters of `v[from..]`.
fn ident_prefix_from(v: &Vec<char>, from: usize) -> (r: Vec<char>)
    requires
        from <= v@.len(),
    ensures
        r@ == ident_prefix(v@.skip(from as int)),
{
    let mut r: Vec<char> = Vec::new();
    let mut k = from;
    while k < v.len() && (is_alphanumeric(v[k]) || v[k] == '_')
        invariant
            from <= k <= v@.len(),
            r@ == v@.subrange(from as int, k as int),
            forall|j: int| from <= j < k ==> ident_char(#[trigger] v@[j]),
        decreases v@.len() - k,
    {
        r.push(v[k]);
        assert(v@.subrange(from as int, k + 1) =~= v@.subrange(from as int, k as int).push(v@[k as int]));
        k = k + 1;
    }
    proof {
        let s = v@.skip(from as int);
        assert forall|j: int| 0 <= j < k - from implies ident_char(#[trigger] s[j]) by {
            assert(s[j] == v@[j + from]);
        }
        if k < v@.len() {
            assert(s[k - from] == v@[k as int]);
        }
        lemma_ident_prefix(s, k - from);
        assert(s.take(k - from) =~= v@.subrange(from as int, k as int));
    }
    r
}

/// The identifier right after the first occurrence of `pattern` in `err`, if any.
pub open spec fn after_pattern(err: Seq<char>, pattern: Seq<char>) -> Option<Seq<char>> {
    match find_seq(err, pattern) {
        Some(p) => {
            let w = ident_prefix(err.skip(p + pattern.len()));
            if w.len() == 0 {
                None
            } else {
                Some(w)
            }
        },
        None => None,
    }
}

/// Extract the identifier that follows `pattern` in an error message.
pub fn extract_after(err: &str, pattern: &str) -> (r: Option<String>)
    ensures
        r matches Some(w) ==> after_pattern(err@, pattern@) == Some(w@),
        r is None ==> after_pattern(err@, pattern@) is None,
{
    let e = chars_of(err);
    let p = chars_of(pattern);
    let el = e.len();
    match find_chars(&e, &p) {
        Some(pos) => {
            proof {
                crate::text::lemma_find_seq(e@, p@);
            }
            let start = pos + p.len();
            let w = ident_prefix_from(&e, start);
            if w.len() == 0 {
                None
            } else {
                Some(string_of_chars(&w))
            }
        },
        None => None,
    }
}

/// The bytes of `FROM ` in ASCII.
pub open spec fn from_keyword_bytes() -> Seq<u8> {
    seq![70u8, 82u8, 79u8, 77u8, 32u8]
}

/// `p` occurs in `s` at byte `i`.
pub open spec fn occurs_at_bytes(s: Seq<u8>, p: Seq<u8>, i: int) -> bool {
    0 <= i && i + p.len() <= s.len() && s.subrange(i, i + p.len()) == p
}

/// Byte index of the first occurrence of `p` in `s` at or after `i`.
pub open spec fn find_bytes_from(s: Seq<u8>, p: Seq<u8>, i: int) -> Option<int>
    decreases s.len() + 1 - i,
{
    if i < 0 || i > s.len() {
        None
    } else if occurs_at_bytes(s, p, i) {
        Some(i)
    } else {
        find_bytes_from(s, p, i + 1)
    }
}

/// The main table of a query: the identifier after the first `FROM ` of the upper-cased
/// text, read from the given text at the same byte offset (nothing when that offset is
/// not on a character boundary), after trimming.
pub open spec fn table_name_of(sql: Seq<char>) -> Option<Seq<char>> {
    match find_bytes_from(encode_utf8(uppercase_of(sql)), from_keyword_bytes(), 0) {
        Some(p) => {
            let b = encode_utf8(sql);
            if is_char_boundary(b, p + 5) {
                let w = ident_prefix(trim_seq(decode_utf8(b.subrange(p + 5, b.len() as int))));
                if w.len() == 0 {
                    None
                } else {
                    Some(w)
                }
            } else {
                None
            }
        },
        None => None,
    }
}

/// First byte index at which `p` occurs in `s`.
fn find_bytes(s: &[u8], p: &[u8]) -> (r: Option<usize>)
    ensures
        r matches Some(k) ==> find_bytes_from(s@, p@, 0) == Some(k as int) && occurs_at_bytes(s@, p@, k as int),
        r is None ==> find_bytes_from(s@, p@, 0) is None,
{
    let sl = s.len();
    let pl = p.len();
    let mut i: usize = 0;
    while i <= sl
        invariant
            sl == s@.len(),
            pl == p@.len(),
            i <= sl + 1,
            find_bytes_from(s@, p@, 0) == find_bytes_from(s@, p@, i as int),
        decreases sl + 1 - i,
    {
        let mut ok = pl <= sl - i;
        let mut j: usize = 0;
        #[verifier::loop_isolation(false)]
        while ok && j < pl
            invariant
                sl == s@.len(),
                pl == p@.len(),
                i <= sl,
                j <= pl,
                ok ==> i + pl <= sl,
                ok ==> forall|m: int| 0 <= m < j ==> s@[i + m] == p@[m],
                !ok ==> !occurs_at_bytes(s@, p@, i as int),
            decreases pl - j + if ok {
                1int
            } else {
                0int
            },
        {
            if s[i + j] != p[j] {
                assert(s@.subrange(i as int, i + pl)[j as int] != p@[j as int]);
                ok = false;
            } else {
                j = j + 1;
            }
        }
        if ok {
            assert(s@.subrange(i as int, i + pl) =~= p@);
            return Some(i);
        }
        if i == sl {
            assert(find_bytes_from(s@, p@, (i + 1) as int) is None);
            return None;
        }
        i = i + 1;
    }
    None
}

/// Try to extract the main table name from a SELECT query.
pub fn extract_table_name(sql: &str) -> (r: Option<String>)
    ensures
        r matches Some(w) ==> table_name_of(sql@) == Some(w@),
        r is None ==> table_name_of(sql@) is None,
{
    let upper = to_uppercase(sql);
    let ub = upper.as_str().as_bytes();
    let ubl = ub.len();
    let pat: Vec<u8> = vec![70u8, 82u8, 79u8, 77u8, 32u8];
    assert(pat@ =~= from_keyword_bytes());
    let pos = match find_bytes(ub, pat.as_slice()) {
        Some(p) => p,
        None => {
            return None;
        },
    };
    proof {
        vstd::utf8::encode_utf8_valid_utf8(sql@);
    }
    let start = pos + 5;
    if !sql.is_char_boundary(start) {
        return None;
    }
    let (_, after) = sql.split_at(start);
    proof {
        encode_utf8_decode_utf8(after@);
    }
    let t = trim(after);
    let tv = chars_of(t);
    let w = ident_prefix_from(&tv, 0);
    assert(tv@.skip(0) =~= tv@);
    if w.len() == 0 {
        None
    } else {
        Some(string_of_chars(&w))
    }
}

// =============================================================================
// Levenshtein distance and fuzzy suggestions
// =============================================================================

pub open spec fn min3(a: int, b: int, c: int) -> int {
    if a <= b && a <= c {
        a
    } else if b <= c {
        b
    } else {
        c
    }
}

/// Levenshtein (edit) distance: insertions, deletions and substitutions, each costing one.
pub open spec fn lev(a: Seq<char>, b: Seq<char>) -> nat
    decreases a.len() + b.len(),
{
    if a.len() == 0 {
        b.len()
    } else if b.len() == 0 {
        a.len()
    } else {
        min3(
            lev(a.drop_last(), b) as int + 1,
            lev(a, b.drop_last()) as int + 1,
            lev(a.drop_last(), b.drop_last()) + if a.last() == b.last() {
                0int
            } else {
                1int
            },
        ) as nat
    }
}

/// The distance as computed in `usize` with saturating additions.
pub open spec fn lev_usize(a: Seq<char>, b: Seq<char>) -> nat {
    if lev(a, b) <= usize::MAX {
        lev(a, b)
    } else {
        usize::MAX as nat
    }
}

/// Law: a string is at distance zero from itself.
pub proof fn law_lev_identity(a: Seq<char>)
    ensures
        lev(a, a) == 0,
    decreases a.len(),
{
    if a.len() > 0 {
        law_lev_identity(a.drop_last());
    }
}

/// Law: the distance is symmetric.
pub proof fn law_lev_symmetric(a: Seq<char>, b: Seq<char>)
    ensures
        lev(a, b) == lev(b, a),
    decreases a.len() + b.len(),
{
    if a.len() > 0 && b.len() > 0 {
        law_lev_symmetric(a.drop_last(), b);
        law_lev_symmetric(a, b.drop_last());
        law_lev_symmetric(a.drop_last(), b.drop_last());
    }
}

/// Levenshtein distance between two strings (saturating at `usize::MAX`).
pub fn levenshtein(source: &str, target: &str) -> (r: usize)
    ensures
        r == lev_usize(source@, target@),
{
    let s = chars_of(source);
    let t = chars_of(target);
    let n = s.len();
    let m = t.len();
    if n == 0 {
        return m;
    }
    if m == 0 {
        return n;
    }
    let mut prev: Vec<usize> = Vec::new();
    let mut curr: Vec<usize> = Vec::new();
    let mut j: usize = 0;
    while j < m
        invariant
            m == t@.len(),
            j <= m,
            prev@.len() == j,
            curr@.len() == j,
            forall|k: int| 0 <= k < j ==> prev@[k] == lev_usize(Seq::empty(), t@.take(k)),
        decreases m - j,
    {
        prev.push(j);
        curr.push(0);
        j = j + 1;
    }
    prev.push(m);
    curr.push(0);
    let row_len = prev.len();
    let mut i: usize = 0;
    while i < n
        invariant
            n == s@.len(),
            m == t@.len(),
            row_len == m + 1,
            n > 0,
            m > 0,
            i <= n,
            prev@.len() == m + 1,
            curr@.len() == m + 1,
            forall|k: int| 0 <= k <= m ==> prev@[k] == lev_usize(s@.take(i as int), t@.take(k)),
        decreases n - i,
    {
        let i1 = i + 1;
        curr.set(0, i1);
        assert(curr@[0] == lev_usize(s@.take(i1 as int), t@.take(0)));
        let mut j: usize = 0;
        while j < m
            invariant
                n == s@.len(),
                m == t@.len(),
                i < n,
                i1 == i + 1,
                j <= m,
                prev@.len() == m + 1,
                curr@.len() == m + 1,
                forall|k: int| 0 <= k <= m ==> prev@[k] == lev_usize(s@.take(i as int), t@.take(k)),
                forall|k: int| 0 <= k <= j ==> curr@[k] == lev_usize(s@.take(i1 as int), t@.take(k)),
            decreases m - j,
        {
            let j1 = j + 1;
            let cost: usize = if s[i] != t[j] {
                1
            } else {
                0
            };
            let del = prev[j1].saturating_add(1);
            let ins = curr[j].saturating_add(1);
            let sub = prev[j].saturating_add(cost);
            let best = if del <= ins && del <= sub {
                del
            } else if ins <= sub {
                ins
            } else {
                sub
            };
            proof {
                let a = s@.take(i1 as int);
                let b = t@.take(j1 as int);
                assert(a.drop_last() =~= s@.take(i as int));
                assert(b.drop_last() =~= t@.take(j as int));
                assert(a.last() == s@[i as int]);
                assert(b.last() == t@[j as int]);
            }
            curr.set(j1, best);
            j = j1;
        }
        let tmp = prev;
        prev = curr;
        curr = tmp;
        i = i1;
    }
    assert(s@.take(n as int) =~= s@);
    assert(t@.take(m as int) =~= t@);
    prev[m]
}

/// The candidate whose lower-cased text is nearest to `target` (by `lev_usize`), among those
/// within `max_dist`; the earliest one wins a tie. Gives its index and distance.
pub open spec fn best_match(target: Seq<char>, cands: Seq<Seq<char>>, max_dist: nat) -> Option<(int, nat)>
    decreases cands.len(),
{
    if cands.len() == 0 {
        None
    } else {
        let prev = best_match(target, cands.drop_last(), max_dist);
        let d = lev_usize(target, lowercase_of(cands.last()));
        let better = match prev {
            Some((_, pd)) => d < pd,
            None => true,
        };
        if d <= max_dist && better {
            Some(((cands.len() - 1) as int, d))
        } else {
            prev
        }
    }
}

proof fn lemma_best_match_index(target: Seq<char>, cands: Seq<Seq<char>>, max_dist: nat)
    ensures
        best_match(target, cands, max_dist) matches Some((i, _)) ==> 0 <= i < cands.len(),
    decreases cands.len(),
{
    if cands.len() > 0 {
        lemma_best_match_index(target, cands.drop_last(), max_dist);
    }
}

/// Find the closest match within a Levenshtein distance threshold, comparing lower-cased text.
pub fn closest_match<'candidate>(target: &str, candidates: &[&'candidate str], max_dist: usize) -> (r:
    Option<&'candidate str>)
    ensures
        match best_match(lowercase_of(target@), candidates@.map_values(|c: &str| c@), max_dist as nat) {
            Some((i, _)) => r matches Some(c) && c@ == candidates@[i]@,
            None => r is None,
        },
{
    let target_lower = to_lowercase(target);
    let ghost tl = lowercase_of(target@);
    let ghost all = candidates@.map_values(|c: &str| c@);
    let mut best: Option<(&'candidate str, usize)> = None;
    let ghost mut best_idx: int = 0;
    let mut i: usize = 0;
    while i < candidates.len()
        invariant
            i <= candidates@.len(),
            tl == lowercase_of(target@),
            target_lower@ == tl,
            all == candidates@.map_values(|c: &str| c@),
            match best_match(tl, all.take(i as int), max_dist as nat) {
                Some((bi, d)) => best matches Some((c, bd)) && bd == d && bi == best_idx && 0 <= bi < i
                    && c@ == candidates@[bi]@,
                None => best is None,
            },
        decreases candidates@.len() - i,
    {
        let candidate = candidates[i];
        let cl = to_lowercase(candidate);
        let dist = levenshtein(target_lower.as_str(), cl.as_str());
        proof {
            let pre = all.take(i as int);
            let post = all.take(i + 1);
            assert(post.drop_last() =~= pre);
            assert(post.last() == candidate@);
        }
        let better = match best {
            None => true,
            Some((_, d)) => dist < d,
        };
        if dist <= max_dist && better {
            best = Some((candidate, dist));
            proof {
                best_idx = i as int;
            }
        }
        i = i + 1;
    }
    assert(all.take(candidates@.len() as int) =~= all);
    match best {
        Some((name, _)) => Some(name),
        None => None,
    }
}

// =============================================================================
// Error enrichment
// =============================================================================

/// Column names of all tables, table by table, in order.
pub open spec fn all_column_names(tables: Seq<TableInfo>) -> Seq<Seq<char>>
    decreases tables.len(),
{
    if tables.len() == 0 {
        Seq::empty()
    } else {
        all_column_names(tables.drop_last()) + tables.last().columns@.map_values(
            |c: ColumnInfo| c.name@,
        )
    }
}

/// `name type` with ` PK` for primary-key columns.
pub open spec fn column_summary(c: ColumnInfo) -> Seq<char> {
    c.name@ + " "@ + c.col_type@ + if c.is_pk {
        " PK"@
    } else {
        Seq::empty()
    }
}

/// One schema line: `  name (rows): col, col`.
pub open spec fn table_summary(t: TableInfo) -> Seq<char> {
    "  "@ + t.name@ + " ("@ + dec(t.row_count as nat) + "): "@ + join_seq(
        t.columns@.map_values(|c: ColumnInfo| column_summary(c)),
        ", "@,
    )
}

/// Table names, in order.
pub open spec fn table_names(schema: SchemaCache) -> Seq<Seq<char>> {
    schema.tables@.map_values(|t: TableInfo| t.name@)
}

/// The suggestion for an unknown table (within distance 2), as zero or one line.
pub open spec fn table_hint(err: Seq<char>, schema: SchemaCache) -> Seq<Seq<char>> {
    let names = table_names(schema);
    match after_pattern(err, "no such table: "@) {
        Some(u) => match best_match(lowercase_of(u), names, 2) {
            Some((i, _)) => seq!["Did you mean table '"@ + names[i] + "'?"@],
            None => Seq::empty(),
        },
        None => Seq::empty(),
    }
}

/// The suggestion for an unknown column (within distance 2), as zero or one line.
pub open spec fn column_hint(err: Seq<char>, schema: SchemaCache) -> Seq<Seq<char>> {
    let cols = all_column_names(schema.tables@);
    match after_pattern(err, "no such column: "@) {
        Some(u) => match best_match(lowercase_of(u), cols, 2) {
            Some((i, _)) => seq!["Did you mean column '"@ + cols[i] + "'?"@],
            None => Seq::empty(),
        },
        None => Seq::empty(),
    }
}

/// The schema summary lines: a heading and one line per table; nothing without tables.
pub open spec fn schema_summary(schema: SchemaCache) -> Seq<Seq<char>> {
    if schema.tables@.len() == 0 {
        Seq::empty()
    } else {
        seq!["\nCurrent schema:"@] + schema.tables@.map_values(|t: TableInfo| table_summary(t))
    }
}

/// The message lines for an error: the error, suggestions for an unknown table and an
/// unknown column, then the schema summary.
pub open spec fn enriched_lines(err: Seq<char>, schema: SchemaCache) -> Seq<Seq<char>> {
    seq!["SQL error: "@ + err] + table_hint(err, schema) + column_hint(err, schema) + schema_summary(schema)
}

/// Enrich a SQLite error message with schema context and fuzzy suggestions.
pub open spec fn enriched_error(err: Seq<char>, schema: SchemaCache) -> Seq<char> {
    join_seq(enriched_lines(err, schema), "\n"@)
}

/// `name type[ PK]` for one column.
fn column_summary_exec(c: &ColumnInfo) -> (r: String)
    ensures
        r@ == column_summary(*c),
{
    let mut s = c.name.clone();
    s.append(" ");
    s.append(c.col_type.as_str());
    if c.is_pk {
        s.append(" PK");
    } else {
        assert(s@ =~= s@ + Seq::<char>::empty());
    }
    s
}

/// The schema line for one table.
fn table_summary_exec(t: &TableInfo) -> (r: String)
    ensures
        r@ == table_summary(*t),
{
    let mut cols: Vec<String> = Vec::new();
    let mut k: usize = 0;
    while k < t.columns.len()
        invariant
            k <= t.columns@.len(),
            views(cols@) == t.columns@.take(k as int).map_values(|c: ColumnInfo| column_summary(c)),
        decreases t.columns@.len() - k,
    {
        let cs = column_summary_exec(&t.columns[k]);
        let ghost old_cols = cols@;
        cols.push(cs);
        proof {
            lemma_map_push(old_cols, cs, |s: String| s@);
            lemma_map_take_push(t.columns@, k as int, |c: ColumnInfo| column_summary(c));
        }
        k = k + 1;
    }
    assert(t.columns@.take(t.columns@.len() as int) =~= t.columns@);
    let mut s = String::from_str("  ");
    s.append(t.name.as_str());
    s.append(" (");
    push_dec(&mut s, t.row_count);
    s.append("): ");
    let j = join(&cols, ", ");
    s.append(j.as_str());
    s
}

/// The suggestion line, if `unknown` is close to one of `names`.
fn suggestion<'a>(unknown: &str, names: &[&'a str], what: &str) -> (r: Vec<String>)
    ensures
        views(r@) == match best_match(lowercase_of(unknown@), names@.map_values(|c: &str| c@), 2) {
            Some((i, _)) => seq!["Did you mean "@ + what@ + " '"@ + names@[i]@ + "'?"@],
            None => Seq::<Seq<char>>::empty(),
        },
{
    let mut r: Vec<String> = Vec::new();
    match closest_match(unknown, names, 2) {
        Some(s) => {
            let mut line = String::from_str("Did you mean ");
            line.append(what);
            line.append(" '");
            line.append(s);
            line.append("'?");
            r.push(line);
            proof {
                lemma_best_match_index(lowercase_of(unknown@), names@.map_values(|c: &str| c@), 2);
                assert(views(r@) =~= seq![line@]);
            }
        },
        None => {
            assert(views(r@) =~= Seq::<Seq<char>>::empty());
        },
    }
    r
}

/// Enrich a SQLite error message with schema context and fuzzy suggestions.
pub fn enrich_error(err: &str, schema: &SchemaCache) -> (r: String)
    ensures
        r@ == enriched_error(err@, *schema),
{
    let mut parts: Vec<String> = Vec::new();
    let mut first = String::from_str("SQL error: ");
    first.append(err);
    parts.push(first);
    let mut names: Vec<&str> = Vec::new();
    let mut k: usize = 0;
    while k < schema.tables.len()
        invariant
            k <= schema.tables@.len(),
            names@.map_values(|c: &str| c@) == schema.tables@.take(k as int).map_values(|t: TableInfo| t.name@),
        decreases schema.tables@.len() - k,
    {
        let ghost old_names = names@;
        let nm = schema.tables[k].name.as_str();
        names.push(nm);
        proof {
            lemma_map_push(old_names, nm, |c: &str| c@);
            lemma_map_take_push(schema.tables@, k as int, |t: TableInfo| t.name@);
        }
        k = k + 1;
    }
    assert(schema.tables@.take(schema.tables@.len() as int) =~= schema.tables@);
    let mut cols: Vec<&str> = Vec::new();
    let mut ti: usize = 0;
    while ti < schema.tables.len()
        invariant
            ti <= schema.tables@.len(),
            cols@.map_values(|c: &str| c@) == all_column_names(schema.tables@.take(ti as int)),
        decreases schema.tables@.len() - ti,
    {
        let table = &schema.tables[ti];
        let ghost before = cols@.map_values(|c: &str| c@);
        let mut ci: usize = 0;
        while ci < table.columns.len()
            invariant
                ci <= table.columns@.len(),
                cols@.map_values(|c: &str| c@) == before + table.columns@.take(ci as int).map_values(
                    |c: ColumnInfo| c.name@,
                ),
            decreases table.columns@.len() - ci,
        {
            let ghost old_cols = cols@;
            let nm = table.columns[ci].name.as_str();
            cols.push(nm);
            proof {
                lemma_map_push(old_cols, nm, |c: &str| c@);
                lemma_map_take_push(table.columns@, ci as int, |c: ColumnInfo| c.name@);
                assert(before + table.columns@.take(ci + 1).map_values(|c: ColumnInfo| c.name@) =~= (before
                    + table.columns@.take(ci as int).map_values(|c: ColumnInfo| c.name@)).push(nm@));
            }
            ci = ci + 1;
        }
        proof {
            let pre = schema.tables@.take(ti as int);
            let post = schema.tables@.take(ti + 1);
            assert(post.drop_last() =~= pre);
            assert(table.columns@.take(table.columns@.len() as int) =~= table.columns@);
        }
        ti = ti + 1;
    }
    assert(schema.tables@.take(schema.tables@.len() as int) =~= schema.tables@);
    let ghost first_line: Seq<Seq<char>> = seq!["SQL error: "@ + err@];
    let ghost mut expected: Seq<Seq<char>> = first_line;
    assert(views(parts@) =~= expected);
    match extract_after(err, "no such table: ") {
        Some(unknown) => {
            let lines = suggestion(unknown.as_str(), names.as_slice(), "table");
            proof {
                let nv = names@.map_values(|c: &str| c@);
                assert(nv == table_names(*schema));
                lemma_best_match_index(lowercase_of(unknown@), nv, 2);
                match best_match(lowercase_of(unknown@), nv, 2) {
                    Some((i, _)) => {
                        assert(nv[i] == names@[i]@);
                    },
                    None => {},
                }
                assert(("Did you mean "@ + "table"@ + " '"@) =~= "Did you mean table '"@) by {
                    reveal_strlit("Did you mean ");
                    reveal_strlit("table");
                    reveal_strlit(" '");
                    reveal_strlit("Did you mean table '");
                }
                assert(views(lines@) =~= table_hint(err@, *schema));
            }
            let mut li: usize = 0;
            while li < lines.len()
                invariant
                    li <= lines@.len(),
                    views(parts@) == expected + views(lines@).take(li as int),
                decreases lines@.len() - li,
            {
                let ghost old_parts = parts@;
                let ln = lines[li].clone();
                parts.push(ln);
                proof {
                    lemma_map_push(old_parts, ln, |s: String| s@);
                    lemma_map_take_push(lines@, li as int, |s: String| s@);
                    assert(views(lines@).take(li + 1) =~= lines@.take(li + 1).map_values(|s: String| s@));
                    assert(views(lines@).take(li as int) =~= lines@.take(li as int).map_values(|s: String| s@));
                    assert(views(parts@) =~= expected + views(lines@).take(li + 1));
                }
                li = li + 1;
            }
            proof {
                assert(views(lines@).take(lines@.len() as int) =~= views(lines@));
                expected = expected + views(lines@);
            }
        },
        None => {
            assert(table_hint(err@, *schema) =~= Seq::<Seq<char>>::empty());
        },
    }
    assert(expected =~= first_line + table_hint(err@, *schema));
    let ghost after_table = expected;
    match extract_after(err, "no such column: ") {
        Some(unknown) => {
            let lines = suggestion(unknown.as_str(), cols.as_slice(), "column");
            proof {
                let cv = cols@.map_values(|c: &str| c@);
                assert(cv == all_column_names(schema.tables@));
                lemma_best_match_index(lowercase_of(unknown@), cv, 2);
                match best_match(lowercase_of(unknown@), cv, 2) {
                    Some((i, _)) => {
                        assert(cv[i] == cols@[i]@);
                    },
                    None => {},
                }
                assert(("Did you mean "@ + "column"@ + " '"@) =~= "Did you mean column '"@) by {
                    reveal_strlit("Did you mean ");
                    reveal_strlit("column");
                    reveal_strlit(" '");
                    reveal_strlit("Did you mean column '");
                }
                assert(views(lines@) =~= column_hint(err@, *schema));
            }
            let mut li: usize = 0;
            while li < lines.len()
                invariant
                    li <= lines@.len(),
                    views(parts@) == expected + views(lines@).take(li as int),
                decreases lines@.len() - li,
            {
                let ghost old_parts = parts@;
                let ln = lines[li].clone();
                parts.push(ln);
                proof {
                    lemma_map_push(old_parts, ln, |s: String| s@);
                    lemma_map_take_push(lines@, li as int, |s: String| s@);
                    assert(views(lines@).take(li + 1) =~= lines@.take(li + 1).map_values(|s: String| s@));
                    assert(views(lines@).take(li as int) =~= lines@.take(li as int).map_values(|s: String| s@));
                    assert(views(parts@) =~= expected + views(lines@).take(li + 1));
                }
                li = li + 1;
            }
            proof {
                assert(views(lines@).take(lines@.len() as int) =~= views(lines@));
                expected = expected + views(lines@);
            }
        },
        None => {
            assert(column_hint(err@, *schema) =~= Seq::<Seq<char>>::empty());
        },
    }
    assert(expected =~= after_table + column_hint(err@, *schema));
    if schema.tables.len() > 0 {
        parts.push(String::from_str("\nCurrent schema:"));
        let ghost base = expected + seq!["\nCurrent schema:"@];
        assert(views(parts@) =~= base);
        let mut t: usize = 0;
        while t < schema.tables.len()
            invariant
                t <= schema.tables@.len(),
                views(parts@) == base + schema.tables@.take(t as int).map_values(
                    |x: TableInfo| table_summary(x),
                ),
            decreases schema.tables@.len() - t,
        {
            let line = table_summary_exec(&schema.tables[t]);
            let ghost old_parts = parts@;
            parts.push(line);
            proof {
                lemma_map_push(old_parts, line, |s: String| s@);
                lemma_map_take_push(schema.tables@, t as int, |x: TableInfo| table_summary(x));
                assert(views(parts@) =~= base + schema.tables@.take(t + 1).map_values(
                    |x: TableInfo| table_summary(x),
                ));
            }
            t = t + 1;
        }
        proof {
            assert(schema.tables@.take(schema.tables@.len() as int) =~= schema.tables@);
            assert(views(parts@) =~= enriched_lines(err@, *schema));
        }
    } else {
        assert(schema_summary(*schema) =~= Seq::<Seq<char>>::empty());
        assert(views(parts@) =~= enriched_lines(err@, *schema));
    }
    join(&parts, "\n")
}

// =============================================================================
// Query results
// =============================================================================

/// ASCII lower-casing of a character code.
pub open spec fn ascii_lower_code(c: char) -> u32 {
    if 'A' <= c && c <= 'Z' {
        (c as u32 + 32) as u32
    } else {
        c as u32
    }
}

/// `str::eq_ignore_ascii_case`.
pub open spec fn eq_ignore_ascii_case_seq(a: Seq<char>, b: Seq<char>) -> bool {
    a.len() == b.len() && forall|i: int| 0 <= i < a.len() ==> ascii_lower_code(a[i]) == ascii_lower_code(b[i])
}

fn ascii_lower_code_exec(c: char) -> (r: u32)
    ensures
        r == ascii_lower_code(c),
{
    if 'A' <= c && c <= 'Z' {
        c as u32 + 32
    } else {
        c as u32
    }
}

/// `str::eq_ignore_ascii_case`.
pub fn eq_ignore_ascii_case(a: &str, b: &str) -> (r: bool)
    ensures
        r == eq_ignore_ascii_case_seq(a@, b@),
{
    let av = chars_of(a);
    let bv = chars_of(b);
    if av.len() != bv.len() {
        return false;
    }
    let mut i: usize = 0;
    while i < av.len()
        invariant
            av@ == a@,
            bv@ == b@,
            av@.len() == bv@.len(),
            i <= av@.len(),
            forall|k: int| 0 <= k < i ==> ascii_lower_code(a@[k]) == ascii_lower_code(b@[k]),
        decreases av@.len() - i,
    {
        if ascii_lower_code_exec(av[i]) != ascii_lower_code_exec(bv[i]) {
            return false;
        }
        i = i + 1;
    }
    true
}

/// Index of the first table whose name equals `name` ignoring ASCII case.
pub open spec fn find_table(tables: Seq<TableInfo>, name: Seq<char>) -> Option<int>
    decreases tables.len(),
{
    if tables.len() == 0 {
        None
    } else {
        match find_table(tables.drop_last(), name) {
            Some(i) => Some(i),
            None => if eq_ignore_ascii_case_seq(tables.last().name@, name) {
                Some(tables.len() - 1)
            } else {
                None
            },
        }
    }
}

/// The inline report for a query's rows (at most 50 of them).
///
/// No rows: `0 rows returned.`, with the total row count of the queried table when it is
/// known. Otherwise the table and the count.
pub open spec fn query_report(
    sql: Seq<char>,
    cols: Seq<Seq<char>>,
    rows: Seq<Seq<Seq<char>>>,
    cache: Option<SchemaCache>,
) -> Seq<char> {
    let count = rows.len();
    if count == 0 {
        let hint = match (table_name_of(sql), cache) {
            (Some(tbl), Some(c)) => match find_table(c.tables@, tbl) {
                Some(i) => Some(c.tables@[i]),
                None => None,
            },
            _ => None,
        };
        match hint {
            Some(info) => "0 rows returned. (Table '"@ + info.name@ + "' has "@ + dec(info.row_count as nat)
                + " total rows.)"@,
            None => "0 rows returned."@,
        }
    } else {
        markdown_table(cols, rows) + "\n\n("@ + dec(count) + " rows)"@
    }
}

/// Most rows a query result shows inline; a larger result goes to an `entity_result` panel.
pub const INLINE_ROW_LIMIT: usize = 50;

/// The title of a panel that holds a large query result.
pub open spec fn result_panel_title(count: nat) -> Seq<char> {
    "SQL result ("@ + dec(count) + " rows)"@
}

/// What a query answers: the report itself, or the full result for a new panel.
pub enum QueryOutput {
    /// The report, to be returned as the tool's answer.
    Inline(String),
    /// More rows than fit inline: the whole table for an `entity_result` panel.
    Panel {
        /// The panel's title.
        title: String,
        /// The panel's content: every row, and the count.
        content: String,
        /// The number of rows.
        rows: usize,
    },
}

/// Format the rows a query returned (`cols` and `rows`): inline up to 50 rows, else the
/// full table for an `entity_result` panel.
pub fn query_result_text(sql: &str, cols: &[String], rows: &[Vec<String>], cache: &Option<SchemaCache>) -> (r:
    QueryOutput)
    ensures
        match r {
            QueryOutput::Inline(t) => rows@.len() <= INLINE_ROW_LIMIT && t@ == query_report(
                sql@,
                views(cols@),
                row_views(rows@),
                *cache,
            ),
            QueryOutput::Panel { title, content, rows: n } => {
                &&& rows@.len() > INLINE_ROW_LIMIT
                &&& n == rows@.len()
                &&& title@ == result_panel_title(n as nat)
                &&& content@ == markdown_table(views(cols@), row_views(rows@)) + "\n\n("@ + dec(n as nat)
                    + " rows)"@
            },
        },
{
    let count = rows.len();
    if count == 0 {
        let name = extract_table_name(sql);
        match name {
            Some(tbl) => {
                if cache.is_some() {
                    let c = cache.as_ref().unwrap();
                    {
                        let mut i: usize = 0;
                        while i < c.tables.len()
                            invariant
                                i <= c.tables@.len(),
                                find_table(c.tables@.take(i as int), tbl@) is None,
                                table_name_of(sql@) == Some(tbl@),
                                *cache == Some(*c),
                                rows@.len() == 0,
                            decreases c.tables@.len() - i,
                        {
                            proof {
                                assert(c.tables@.take(i + 1).drop_last() =~= c.tables@.take(i as int));
                            }
                            if eq_ignore_ascii_case(c.tables[i].name.as_str(), tbl.as_str()) {
                                proof {
                                    lemma_find_table_prefix(c.tables@, tbl@, i as int + 1);
                                    assert(table_name_of(sql@) == Some(tbl@));
                                    assert(*cache == Some(*c));
                                }
                                let info = &c.tables[i];
                                let mut s = String::from_str("0 rows returned. (Table '");
                                s.append(info.name.as_str());
                                s.append("' has ");
                                push_dec(&mut s, info.row_count);
                                s.append(" total rows.)");
                                return QueryOutput::Inline(s);
                            }
                            i = i + 1;
                        }
                        proof {
                            assert(c.tables@.take(c.tables@.len() as int) =~= c.tables@);
                        }
                    }
                }
            },
            None => {},
        }
        return QueryOutput::Inline(String::from_str("0 rows returned."));
    }
    let mut out = format_markdown_table(cols, rows);
    out.append("\n\n(");
    push_dec(&mut out, count as u64);
    out.append(" rows)");
    if count > INLINE_ROW_LIMIT {
        let mut title = String::from_str("SQL result (");
        push_dec(&mut title, count as u64);
        title.append(" rows)");
        QueryOutput::Panel { title, content: out, rows: count }
    } else {
        QueryOutput::Inline(out)
    }
}

/// The tool's answer once a large result has been put in panel `panel_id`.
pub open spec fn panel_notice_text(count: nat, panel_id: Seq<char>) -> Seq<char> {
    dec(count) + " rows: too many to show inline; the full result is in panel "@ + panel_id + "."@
}

/// The tool's answer for a result of `count` rows put in panel `panel_id`.
pub fn panel_notice(count: usize, panel_id: &str) -> (r: String)
    ensures
        r@ == panel_notice_text(count as nat, panel_id@),
{
    let mut s = String::new();
    push_dec(&mut s, count as u64);
    s.append(" rows: too many to show inline; the full result is in panel ");
    s.append(panel_id);
    s.append(".");
    proof {
        reveal_strlit(" rows: too many to show inline; the full result is in panel ");
        reveal_strlit(".");
    }
    assert(s@ =~= panel_notice_text(count as nat, panel_id@));
    s
}

/// A copy of a row of cell texts.
pub fn clone_row(row: &Vec<String>) -> (r: Vec<String>)
    ensures
        r@ == row@,
{
    let mut r: Vec<String> = Vec::new();
    let mut i: usize = 0;
    while i < row.len()
        invariant
            i <= row@.len(),
            r@ == row@.take(i as int),
        decreases row@.len() - i,
    {
        r.push(row[i].clone());
        assert(r@ =~= row@.take(i + 1));
        i = i + 1;
    }
    assert(row@.take(row@.len() as int) =~= row@);
    r
}

proof fn lemma_find_table_prefix(tables: Seq<TableInfo>, name: Seq<char>, k: int)
    requires
        0 < k <= tables.len(),
        find_table(tables.take(k - 1), name) is None,
        eq_ignore_ascii_case_seq(tables[k - 1].name@, name),
    ensures
        find_table(tables, name) == Some(k - 1),
    decreases tables.len(),
{
    assert(tables.take(k).drop_last() =~= tables.take(k - 1));
    if k < tables.len() {
        assert(tables.drop_last().take(k) =~= tables.take(k));
        assert(tables.drop_last().take(k - 1) =~= tables.take(k - 1));
        lemma_find_table_prefix(tables.drop_last(), name, k);
    } else {
        assert(tables.take(k) =~= tables);
    }
}

} // verus!
