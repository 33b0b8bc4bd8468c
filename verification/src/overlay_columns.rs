//! The indexing overlay as two columns of styled lines, and the frame around them.
//!
//! A line is a list of pieces; each piece is a text and the tone it is drawn in.
use crate::overlay::{
    percent, push_pad_left, push_pad_right, ago_text, bytes_text, format_ago, format_bytes, pad_left, pad_right, spaces, truncate_path, only_if,
    truncated_path, percent_of, CpuLoad, MeiliTaskInfo, SearchOverlayInfo,
};
use crate::search::count_views;
use crate::text::{dec, dec_string, push_char, push_dec};
use vstd::prelude::*;
use vstd::string::*;
use vstd::utf8::encode_utf8;

verus! {

/// The colour role of a piece of text.
#[derive(Debug, PartialEq, Eq, Structural, Clone, Copy)]
pub enum Tone {
    /// Default style.
    Plain,
    /// Regular text colour.
    Text,
    /// Dimmed text.
    Muted,
    /// Accent colour.
    Accent,
    /// Positive state.
    Success,
    /// Attention.
    Warning,
    /// Failure.
    Error,
}

/// A run of text drawn in one tone.
pub struct Piece {
    pub text: String,
    pub tone: Tone,
}

/// A piece as a plain value.
pub open spec fn piece_view(p: Piece) -> (Seq<char>, Tone) {
    (p.text@, p.tone)
}

/// A line as plain values.
pub open spec fn line_view(l: Seq<Piece>) -> Seq<(Seq<char>, Tone)> {
    l.map_values(|p: Piece| piece_view(p))
}

/// Lines as plain values.
pub open spec fn lines_view(ls: Seq<Vec<Piece>>) -> Seq<Seq<(Seq<char>, Tone)>> {
    ls.map_values(|l: Vec<Piece>| line_view(l@))
}

/// A line of one untoned piece.
pub open spec fn plain(s: Seq<char>) -> Seq<(Seq<char>, Tone)> {
    seq![(s, Tone::Plain)]
}

/// The empty line.
pub open spec fn blank() -> Seq<(Seq<char>, Tone)> {
    plain(Seq::empty())
}

/// `c` repeated `n` times.
pub open spec fn repeated(c: char, n: nat) -> Seq<char>
    decreases n,
{
    if n == 0 {
        Seq::empty()
    } else {
        repeated(c, (n - 1) as nat).push(c)
    }
}

/// `n - k` when that is positive, else 0.
pub open spec fn sat_sub(n: int, k: int) -> nat {
    if n > k {
        (n - k) as nat
    } else {
        0
    }
}

/// A section header: the title after two spaces and a dash pair, then a rule of dashes
/// that fills the title out to 48 columns.
pub open spec fn header(title: Seq<char>) -> Seq<(Seq<char>, Tone)> {
    seq![
        ("  ── "@ + title + " "@, Tone::Accent),
        (repeated('─', sat_sub(sat_sub(48, encode_utf8(title).len() as int) as int, 4)), Tone::Muted),
    ]
}

fn piece(text: String, tone: Tone) -> (r: Piece)
    ensures
        piece_view(r) == (text@, tone),
{
    Piece { text, tone }
}

fn piece_str(text: &str, tone: Tone) -> (r: Piece)
    ensures
        piece_view(r) == (text@, tone),
{
    Piece { text: String::from_str(text), tone }
}

fn line1(a: Piece) -> (r: Vec<Piece>)
    ensures
        line_view(r@) == seq![piece_view(a)],
{
    let r = vec![a];
    assert(line_view(r@) =~= seq![piece_view(a)]);
    r
}

fn line2(a: Piece, b: Piece) -> (r: Vec<Piece>)
    ensures
        line_view(r@) == seq![piece_view(a), piece_view(b)],
{
    let r = vec![a, b];
    assert(line_view(r@) =~= seq![piece_view(a), piece_view(b)]);
    r
}

fn line3(a: Piece, b: Piece, c: Piece) -> (r: Vec<Piece>)
    ensures
        line_view(r@) == seq![piece_view(a), piece_view(b), piece_view(c)],
{
    let r = vec![a, b, c];
    assert(line_view(r@) =~= seq![piece_view(a), piece_view(b), piece_view(c)]);
    r
}

fn line4(a: Piece, b: Piece, c: Piece, d: Piece) -> (r: Vec<Piece>)
    ensures
        line_view(r@) == seq![piece_view(a), piece_view(b), piece_view(c), piece_view(d)],
{
    let r = vec![a, b, c, d];
    assert(line_view(r@) =~= seq![piece_view(a), piece_view(b), piece_view(c), piece_view(d)]);
    r
}

fn line5(a: Piece, b: Piece, c: Piece, d: Piece, e: Piece) -> (r: Vec<Piece>)
    ensures
        line_view(r@) == seq![piece_view(a), piece_view(b), piece_view(c), piece_view(d), piece_view(e)],
{
    let r = vec![a, b, c, d, e];
    assert(line_view(r@) =~= seq![piece_view(a), piece_view(b), piece_view(c), piece_view(d), piece_view(e)]);
    r
}

fn line7(a: Piece, b: Piece, c: Piece, d: Piece, e: Piece, f: Piece, g: Piece) -> (r: Vec<Piece>)
    ensures
        line_view(r@) == seq![
            piece_view(a),
            piece_view(b),
            piece_view(c),
            piece_view(d),
            piece_view(e),
            piece_view(f),
            piece_view(g),
        ],
{
    let r = vec![a, b, c, d, e, f, g];
    assert(line_view(r@) =~= seq![
        piece_view(a),
        piece_view(b),
        piece_view(c),
        piece_view(d),
        piece_view(e),
        piece_view(f),
        piece_view(g),
    ]);
    r
}

fn push_line(col: &mut Vec<Vec<Piece>>, l: Vec<Piece>)
    ensures
        lines_view(final(col)@) == lines_view(old(col)@).push(line_view(l@)),
{
    col.push(l);
    assert(lines_view(col@) =~= lines_view(old(col)@).push(line_view(l@)));
}

fn push_plain(col: &mut Vec<Vec<Piece>>, s: String)
    ensures
        lines_view(final(col)@) == lines_view(old(col)@).push(plain(s@)),
{
    let l = line1(piece(s, Tone::Plain));
    push_line(col, l);
}

fn push_blank(col: &mut Vec<Vec<Piece>>)
    ensures
        lines_view(final(col)@) == lines_view(old(col)@).push(blank()),
{
    let s = String::new();
    assert(s@ =~= Seq::<char>::empty());
    push_plain(col, s);
}

/// `c` repeated `n` times.
pub fn repeat_char(c: char, n: usize) -> (r: String)
    ensures
        r@ == repeated(c, n as nat),
{
    let mut s = String::new();
    let mut i: usize = 0;
    while i < n
        invariant
            i <= n,
            s@ == repeated(c, i as nat),
        decreases n - i,
    {
        push_char(&mut s, c);
        i = i + 1;
    }
    s
}

/// Render a section header line with dashes.
pub fn section_header(title: &str) -> (r: Vec<Piece>)
    ensures
        line_view(r@) == header(title@),
{
    let n = title.as_bytes().len();
    let a: usize = if 48 > n {
        48 - n
    } else {
        0
    };
    let b: usize = if a > 4 {
        a - 4
    } else {
        0
    };
    let mut t = String::from_str("  ── ");
    t.append(title);
    t.append(" ");
    let dashes = repeat_char('─', b);
    line2(piece(t, Tone::Accent), piece(dashes, Tone::Muted))
}

// =============================================================================
// Right column: splitter, embeddings, OCR, tasks, recomputed, recently sent
// =============================================================================

/// Splitter lines.
pub open spec fn splitter_lines(info: SearchOverlayInfo) -> Seq<Seq<(Seq<char>, Tone)>> {
    let total = crate::search::sat_add(info.tree_sitter_chunks as int, info.fallback_chunks as int);
    let ts_pct = percent_of(info.tree_sitter_chunks, total);
    let fb_pct: int = if ts_pct <= 100 {
        100 - ts_pct
    } else {
        0
    };
    if total > 0 {
        seq![
            blank(),
            header("Splitter"@),
            seq![
                ("  Tree-sitter  "@, Tone::Plain),
                (dec(info.tree_sitter_chunks as nat) + " chunks"@, Tone::Success),
                ("  ("@ + dec(ts_pct as nat) + "%)"@, Tone::Muted),
            ],
            seq![
                ("  Fallback     "@, Tone::Plain),
                (dec(info.fallback_chunks as nat) + " chunks"@, Tone::Warning),
                ("  ("@ + dec(fb_pct as nat) + "%)"@, Tone::Muted),
            ],
        ]
    } else {
        Seq::empty()
    }
}

/// The embedding model line, when a model is known.
pub open spec fn model_lines(info: SearchOverlayInfo) -> Seq<Seq<(Seq<char>, Tone)>> {
    if info.embedding_model@.len() > 0 {
        seq![seq![("  Model   "@, Tone::Plain), (info.embedding_model@, Tone::Text)]]
    } else {
        Seq::empty()
    }
}

/// The vector-count line.
pub open spec fn vectors_row(info: SearchOverlayInfo) -> Seq<(Seq<char>, Tone)> {
    seq![
        ("  Vectors "@ + pad_left(dec(info.files_embedding_count as nat), 4) + "  "@, Tone::Plain),
        if info.files_is_indexing {
            ("● generating"@, Tone::Warning)
        } else {
            ("✓ ready"@, Tone::Success)
        },
    ]
}

/// The coverage line, when the files index holds documents.
pub open spec fn coverage_lines(info: SearchOverlayInfo) -> Seq<Seq<(Seq<char>, Tone)>> {
    let cov = percent_of(info.files_embedded_doc_count, info.files_total_doc_count as int);
    if info.files_total_doc_count > 0 {
        seq![
            seq![
                ("  Coverage "@, Tone::Plain),
                (
                    dec(info.files_embedded_doc_count as nat) + "/"@ + dec(info.files_total_doc_count as nat),
                    if cov >= 100 {
                        Tone::Success
                    } else {
                        Tone::Warning
                    },
                ),
                ("  ("@ + dec(cov as nat) + "%)"@, Tone::Muted),
            ],
        ]
    } else {
        Seq::empty()
    }
}

/// The log-count line, when the logs index holds documents.
pub open spec fn log_lines(info: SearchOverlayInfo) -> Seq<Seq<(Seq<char>, Tone)>> {
    if info.logs_doc_count > 0 {
        seq![plain("  Logs    "@ + dec(info.logs_doc_count as nat) + " documents"@)]
    } else {
        Seq::empty()
    }
}

/// Embedding lines.
pub open spec fn embedding_lines(info: SearchOverlayInfo) -> Seq<Seq<(Seq<char>, Tone)>> {
    if info.embedding_model@.len() > 0 || info.files_embedding_count > 0 {
        seq![blank(), header("Embeddings"@)] + model_lines(info) + seq![vectors_row(info)] + coverage_lines(info)
            + log_lines(info)
    } else {
        Seq::empty()
    }
}

/// OCR lines.
pub open spec fn ocr_lines(info: SearchOverlayInfo) -> Seq<Seq<(Seq<char>, Tone)>> {
    if info.ocr_available || info.ocr_attempted > 0 {
        seq![blank(), header("OCR Pipeline"@)] + if info.ocr_attempted > 0 {
            seq![
                plain(
                    "  Attempted  "@ + dec(info.ocr_attempted as nat) + "   Succeeded  "@ + dec(
                        info.ocr_succeeded as nat,
                    ) + "   Cached  "@ + dec(info.ocr_cached as nat),
                ),
            ] + if info.ocr_failed > 0 {
                seq![seq![("  Failed     "@, Tone::Plain), (dec(info.ocr_failed as nat), Tone::Error)]]
            } else {
                Seq::empty()
            }
        } else {
            seq![
                seq![
                    ("  "@, Tone::Plain),
                    ("Enabled"@, Tone::Success),
                    (" — no OCR files found yet"@, Tone::Muted),
                ],
            ]
        }
    } else {
        Seq::empty()
    }
}

/// The tone of a task status.
pub open spec fn status_tone(status: Seq<char>) -> Tone {
    if status == "succeeded"@ {
        Tone::Success
    } else if status == "failed"@ {
        Tone::Error
    } else if status == "processing"@ {
        Tone::Warning
    } else {
        Tone::Muted
    }
}

/// One task line.
pub open spec fn task_row(t: MeiliTaskInfo) -> Seq<(Seq<char>, Tone)> {
    seq![
        ("  #"@ + pad_right(dec(t.uid as nat), 6), Tone::Muted),
        (pad_right(t.task_type@, 10) + " "@, Tone::Plain),
        (pad_right(t.status@, 10) + " "@, status_tone(t.status@)),
        (t.duration@, Tone::Muted),
    ]
}

/// The task lines.
pub open spec fn task_rows(ts: Seq<MeiliTaskInfo>) -> Seq<Seq<(Seq<char>, Tone)>> {
    ts.map_values(|t: MeiliTaskInfo| task_row(t))
}

/// One recomputed-file line.
pub open spec fn recomputed_row(e: (Seq<char>, u64)) -> Seq<(Seq<char>, Tone)> {
    seq![("  "@ + pad_left(dec(e.1 as nat), 4) + "×  "@, Tone::Warning), (truncated_path(e.0, 46), Tone::Text)]
}

/// The recomputed-file lines.
pub open spec fn recomputed_rows(es: Seq<(Seq<char>, u64)>) -> Seq<Seq<(Seq<char>, Tone)>> {
    es.map_values(|e: (Seq<char>, u64)| recomputed_row(e))
}

/// One recently-sent line, as seen at `now_ms`.
pub open spec fn sent_row(e: (Seq<char>, u64), now_ms: u64) -> Seq<(Seq<char>, Tone)> {
    seq![
        (
            "  "@ + pad_left(
                if e.1 > 0 {
                    ago_text(now_ms, e.1)
                } else {
                    "?"@
                },
                8,
            ) + "  "@,
            Tone::Muted,
        ),
        (truncated_path(e.0, 42), Tone::Text),
    ]
}

/// The recently-sent lines.
pub open spec fn sent_rows(es: Seq<(Seq<char>, u64)>, now_ms: u64) -> Seq<Seq<(Seq<char>, Tone)>> {
    es.map_values(|e: (Seq<char>, u64)| sent_row(e, now_ms))
}

/// A titled list: a blank line, the header and the rows, when there are rows.
pub open spec fn listing(title: Seq<char>, rows: Seq<Seq<(Seq<char>, Tone)>>) -> Seq<Seq<(Seq<char>, Tone)>> {
    if rows.len() > 0 {
        seq![blank(), header(title)] + rows
    } else {
        Seq::empty()
    }
}

/// The right column, as seen at `now_ms`.
pub open spec fn right_column(info: SearchOverlayInfo, now_ms: u64) -> Seq<Seq<(Seq<char>, Tone)>> {
    splitter_lines(info) + embedding_lines(info) + ocr_lines(info) + listing(
        "Recent Tasks"@,
        task_rows(info.recent_tasks@),
    ) + listing("Top Recomputed"@, recomputed_rows(count_views(info.top_recomputed@))) + listing(
        "Recently Sent"@,
        sent_rows(count_views(info.recently_sent@), now_ms),
    )
}

fn push_header(col: &mut Vec<Vec<Piece>>, title: &str)
    ensures
        lines_view(final(col)@) == lines_view(old(col)@) + seq![blank(), header(title@)],
{
    push_blank(col);
    let h = section_header(title);
    push_line(col, h);
    assert(lines_view(col@) =~= lines_view(old(col)@) + seq![blank(), header(title@)]);
}

fn push_splitter_lines(col: &mut Vec<Vec<Piece>>, info: &SearchOverlayInfo)
    ensures
        lines_view(final(col)@) == lines_view(old(col)@) + splitter_lines(*info),
{
    let total = info.tree_sitter_chunks.saturating_add(info.fallback_chunks);
    if total > 0 {
        push_header(col, "Splitter");
        let ts_pct = percent(info.tree_sitter_chunks, total);
        let fb_pct: u64 = if ts_pct <= 100 {
            100 - ts_pct
        } else {
            0
        };
        let mut a = String::new();
        push_dec(&mut a, info.tree_sitter_chunks);
        a.append(" chunks");
        let mut b = String::from_str("  (");
        push_dec(&mut b, ts_pct);
        b.append("%)");
        let l1 = line3(piece_str("  Tree-sitter  ", Tone::Plain), piece(a, Tone::Success), piece(b, Tone::Muted));
        push_line(col, l1);
        let mut c = String::new();
        push_dec(&mut c, info.fallback_chunks);
        c.append(" chunks");
        let mut d = String::from_str("  (");
        push_dec(&mut d, fb_pct);
        d.append("%)");
        let l2 = line3(piece_str("  Fallback     ", Tone::Plain), piece(c, Tone::Warning), piece(d, Tone::Muted));
        push_line(col, l2);
    }
    assert(lines_view(col@) =~= lines_view(old(col)@) + splitter_lines(*info));
}

fn push_embedding_detail(col: &mut Vec<Vec<Piece>>, info: &SearchOverlayInfo)
    ensures
        lines_view(final(col)@) == lines_view(old(col)@) + model_lines(*info) + seq![vectors_row(*info)],
{
    if !info.embedding_model.as_str().is_empty() {
        let l = line2(piece_str("  Model   ", Tone::Plain), piece(info.embedding_model.clone(), Tone::Text));
        push_line(col, l);
    }
    let ghost mid = lines_view(col@);
    assert(mid =~= lines_view(old(col)@) + model_lines(*info));
    let mut v = String::from_str("  Vectors ");
    let n = dec_string(info.files_embedding_count);
    push_pad_left(&mut v, n.as_str(), 4);
    v.append("  ");
    let status = if info.files_is_indexing {
        piece_str("● generating", Tone::Warning)
    } else {
        piece_str("✓ ready", Tone::Success)
    };
    let l = line2(piece(v, Tone::Plain), status);
    push_line(col, l);
    assert(lines_view(col@) =~= lines_view(old(col)@) + model_lines(*info) + seq![vectors_row(*info)]);
}

fn push_coverage_lines(col: &mut Vec<Vec<Piece>>, info: &SearchOverlayInfo)
    ensures
        lines_view(final(col)@) == lines_view(old(col)@) + coverage_lines(*info) + log_lines(*info),
{
    if info.files_total_doc_count > 0 {
        let cov = percent(info.files_embedded_doc_count, info.files_total_doc_count);
        let mut a = String::new();
        push_dec(&mut a, info.files_embedded_doc_count);
        a.append("/");
        push_dec(&mut a, info.files_total_doc_count);
        let mut b = String::from_str("  (");
        push_dec(&mut b, cov);
        b.append("%)");
        let tone = if cov >= 100 {
            Tone::Success
        } else {
            Tone::Warning
        };
        let l = line3(piece_str("  Coverage ", Tone::Plain), piece(a, tone), piece(b, Tone::Muted));
        push_line(col, l);
    }
    let ghost mid = lines_view(col@);
    assert(mid =~= lines_view(old(col)@) + coverage_lines(*info));
    if info.logs_doc_count > 0 {
        let mut s = String::from_str("  Logs    ");
        push_dec(&mut s, info.logs_doc_count);
        s.append(" documents");
        push_plain(col, s);
    }
    assert(lines_view(col@) =~= lines_view(old(col)@) + coverage_lines(*info) + log_lines(*info));
}

fn push_embedding_lines(col: &mut Vec<Vec<Piece>>, info: &SearchOverlayInfo)
    ensures
        lines_view(final(col)@) == lines_view(old(col)@) + embedding_lines(*info),
{
    if !info.embedding_model.as_str().is_empty() || info.files_embedding_count > 0 {
        push_header(col, "Embeddings");
        push_embedding_detail(col, info);
        push_coverage_lines(col, info);
    }
    assert(lines_view(col@) =~= lines_view(old(col)@) + embedding_lines(*info));
}

fn push_ocr_lines(col: &mut Vec<Vec<Piece>>, info: &SearchOverlayInfo)
    ensures
        lines_view(final(col)@) == lines_view(old(col)@) + ocr_lines(*info),
{
    if info.ocr_available || info.ocr_attempted > 0 {
        push_header(col, "OCR Pipeline");
        if info.ocr_attempted > 0 {
            let mut s = String::from_str("  Attempted  ");
            push_dec(&mut s, info.ocr_attempted);
            s.append("   Succeeded  ");
            push_dec(&mut s, info.ocr_succeeded);
            s.append("   Cached  ");
            push_dec(&mut s, info.ocr_cached);
            push_plain(col, s);
            if info.ocr_failed > 0 {
                let f = dec_string(info.ocr_failed);
                let l = line2(piece_str("  Failed     ", Tone::Plain), piece(f, Tone::Error));
                push_line(col, l);
            }
        } else {
            let l = line3(
                piece_str("  ", Tone::Plain),
                piece_str("Enabled", Tone::Success),
                piece_str(" — no OCR files found yet", Tone::Muted),
            );
            push_line(col, l);
        }
    }
    assert(lines_view(col@) =~= lines_view(old(col)@) + ocr_lines(*info));
}

/// The tone of a task status.
pub fn task_status_tone(status: &str) -> (r: Tone)
    ensures
        r == status_tone(status@),
{
    let v = crate::text::chars_of(status);
    if crate::text::chars_eq_str(&v, "succeeded") {
        Tone::Success
    } else if crate::text::chars_eq_str(&v, "failed") {
        Tone::Error
    } else if crate::text::chars_eq_str(&v, "processing") {
        Tone::Warning
    } else {
        Tone::Muted
    }
}

fn task_line_pieces(t: &MeiliTaskInfo) -> (r: Vec<Piece>)
    ensures
        line_view(r@) == task_row(*t),
{
    let mut a = String::from_str("  #");
    let u = dec_string(t.uid);
    push_pad_right(&mut a, u.as_str(), 6);
    let mut b = String::new();
    push_pad_right(&mut b, t.task_type.as_str(), 10);
    b.append(" ");
    let mut c = String::new();
    push_pad_right(&mut c, t.status.as_str(), 10);
    c.append(" ");
    let tone = task_status_tone(t.status.as_str());
    line4(piece(a, Tone::Muted), piece(b, Tone::Plain), piece(c, tone), piece(t.duration.clone(), Tone::Muted))
}

fn push_task_lines(col: &mut Vec<Vec<Piece>>, info: &SearchOverlayInfo)
    ensures
        lines_view(final(col)@) == lines_view(old(col)@) + listing("Recent Tasks"@, task_rows(info.recent_tasks@)),
{
    let ts = &info.recent_tasks;
    if ts.len() == 0 {
        assert(lines_view(col@) =~= lines_view(old(col)@) + listing("Recent Tasks"@, task_rows(ts@)));
        return;
    }
    push_header(col, "Recent Tasks");
    let ghost base = lines_view(col@);
    let mut i: usize = 0;
    while i < ts.len()
        invariant
            i <= ts@.len(),
            lines_view(col@) == base + task_rows(ts@.take(i as int)),
        decreases ts@.len() - i,
    {
        let l = task_line_pieces(&ts[i]);
        push_line(col, l);
        proof {
            assert(task_rows(ts@.take(i + 1)) =~= task_rows(ts@.take(i as int)).push(task_row(ts@[i as int])));
        }
        i = i + 1;
    }
    assert(ts@.take(ts@.len() as int) =~= ts@);
    assert(lines_view(col@) =~= lines_view(old(col)@) + listing("Recent Tasks"@, task_rows(ts@)));
}

fn push_recomputed_lines(col: &mut Vec<Vec<Piece>>, info: &SearchOverlayInfo)
    ensures
        lines_view(final(col)@) == lines_view(old(col)@) + listing(
            "Top Recomputed"@,
            recomputed_rows(count_views(info.top_recomputed@)),
        ),
{
    let es = &info.top_recomputed;
    let ghost cv = count_views(es@);
    if es.len() == 0 {
        assert(lines_view(col@) =~= lines_view(old(col)@) + listing("Top Recomputed"@, recomputed_rows(cv)));
        return;
    }
    push_header(col, "Top Recomputed");
    let ghost base = lines_view(col@);
    let mut i: usize = 0;
    while i < es.len()
        invariant
            i <= es@.len(),
            cv == count_views(es@),
            lines_view(col@) == base + recomputed_rows(cv.take(i as int)),
        decreases es@.len() - i,
    {
        let mut a = String::from_str("  ");
        let c = dec_string(es[i].1);
        push_pad_left(&mut a, c.as_str(), 4);
        a.append("×  ");
        let short = truncate_path(es[i].0.as_str(), 46);
        let l = line2(piece(a, Tone::Warning), piece(short, Tone::Text));
        push_line(col, l);
        proof {
            assert(cv[i as int] == (es@[i as int].0@, es@[i as int].1));
            assert(recomputed_rows(cv.take(i + 1)) =~= recomputed_rows(cv.take(i as int)).push(
                recomputed_row(cv[i as int]),
            ));
        }
        i = i + 1;
    }
    assert(cv.take(es@.len() as int) =~= cv);
    assert(lines_view(col@) =~= lines_view(old(col)@) + listing("Top Recomputed"@, recomputed_rows(cv)));
}

fn push_sent_lines(col: &mut Vec<Vec<Piece>>, info: &SearchOverlayInfo, now_ms: u64)
    ensures
        lines_view(final(col)@) == lines_view(old(col)@) + listing(
            "Recently Sent"@,
            sent_rows(count_views(info.recently_sent@), now_ms),
        ),
{
    let es = &info.recently_sent;
    let ghost cv = count_views(es@);
    if es.len() == 0 {
        assert(lines_view(col@) =~= lines_view(old(col)@) + listing("Recently Sent"@, sent_rows(cv, now_ms)));
        return;
    }
    push_header(col, "Recently Sent");
    let ghost base = lines_view(col@);
    let mut i: usize = 0;
    while i < es.len()
        invariant
            i <= es@.len(),
            cv == count_views(es@),
            lines_view(col@) == base + sent_rows(cv.take(i as int), now_ms),
        decreases es@.len() - i,
    {
        let mut a = String::from_str("  ");
        let ago = if es[i].1 > 0 {
            format_ago(now_ms, es[i].1)
        } else {
            String::from_str("?")
        };
        push_pad_left(&mut a, ago.as_str(), 8);
        a.append("  ");
        let short = truncate_path(es[i].0.as_str(), 42);
        let l = line2(piece(a, Tone::Muted), piece(short, Tone::Text));
        push_line(col, l);
        proof {
            assert(cv[i as int] == (es@[i as int].0@, es@[i as int].1));
            assert(sent_rows(cv.take(i + 1), now_ms) =~= sent_rows(cv.take(i as int), now_ms).push(
                sent_row(cv[i as int], now_ms),
            ));
        }
        i = i + 1;
    }
    assert(cv.take(es@.len() as int) =~= cv);
    assert(lines_view(col@) =~= lines_view(old(col)@) + listing("Recently Sent"@, sent_rows(cv, now_ms)));
}

/// Build the right column, as seen at `now_ms`: splitter, embeddings, OCR, recent tasks,
/// most recomputed files and recently sent files.
pub fn build_right_column(info: &SearchOverlayInfo, now_ms: u64) -> (r: Vec<Vec<Piece>>)
    ensures
        lines_view(r@) == right_column(*info, now_ms),
{
    let mut col: Vec<Vec<Piece>> = Vec::new();
    assert(lines_view(col@) =~= Seq::empty());
    push_splitter_lines(&mut col, info);
    push_embedding_lines(&mut col, info);
    push_ocr_lines(&mut col, info);
    push_task_lines(&mut col, info);
    push_recomputed_lines(&mut col, info);
    push_sent_lines(&mut col, info, now_ms);
    assert(lines_view(col@) =~= right_column(*info, now_ms));
    col
}

// =============================================================================
// Left column: server, process, database, index, extensions
// =============================================================================

/// The tone of a CPU load band.
pub open spec fn load_tone(l: CpuLoad) -> Tone {
    match l {
        CpuLoad::Low => Tone::Success,
        CpuLoad::Medium => Tone::Warning,
        CpuLoad::High => Tone::Error,
    }
}

/// The server line, after a blank line.
pub open spec fn server_lines(info: SearchOverlayInfo) -> Seq<Seq<(Seq<char>, Tone)>> {
    seq![
        blank(),
        seq![
            ("  Server  "@, Tone::Plain),
            ("http://127.0.0.1:"@ + dec(info.port as nat), Tone::Text),
            ("  "@, Tone::Plain),
            if info.port > 0 {
                ("● online"@, Tone::Success)
            } else {
                ("○ offline"@, Tone::Error)
            },
            (only_if(info.meili_version@.len() > 0, "  v"@ + info.meili_version@), Tone::Muted),
        ],
    ]
}

/// The process line, when the server uses memory or CPU.
pub open spec fn process_lines(info: SearchOverlayInfo) -> Seq<Seq<(Seq<char>, Tone)>> {
    if info.meili_memory_bytes > 0 || info.meili_cpu_busy {
        seq![
            seq![
                ("  Process "@, Tone::Plain),
                ("CPU "@ + info.meili_cpu_text@ + "%"@, load_tone(info.meili_cpu_load)),
                ("    "@, Tone::Plain),
                ("RAM "@ + bytes_text(info.meili_memory_bytes), Tone::Text),
            ],
        ]
    } else {
        Seq::empty()
    }
}

/// Database lines, when the database has a size.
pub open spec fn database_lines(info: SearchOverlayInfo) -> Seq<Seq<(Seq<char>, Tone)>> {
    if info.database_size_bytes > 0 {
        seq![
            blank(),
            header("Database"@),
            seq![
                ("  Disk  "@, Tone::Plain),
                (bytes_text(info.used_database_size_bytes), Tone::Text),
                (" / "@, Tone::Muted),
                (bytes_text(info.database_size_bytes), Tone::Muted),
                ("    "@, Tone::Plain),
                ("Docs  "@, Tone::Muted),
                (bytes_text(info.raw_document_db_size), Tone::Text),
            ],
        ] + if info.avg_document_size > 0 {
            seq![seq![("  Avg chunk  "@, Tone::Plain), (bytes_text(info.avg_document_size), Tone::Text)]]
        } else {
            Seq::empty()
        }
    } else {
        Seq::empty()
    }
}

/// Index statistics lines, as seen at `now_ms`.
pub open spec fn index_lines(info: SearchOverlayInfo, now_ms: u64) -> Seq<Seq<(Seq<char>, Tone)>> {
    seq![
        blank(),
        header("Index"@),
        plain("  Files  "@ + pad_right(dec(info.files_indexed as nat), 10) + " Chunks  "@ + dec(info.chunks_indexed as nat)),
        plain(
            "  Queue  "@ + pad_right(dec(info.queue_depth as nat) + " pending"@, 10) + " Errors  "@ + dec(
                info.error_count as nat,
            ),
        ),
        plain(
            "  Status "@ + pad_right(
                if info.index_ready {
                    "Ready"@
                } else {
                    "Scanning…"@
                },
                10,
            ) + " Last    "@ + if info.last_activity_ms > 0 {
                ago_text(now_ms, info.last_activity_ms)
            } else {
                "never"@
            },
        ),
    ]
}

/// The width of an extension's bar: its count scaled to 28 against the largest count
/// (the product saturating), at least 1.
pub open spec fn bar_width(count: u64, max_count: int) -> nat {
    let m: int = if count * 28 > u64::MAX {
        u64::MAX as int
    } else {
        count * 28
    };
    let b: int = if max_count > 0 {
        m / max_count
    } else {
        0
    };
    let u: int = if b <= usize::MAX {
        b
    } else {
        0
    };
    if u < 1 {
        1
    } else {
        u as nat
    }
}

/// One extension line.
pub open spec fn ext_row(e: (Seq<char>, u64), max_count: int, total: int) -> Seq<(Seq<char>, Tone)> {
    seq![
        ("  "@ + pad_right(e.0, 6) + " "@ + pad_left(dec(e.1 as nat), 4) + "  "@, Tone::Plain),
        (repeated('█', bar_width(e.1, max_count)), Tone::Accent),
        ("  "@ + dec(percent_of(e.1, total) as nat) + "%"@, Tone::Muted),
    ]
}

/// The extension lines.
pub open spec fn ext_rows(es: Seq<(Seq<char>, u64)>, max_count: int, total: int) -> Seq<Seq<(Seq<char>, Tone)>> {
    es.map_values(|e: (Seq<char>, u64)| ext_row(e, max_count, total))
}

/// The largest count for the bars: the first entry's count, at least 1.
pub open spec fn bar_max(es: Seq<(Seq<char>, u64)>) -> int {
    if es.len() > 0 && es[0].1 > 1 {
        es[0].1 as int
    } else {
        1
    }
}

/// Extension lines.
pub open spec fn extension_lines(info: SearchOverlayInfo) -> Seq<Seq<(Seq<char>, Tone)>> {
    let es = count_views(info.top_extensions@);
    listing("Extensions"@, ext_rows(es, bar_max(es), crate::search::counts_total(es)))
}

/// The left column, as seen at `now_ms`.
pub open spec fn left_column(info: SearchOverlayInfo, now_ms: u64) -> Seq<Seq<(Seq<char>, Tone)>> {
    server_lines(info) + process_lines(info) + database_lines(info) + index_lines(info, now_ms) + extension_lines(
        info,
    )
}

/// The tone of a CPU load band.
pub fn cpu_tone(l: CpuLoad) -> (r: Tone)
    ensures
        r == load_tone(l),
{
    match l {
        CpuLoad::Low => Tone::Success,
        CpuLoad::Medium => Tone::Warning,
        CpuLoad::High => Tone::Error,
    }
}

fn push_server_lines(col: &mut Vec<Vec<Piece>>, info: &SearchOverlayInfo)
    ensures
        lines_view(final(col)@) == lines_view(old(col)@) + server_lines(*info),
{
    push_blank(col);
    let mut url = String::from_str("http://127.0.0.1:");
    push_dec(&mut url, info.port as u64);
    let status = if info.port > 0 {
        piece_str("● online", Tone::Success)
    } else {
        piece_str("○ offline", Tone::Error)
    };
    let mut version = String::new();
    if !info.meili_version.as_str().is_empty() {
        version.append("  v");
        version.append(info.meili_version.as_str());
    }
    assert(version@ =~= only_if(info.meili_version@.len() > 0, "  v"@ + info.meili_version@));
    let l = line5(
        piece_str("  Server  ", Tone::Plain),
        piece(url, Tone::Text),
        piece_str("  ", Tone::Plain),
        status,
        piece(version, Tone::Muted),
    );
    push_line(col, l);
    assert(lines_view(col@) =~= lines_view(old(col)@) + server_lines(*info));
}

fn push_process_lines(col: &mut Vec<Vec<Piece>>, info: &SearchOverlayInfo)
    ensures
        lines_view(final(col)@) == lines_view(old(col)@) + process_lines(*info),
{
    if info.meili_memory_bytes > 0 || info.meili_cpu_busy {
        let mut c = String::from_str("CPU ");
        c.append(info.meili_cpu_text.as_str());
        c.append("%");
        let mut m = String::from_str("RAM ");
        let b = format_bytes(info.meili_memory_bytes);
        m.append(b.as_str());
        let l = line4(
            piece_str("  Process ", Tone::Plain),
            piece(c, cpu_tone(info.meili_cpu_load)),
            piece_str("    ", Tone::Plain),
            piece(m, Tone::Text),
        );
        push_line(col, l);
    }
    assert(lines_view(col@) =~= lines_view(old(col)@) + process_lines(*info));
}

fn push_database_lines(col: &mut Vec<Vec<Piece>>, info: &SearchOverlayInfo)
    ensures
        lines_view(final(col)@) == lines_view(old(col)@) + database_lines(*info),
{
    if info.database_size_bytes > 0 {
        push_header(col, "Database");
        let l = line7(
            piece_str("  Disk  ", Tone::Plain),
            piece(format_bytes(info.used_database_size_bytes), Tone::Text),
            piece_str(" / ", Tone::Muted),
            piece(format_bytes(info.database_size_bytes), Tone::Muted),
            piece_str("    ", Tone::Plain),
            piece_str("Docs  ", Tone::Muted),
            piece(format_bytes(info.raw_document_db_size), Tone::Text),
        );
        push_line(col, l);
        if info.avg_document_size > 0 {
            let l2 = line2(piece_str("  Avg chunk  ", Tone::Plain), piece(format_bytes(info.avg_document_size), Tone::Text));
            push_line(col, l2);
        }
    }
    assert(lines_view(col@) =~= lines_view(old(col)@) + database_lines(*info));
}

fn push_index_lines(col: &mut Vec<Vec<Piece>>, info: &SearchOverlayInfo, now_ms: u64)
    ensures
        lines_view(final(col)@) == lines_view(old(col)@) + index_lines(*info, now_ms),
{
    push_header(col, "Index");
    let mut a = String::from_str("  Files  ");
    let f = dec_string(info.files_indexed);
    push_pad_right(&mut a, f.as_str(), 10);
    a.append(" Chunks  ");
    push_dec(&mut a, info.chunks_indexed);
    push_plain(col, a);
    let mut b = String::from_str("  Queue  ");
    let mut q = dec_string(info.queue_depth);
    q.append(" pending");
    push_pad_right(&mut b, q.as_str(), 10);
    b.append(" Errors  ");
    push_dec(&mut b, info.error_count);
    push_plain(col, b);
    let mut c = String::from_str("  Status ");
    let ready = if info.index_ready {
        "Ready"
    } else {
        "Scanning…"
    };
    push_pad_right(&mut c, ready, 10);
    c.append(" Last    ");
    if info.last_activity_ms > 0 {
        let a = format_ago(now_ms, info.last_activity_ms);
        c.append(a.as_str());
    } else {
        c.append("never");
    }
    push_plain(col, c);
    assert(lines_view(col@) =~= lines_view(old(col)@) + index_lines(*info, now_ms));
}

fn bar_length(count: u64, max_count: u64) -> (r: usize)
    requires
        max_count >= 1,
    ensures
        r == bar_width(count, max_count as int),
{
    let m = match count.checked_mul(28) {
        Some(x) => x,
        None => u64::MAX,
    };
    let b = m / max_count;
    let u: usize = if b <= usize::MAX as u64 {
        b as usize
    } else {
        0
    };
    if u < 1 {
        1
    } else {
        u
    }
}

fn push_extension_lines(col: &mut Vec<Vec<Piece>>, info: &SearchOverlayInfo)
    requires
        crate::search::counts_total(count_views(info.top_extensions@)) <= u64::MAX,
    ensures
        lines_view(final(col)@) == lines_view(old(col)@) + extension_lines(*info),
{
    let es = &info.top_extensions;
    let ghost cv = count_views(es@);
    if es.len() == 0 {
        assert(lines_view(col@) =~= lines_view(old(col)@) + extension_lines(*info));
        return;
    }
    push_header(col, "Extensions");
    let max_count: u64 = if es[0].1 > 1 {
        es[0].1
    } else {
        1
    };
    assert(cv[0] == (es@[0].0@, es@[0].1));
    let total = crate::search::total_count(es);
    let ghost base = lines_view(col@);
    let mut i: usize = 0;
    while i < es.len()
        invariant
            i <= es@.len(),
            cv == count_views(es@),
            max_count >= 1,
            max_count == bar_max(cv),
            total == crate::search::counts_total(cv),
            lines_view(col@) == base + ext_rows(cv.take(i as int), max_count as int, total as int),
        decreases es@.len() - i,
    {
        let mut a = String::from_str("  ");
        push_pad_right(&mut a, es[i].0.as_str(), 6);
        a.append(" ");
        let c = dec_string(es[i].1);
        push_pad_left(&mut a, c.as_str(), 4);
        a.append("  ");
        let fill = repeat_char('█', bar_length(es[i].1, max_count));
        let mut p = String::from_str("  ");
        push_dec(&mut p, percent(es[i].1, total));
        p.append("%");
        let l = line3(piece(a, Tone::Plain), piece(fill, Tone::Accent), piece(p, Tone::Muted));
        push_line(col, l);
        proof {
            assert(cv[i as int] == (es@[i as int].0@, es@[i as int].1));
            assert(ext_rows(cv.take(i + 1), max_count as int, total as int) =~= ext_rows(
                cv.take(i as int),
                max_count as int,
                total as int,
            ).push(ext_row(cv[i as int], max_count as int, total as int)));
        }
        i = i + 1;
    }
    assert(cv.take(es@.len() as int) =~= cv);
    assert(lines_view(col@) =~= lines_view(old(col)@) + extension_lines(*info));
}

/// Build the left column, as seen at `now_ms`: server, process, database, index statistics
/// and extensions.
pub fn build_left_column(info: &SearchOverlayInfo, now_ms: u64) -> (r: Vec<Vec<Piece>>)
    requires
        crate::search::counts_total(count_views(info.top_extensions@)) <= u64::MAX,
    ensures
        lines_view(r@) == left_column(*info, now_ms),
{
    let mut col: Vec<Vec<Piece>> = Vec::new();
    assert(lines_view(col@) =~= Seq::empty());
    push_server_lines(&mut col, info);
    push_process_lines(&mut col, info);
    push_database_lines(&mut col, info);
    push_index_lines(&mut col, info, now_ms);
    push_extension_lines(&mut col, info);
    assert(lines_view(col@) =~= left_column(*info, now_ms));
    col
}

/// The two columns without overlay data.
pub open spec fn fallback_column() -> Seq<Seq<(Seq<char>, Tone)>> {
    seq![blank(), plain("  Search module not initialized."@)]
}

/// Build the overlay content as two columns (left, right), as seen at `now_ms`; without
/// overlay data, a notice on the left and nothing on the right.
pub fn build_overlay_columns(info: &Option<SearchOverlayInfo>, now_ms: u64) -> (r: (Vec<Vec<Piece>>, Vec<Vec<Piece>>))
    requires
        info matches Some(i) ==> crate::search::counts_total(count_views(i.top_extensions@)) <= u64::MAX,
    ensures
        match *info {
            Some(i) => lines_view(r.0@) == left_column(i, now_ms) && lines_view(r.1@) == right_column(i, now_ms),
            None => lines_view(r.0@) == fallback_column() && r.1@.len() == 0,
        },
{
    match info {
        Some(i) => (build_left_column(i, now_ms), build_right_column(i, now_ms)),
        None => {
            let mut left: Vec<Vec<Piece>> = Vec::new();
            push_blank(&mut left);
            push_plain(&mut left, String::from_str("  Search module not initialized."));
            assert(lines_view(left@) =~= fallback_column());
            (left, Vec::new())
        },
    }
}

// =============================================================================
// The frame
// =============================================================================

/// A rectangle of terminal cells.
#[derive(Debug, PartialEq, Eq, Structural, Clone, Copy)]
pub struct Area {
    pub x: u16,
    pub y: u16,
    pub width: u16,
    pub height: u16,
}

/// The rectangle ends within the coordinate range.
pub open spec fn area_fits(a: Area) -> bool {
    a.x + a.width <= u16::MAX && a.y + a.height <= u16::MAX
}

/// `a` lies within `outer`.
pub open spec fn area_within(a: Area, outer: Area) -> bool {
    outer.x <= a.x && a.x + a.width <= outer.x + outer.width && outer.y <= a.y && a.y + a.height
        <= outer.y + outer.height
}

/// Compute a centered rectangle within the given area: the size is cut to the area's,
/// and the rest of the area is split evenly on both sides (the odd cell after).
pub fn centered_rect(width: u16, height: u16, area: Area) -> (r: Area)
    requires
        area_fits(area),
    ensures
        r.width == if width < area.width { width } else { area.width },
        r.height == if height < area.height { height } else { area.height },
        r.x == area.x + (area.width - r.width) / 2,
        r.y == area.y + (area.height - r.height) / 2,
        area_within(r, area),
        area_fits(r),
{
    let eff_w = if width < area.width {
        width
    } else {
        area.width
    };
    let eff_h = if height < area.height {
        height
    } else {
        area.height
    };
    let x_off = (area.width - eff_w) / 2;
    let y_off = (area.height - eff_h) / 2;
    Area { x: area.x + x_off, y: area.y + y_off, width: eff_w, height: eff_h }
}

/// The overlay's width in cells.
pub const OVERLAY_WIDTH: u16 = 120;

/// How long the copied notice stays in the title, in milliseconds.
pub const COPIED_FLASH_MS: u64 = 1500;

/// Where and under which title the overlay is drawn.
pub struct OverlayFrame {
    /// The overlay's rectangle.
    pub popup: Area,
    /// The title on the top border.
    pub title: String,
    /// The hint on the bottom border.
    pub footer: String,
}

/// The rows a column takes with its borders: its lines and two, or 30 when that does not
/// fit in a `u16`.
pub open spec fn column_rows(lines: usize) -> int {
    let n: int = if lines + 2 > usize::MAX {
        usize::MAX as int
    } else {
        lines + 2
    };
    if n <= u16::MAX {
        n
    } else {
        30
    }
}

/// The copied notice shows: a copy happened less than the flash time ago.
pub open spec fn copied_flash_active(copied_flash_ms: u64, now_ms: u64) -> bool {
    copied_flash_ms > 0 && (if now_ms >= copied_flash_ms {
        now_ms - copied_flash_ms
    } else {
        0
    }) < COPIED_FLASH_MS
}

fn rows_for(lines: usize) -> (r: u16)
    ensures
        r == column_rows(lines),
{
    let n = lines.saturating_add(2);
    if n <= 65535 {
        n as u16
    } else {
        30
    }
}

/// The overlay's frame for columns of `left_lines` and `right_lines` lines in `area`, as seen
/// at `now_ms`: as tall as the longer column with its borders (cut to the area), 120 cells
/// wide (cut likewise), centered; titled with the copied notice for 1.5 s after a copy.
pub fn overlay_frame(left_lines: usize, right_lines: usize, area: Area, copied_flash_ms: u64, now_ms: u64) -> (r:
    OverlayFrame)
    requires
        area_fits(area),
    ensures
        ({
            let h = if column_rows(left_lines) >= column_rows(right_lines) {
                column_rows(left_lines)
            } else {
                column_rows(right_lines)
            };
            let eh = if h < area.height {
                h
            } else {
                area.height as int
            };
            &&& r.popup.height == eh
            &&& r.popup.width == if OVERLAY_WIDTH < area.width {
                OVERLAY_WIDTH
            } else {
                area.width
            }
            &&& r.popup.x == area.x + (area.width - r.popup.width) / 2
            &&& r.popup.y == area.y + (area.height - r.popup.height) / 2
        }),
        r.title@ == if copied_flash_active(copied_flash_ms, now_ms) {
            " ✓ Copied! "@
        } else {
            " Indexing Status "@
        },
        r.footer@ == " Ctrl+C copy · Ctrl+I or Esc to dismiss "@,
{
    let l = rows_for(left_lines);
    let rr = rows_for(right_lines);
    let h0 = if l >= rr {
        l
    } else {
        rr
    };
    let height = if h0 < area.height {
        h0
    } else {
        area.height
    };
    let popup = centered_rect(OVERLAY_WIDTH, height, area);
    let since = now_ms.saturating_sub(copied_flash_ms);
    let flash = copied_flash_ms > 0 && since < COPIED_FLASH_MS;
    let title = if flash {
        String::from_str(" ✓ Copied! ")
    } else {
        String::from_str(" Indexing Status ")
    };
    OverlayFrame { popup, title, footer: String::from_str(" Ctrl+C copy · Ctrl+I or Esc to dismiss ") }
}

} // verus!
