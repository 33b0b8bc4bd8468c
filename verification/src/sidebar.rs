//! The sidebar's token statistics: the cache-breakpoint lines and the rounded box around
//! the statistics.
use crate::overlay_columns::{line_view, lines_view, piece_view, repeat_char, repeated, sat_sub, Piece, Tone};
use crate::text::push_dec;
use unicode_width::UnicodeWidthStr;
use vstd::prelude::*;
use vstd::string::*;

verus! {

/// `a * b`, saturating at `usize::MAX`.
pub open spec fn sat_mul(a: int, b: int) -> int {
    if a * b > usize::MAX {
        usize::MAX as int
    } else {
        a * b
    }
}

/// The first permille of the conversation that column `i` of `width` stands for.
pub open spec fn column_start(i: int, width: int) -> int {
    sat_mul(i, 1000) / width
}

/// The first permille after column `i`.
pub open spec fn column_end(i: int, width: int) -> int {
    sat_mul(i + 1, 1000) / width
}

/// Some breakpoint falls in column `i`.
pub open spec fn column_has_breakpoint(positions: Seq<u16>, i: int, width: int) -> bool {
    exists|k: int|
        0 <= k < positions.len() && column_start(i, width) <= #[trigger] positions[k] && positions[k] < column_end(
            i,
            width,
        )
}

fn mul_1000(a: usize) -> (r: usize)
    ensures
        r == sat_mul(a as int, 1000),
{
    match a.checked_mul(1000) {
        Some(x) => x,
        None => usize::MAX,
    }
}

/// The gauge of live cache breakpoints: one cell per column of `width`, each column standing
/// for an equal share of the conversation in permille; a cell is set when a breakpoint
/// position (in permille) falls in its share.
pub fn breakpoint_gauge(positions: &Vec<u16>, width: usize) -> (r: Vec<bool>)
    ensures
        r@.len() == width,
        forall|i: int| 0 <= i < width ==> #[trigger] r@[i] == column_has_breakpoint(positions@, i, width as int),
{
    let mut cells: Vec<bool> = Vec::new();
    let mut i: usize = 0;
    while i < width
        invariant
            i <= width,
            cells@.len() == i,
            forall|j: int| 0 <= j < i ==> #[trigger] cells@[j] == column_has_breakpoint(positions@, j, width as int),
        decreases width - i,
    {
        let start = mul_1000(i) / width;
        let end = mul_1000(i + 1) / width;
        let mut found = false;
        let mut k: usize = 0;
        while k < positions.len()
            invariant
                k <= positions@.len(),
                i < width,
                start == column_start(i as int, width as int),
                end == column_end(i as int, width as int),
                found == exists|q: int|
                    0 <= q < k && start <= #[trigger] positions@[q] && positions@[q] < end,
            decreases positions@.len() - k,
        {
            let p = positions[k] as usize;
            if start <= p && p < end {
                found = true;
            }
            k = k + 1;
        }
        cells.push(found);
        i = i + 1;
    }
    cells
}

/// The display width of a text in terminal columns, as `unicode_width` measures it.
pub uninterp spec fn display_width_of(s: Seq<char>) -> usize;

/// `unicode_width::UnicodeWidthStr::width`: the result is named `display_width_of` of the
/// text (a function of the text alone; its table of character widths is not restated).
#[verifier::external_body]
fn display_width(s: &str) -> (r: usize)
    ensures
        r == display_width_of(s@),
{
    s.width()
}

/// The character of an empty gauge cell.
pub const GAUGE_EMPTY: &'static str = "░";

/// The breakpoint lines: none without live breakpoints; else `alive BPs: N`, and, when
/// their positions are known, the gauge across `width` columns (`|` where a breakpoint
/// falls, a light block elsewhere).
pub open spec fn breakpoint_lines_view(alive: u64, positions: Seq<u16>, width: nat) -> Seq<
    Seq<(Seq<char>, Tone)>,
> {
    if alive == 0 {
        Seq::empty()
    } else {
        let count_line = seq![("alive BPs: "@ + crate::text::dec(alive as nat), Tone::Success)];
        if positions.len() == 0 {
            seq![count_line]
        } else {
            seq![
                count_line,
                Seq::new(
                    width,
                    |i: int|
                        if column_has_breakpoint(positions, i, width as int) {
                            ("|"@, Tone::Success)
                        } else {
                            (GAUGE_EMPTY@, Tone::Muted)
                        },
                ),
            ]
        }
    }
}

/// The lines for the live cache breakpoints (`alive` of them, at `positions` in permille),
/// the gauge spanning `width` columns.
pub fn breakpoint_lines(alive: u64, positions: &Vec<u16>, width: usize) -> (r: Vec<Vec<Piece>>)
    ensures
        lines_view(r@) == breakpoint_lines_view(alive, positions@, width as nat),
{
    let mut out: Vec<Vec<Piece>> = Vec::new();
    if alive == 0 {
        assert(lines_view(out@) =~= breakpoint_lines_view(alive, positions@, width as nat));
        return out;
    }
    let mut t = String::from_str("alive BPs: ");
    push_dec(&mut t, alive);
    let mut first: Vec<Piece> = Vec::new();
    first.push(Piece { text: t, tone: Tone::Success });
    let ghost l0 = line_view(first@);
    assert(l0 =~= seq![("alive BPs: "@ + crate::text::dec(alive as nat), Tone::Success)]);
    out.push(first);
    if positions.len() == 0 {
        assert(lines_view(out@) =~= breakpoint_lines_view(alive, positions@, width as nat));
        return out;
    }
    let cells = breakpoint_gauge(positions, width);
    let mut gauge: Vec<Piece> = Vec::new();
    let mut i: usize = 0;
    while i < width
        invariant
            i <= width,
            cells@.len() == width,
            forall|j: int| 0 <= j < width ==> #[trigger] cells@[j] == column_has_breakpoint(positions@, j, width as int),
            gauge@.len() == i,
            forall|j: int|
                0 <= j < i ==> piece_view(#[trigger] gauge@[j]) == if column_has_breakpoint(
                    positions@,
                    j,
                    width as int,
                ) {
                    ("|"@, Tone::Success)
                } else {
                    (GAUGE_EMPTY@, Tone::Muted)
                },
        decreases width - i,
    {
        if cells[i] {
            gauge.push(Piece { text: String::from_str("|"), tone: Tone::Success });
        } else {
            gauge.push(Piece { text: String::from_str(GAUGE_EMPTY), tone: Tone::Muted });
        }
        i = i + 1;
    }
    let ghost gv = line_view(gauge@);
    out.push(gauge);
    proof {
        let expect = breakpoint_lines_view(alive, positions@, width as nat);
        assert(gv =~= expect[1]);
        assert(lines_view(out@) =~= expect);
    }
    out
}

/// The display width of a line: the widths of its pieces added up.
pub open spec fn line_width(l: Seq<(Seq<char>, Tone)>) -> int
    decreases l.len(),
{
    if l.len() == 0 {
        0
    } else {
        line_width(l.drop_last()) + display_width_of(l.last().0)
    }
}

/// A border line: a one-column indent, then `left`, `inner` dashes and `right`.
pub open spec fn border_line(left: Seq<char>, inner: nat, right: Seq<char>) -> Seq<(Seq<char>, Tone)> {
    seq![(" "@, Tone::Plain), (left, Tone::Muted), (repeated('─', inner), Tone::Muted), (right, Tone::Muted)]
}

/// A content line in the box: indent, `│`, the line, spaces up to the inner width, `│`.
pub open spec fn boxed_line(l: Seq<(Seq<char>, Tone)>, inner: nat) -> Seq<(Seq<char>, Tone)> {
    seq![(" "@, Tone::Plain), ("│"@, Tone::Muted)] + l + seq![
        (repeated(' ', sat_sub(inner as int, line_width(l))), Tone::Plain),
        ("│"@, Tone::Muted),
    ]
}

/// Statistics lines in a rounded box `width` columns wide (the inner width two less).
pub open spec fn stats_box_view(content: Seq<Seq<(Seq<char>, Tone)>>, width: usize) -> Seq<
    Seq<(Seq<char>, Tone)>,
> {
    let inner = sat_sub(width as int, 2);
    seq![border_line("╭"@, inner, "╮"@)] + content.map_values(
        |l: Seq<(Seq<char>, Tone)>| boxed_line(l, inner),
    ) + seq![border_line("╰"@, inner, "╯"@)]
}

fn text_piece(s: &str, tone: Tone) -> (r: Piece)
    ensures
        piece_view(r) == (s@, tone),
{
    Piece { text: String::from_str(s), tone }
}

fn border(left: &str, inner: usize, right: &str) -> (r: Vec<Piece>)
    ensures
        line_view(r@) == border_line(left@, inner as nat, right@),
{
    let mut v: Vec<Piece> = Vec::new();
    v.push(text_piece(" ", Tone::Plain));
    v.push(text_piece(left, Tone::Muted));
    v.push(Piece { text: repeat_char('─', inner), tone: Tone::Muted });
    v.push(text_piece(right, Tone::Muted));
    assert(line_view(v@) =~= border_line(left@, inner as nat, right@));
    v
}

/// A content line in the box, padded to `inner` columns.
fn boxed(line: Vec<Piece>, inner: usize) -> (r: Vec<Piece>)
    ensures
        line_view(r@) == boxed_line(line_view(line@), inner as nat),
{
    let ghost l = line_view(line@);
    let mut w: usize = 0;
    let mut i: usize = 0;
    while i < line.len()
        invariant
            i <= line@.len(),
            l == line_view(line@),
            w == if line_width(l.take(i as int)) > usize::MAX {
                usize::MAX as int
            } else {
                line_width(l.take(i as int))
            },
            line_width(l.take(i as int)) >= 0,
        decreases line@.len() - i,
    {
        let d = display_width(line[i].text.as_str());
        proof {
            assert(l.take(i + 1).drop_last() =~= l.take(i as int));
            assert(l.take(i + 1).last() == l[i as int]);
        }
        w = w.saturating_add(d);
        i = i + 1;
    }
    assert(l.take(line@.len() as int) =~= l);
    let pad = inner.saturating_sub(w);
    let mut v: Vec<Piece> = Vec::new();
    v.push(text_piece(" ", Tone::Plain));
    v.push(text_piece("│", Tone::Muted));
    let ghost head = line_view(v@);
    let mut line = line;
    v.append(&mut line);
    v.push(Piece { text: repeat_char(' ', pad), tone: Tone::Plain });
    v.push(text_piece("│", Tone::Muted));
    proof {
        assert(pad as nat == sat_sub(inner as int, line_width(l)));
        assert(line_view(v@) =~= boxed_line(l, inner as nat));
    }
    v
}

/// Wrap the statistics lines in a rounded box `width` columns wide: a top border, each line
/// between `│` borders padded with spaces to the inner width (by display width), and a
/// bottom border.
pub fn stats_box(content: Vec<Vec<Piece>>, width: usize) -> (r: Vec<Vec<Piece>>)
    ensures
        lines_view(r@) == stats_box_view(lines_view(content@), width),
{
    let inner = width.saturating_sub(2);
    let ghost cv = lines_view(content@);
    assert(inner as nat == sat_sub(width as int, 2));
    let mut out: Vec<Vec<Piece>> = Vec::new();
    out.push(border("╭", inner, "╮"));
    let ghost orig = content@;
    let total = content.len();
    let mut rest = content;
    let mut i: usize = 0;
    while i < total
        invariant
            rest@ == orig.skip(i as int),
            total == orig.len(),
            i <= orig.len(),
            cv == lines_view(orig),
            out@.len() == i + 1,
            line_view(out@[0]@) == border_line("╭"@, inner as nat, "╮"@),
            forall|k: int| 0 <= k < i ==> line_view((#[trigger] out@[k + 1])@) == boxed_line(cv[k], inner as nat),
        decreases rest@.len(),
    {
        let line = rest.remove(0);
        proof {
            assert(line == orig[i as int]);
            assert(rest@ =~= orig.skip(i + 1));
        }
        let b = boxed(line, inner);
        out.push(b);
        i = i + 1;
    }
    out.push(border("╰", inner, "╯"));
    proof {
        let expect = stats_box_view(cv, width);
        assert(lines_view(out@) =~= expect) by {
            assert(expect.len() == i + 2);
            assert forall|k: int| 0 <= k < out@.len() implies lines_view(out@)[k] == expect[k] by {
                if 1 <= k < i + 1 {
                    assert(out@[k] == out@[(k - 1) + 1]);
                }
            }
        }
    }
    out
}

} // verus!
