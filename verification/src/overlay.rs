//! The indexing status overlay: its data and its plain-text form.
use crate::text::{chars_of, dec, push_char, push_dec, string_of_range};
use vstd::prelude::*;
use vstd::string::*;
use vstd::utf8::{decode_utf8, encode_utf8, encode_utf8_decode_utf8, is_char_boundary};

verus! {

// =============================================================================
// Small formatters
// =============================================================================

/// Relative time of a past timestamp: seconds, minutes or hours ago.
pub open spec fn ago_text(now_ms: u64, then_ms: u64) -> Seq<char> {
    let d: int = if now_ms >= then_ms {
        (now_ms - then_ms) / 1000
    } else {
        0
    };
    if d < 60 {
        dec(d as nat) + "s ago"@
    } else if d < 3600 {
        dec((d / 60) as nat) + "m ago"@
    } else {
        dec((d / 3600) as nat) + "h ago"@
    }
}

/// Format a millisecond timestamp as a relative "X ago" string, as seen at `now_ms`.
pub fn format_ago(now_ms: u64, ms_then: u64) -> (r: String)
    ensures
        r@ == ago_text(now_ms, ms_then),
{
    let diff_sec = if now_ms >= ms_then {
        (now_ms - ms_then) / 1000
    } else {
        0
    };
    let mut s = String::new();
    if diff_sec < 60 {
        push_dec(&mut s, diff_sec);
        s.append("s ago");
    } else if diff_sec < 3600 {
        push_dec(&mut s, diff_sec / 60);
        s.append("m ago");
    } else {
        push_dec(&mut s, diff_sec / 3600);
        s.append("h ago");
    }
    assert(s@ =~= ago_text(now_ms, ms_then));
    s
}

/// A byte count for humans: GB with one decimal, whole MB, whole KB, or bytes.
pub open spec fn bytes_text(b: u64) -> Seq<char> {
    let kb: u64 = 1024;
    let mb: u64 = 1048576;
    let gb: u64 = 1073741824;
    if b >= gb {
        dec((b / gb) as nat) + "."@ + dec((((b % gb) as int) * 10 / (gb as int)) as nat) + " GB"@
    } else if b >= mb {
        dec((b / mb) as nat) + " MB"@
    } else if b >= kb {
        dec((b / kb) as nat) + " KB"@
    } else {
        dec(b as nat) + " B"@
    }
}

/// Format a byte count as a human-readable string (e.g. `215 MB`).
pub fn format_bytes(bytes: u64) -> (r: String)
    ensures
        r@ == bytes_text(bytes),
{
    let kb: u64 = 1024;
    let mb: u64 = 1024 * 1024;
    let gb: u64 = 1024 * 1024 * 1024;
    let mut s = String::new();
    if bytes >= gb {
        push_dec(&mut s, bytes / gb);
        s.append(".");
        assert(bytes % gb < gb);
        push_dec(&mut s, (bytes % gb) * 10 / gb);
        s.append(" GB");
    } else if bytes >= mb {
        push_dec(&mut s, bytes / mb);
        s.append(" MB");
    } else if bytes >= kb {
        push_dec(&mut s, bytes / kb);
        s.append(" KB");
    } else {
        push_dec(&mut s, bytes);
        s.append(" B");
    }
    assert(s@ =~= bytes_text(bytes));
    s
}

/// A path shortened to its end: when longer than `max_len` characters, its last
/// `max_len - 1` characters after `…` (so the result is `max_len` characters long).
pub open spec fn truncated_path(path: Seq<char>, max_len: usize) -> Seq<char> {
    if path.len() <= max_len {
        path
    } else {
        let keep: int = if max_len >= 1 {
            max_len - 1
        } else {
            0
        };
        "…"@ + path.subrange(path.len() - keep, path.len() as int)
    }
}

/// Truncate a file path to fit within `max_len` characters, keeping its end after `…`.
pub fn truncate_path(path: &str, max_len: usize) -> (r: String)
    ensures
        r@ == truncated_path(path@, max_len),
{
    let cs = chars_of(path);
    let n = cs.len();
    if n <= max_len {
        return String::from_str(path);
    }
    let keep = if max_len >= 1 {
        max_len - 1
    } else {
        0
    };
    let mut s = String::from_str("…");
    let tail = string_of_range(&cs, n - keep, n);
    s.append(tail.as_str());
    s
}

/// Short names for search task types.
pub open spec fn short_task_type(t: Seq<char>) -> Seq<char> {
    if t == "documentAdditionOrUpdate"@ {
        "docAdd"@
    } else if t == "documentDeletion"@ {
        "docDel"@
    } else if t == "settingsUpdate"@ {
        "settings"@
    } else if t == "indexCreation"@ {
        "create"@
    } else if t == "indexUpdate"@ {
        "update"@
    } else if t == "indexDeletion"@ {
        "delete"@
    } else if t == "indexSwap"@ {
        "swap"@
    } else if t == "taskCancelation"@ {
        "cancel"@
    } else if t == "taskDeletion"@ {
        "taskDel"@
    } else if t == "dumpCreation"@ {
        "dump"@
    } else if t == "snapshotCreation"@ {
        "snapshot"@
    } else {
        t
    }
}

/// Shorten search task type names for compact display.
pub fn shorten_task_type(task_type: &str) -> (r: String)
    ensures
        r@ == short_task_type(task_type@),
{
    let v = chars_of(task_type);
    if crate::text::chars_eq_str(&v, "documentAdditionOrUpdate") {
        String::from_str("docAdd")
    } else if crate::text::chars_eq_str(&v, "documentDeletion") {
        String::from_str("docDel")
    } else if crate::text::chars_eq_str(&v, "settingsUpdate") {
        String::from_str("settings")
    } else if crate::text::chars_eq_str(&v, "indexCreation") {
        String::from_str("create")
    } else if crate::text::chars_eq_str(&v, "indexUpdate") {
        String::from_str("update")
    } else if crate::text::chars_eq_str(&v, "indexDeletion") {
        String::from_str("delete")
    } else if crate::text::chars_eq_str(&v, "indexSwap") {
        String::from_str("swap")
    } else if crate::text::chars_eq_str(&v, "taskCancelation") {
        String::from_str("cancel")
    } else if crate::text::chars_eq_str(&v, "taskDeletion") {
        String::from_str("taskDel")
    } else if crate::text::chars_eq_str(&v, "dumpCreation") {
        String::from_str("dump")
    } else if crate::text::chars_eq_str(&v, "snapshotCreation") {
        String::from_str("snapshot")
    } else {
        String::from_str(task_type)
    }
}

} // verus!

verus! {

use crate::text::{find_from, find_seq, lemma_find_from_seq_unique, starts_with_seq};

/// A search task duration (ISO 8601, e.g. `PT0.254092S`) for display: the number with two
/// decimals (cut at byte 2 of the fraction when that is a character boundary) and `s`;
/// an em dash for an empty duration.
pub open spec fn humanized(iso: Seq<char>) -> Seq<char> {
    if iso.len() == 0 {
        "\u{2014}"@
    } else {
        let a = if starts_with_seq(iso, seq!['P', 'T']) {
            iso.skip(2)
        } else {
            iso
        };
        let b = if a.len() > 0 && a.last() == 'S' {
            a.drop_last()
        } else {
            a
        };
        match find_seq(b, seq!['.']) {
            Some(p) => {
                let frac = b.skip(p + 1);
                let fb = encode_utf8(frac);
                let short = if is_char_boundary(fb, 2) {
                    decode_utf8(fb.subrange(0, 2))
                } else {
                    frac
                };
                b.take(p) + seq!['.'] + short + seq!['s']
            },
            None => b + seq!['s'],
        }
    }
}

/// Convert an ISO 8601 duration string (e.g. `PT0.254092S`) to a short form (`0.25s`).
pub fn humanize_duration(iso: &str) -> (r: String)
    ensures
        r@ == humanized(iso@),
{
    let v = chars_of(iso);
    let n = v.len();
    if n == 0 {
        return String::from_str("\u{2014}");
    }
    let mut a: usize = 0;
    if n >= 2 && v[0] == 'P' && v[1] == 'T' {
        a = 2;
    }
    proof {
        if starts_with_seq(iso@, seq!['P', 'T']) {
            assert(iso@.take(2)[0] == iso@[0] && iso@.take(2)[1] == iso@[1]);
        }
        if n >= 2 && v@[0] == 'P' && v@[1] == 'T' {
            assert(iso@.take(2) =~= seq!['P', 'T']);
        }
    }
    let ghost sa = if starts_with_seq(iso@, seq!['P', 'T']) {
        iso@.skip(2)
    } else {
        iso@
    };
    assert(sa =~= v@.subrange(a as int, n as int));
    let mut e = n;
    if e > a && v[e - 1] == 'S' {
        e = e - 1;
    }
    let ghost sb = if sa.len() > 0 && sa.last() == 'S' {
        sa.drop_last()
    } else {
        sa
    };
    assert(sb =~= v@.subrange(a as int, e as int));
    let b = string_of_range(&v, a, e);
    let bv = chars_of(b.as_str());
    let dot = vec!['.'];
    assert(dot@ =~= seq!['.']);
    match find_from(&bv, &dot, 0) {
        Some(p) => {
            proof {
                lemma_find_from_seq_unique(sb, seq!['.'], 0, Some(p as int));
            }
            let whole = string_of_range(&bv, 0, p);
            let frac = b.as_str().substring_char(p + 1, bv.len());
            let mut s = String::new();
            s.append(whole.as_str());
            push_char(&mut s, '.');
            proof {
                vstd::utf8::encode_utf8_valid_utf8(frac@);
            }
            if frac.is_char_boundary(2) {
                let (head, _) = frac.split_at(2);
                proof {
                    encode_utf8_decode_utf8(head@);
                }
                s.append(head);
            } else {
                s.append(frac);
            }
            push_char(&mut s, 's');
            proof {
                assert(sb.take(p as int) =~= bv@.subrange(0, p as int));
                assert(sb.skip(p + 1) =~= frac@);
            }
            s
        },
        None => {
            proof {
                lemma_find_from_seq_unique(sb, seq!['.'], 0, None);
            }
            let mut s = b;
            push_char(&mut s, 's');
            s
        },
    }
}

} // verus!

verus! {

use crate::search::count_views;

// =============================================================================
// Top entries
// =============================================================================

/// Where an entry with count `c` goes in a list sorted by decreasing count, after the
/// entries with an equal or larger count.
pub open spec fn insert_pos(s: Seq<(Seq<char>, u64)>, c: u64) -> int
    decreases s.len(),
{
    if s.len() == 0 {
        0
    } else if s.last().1 >= c {
        s.len() as int
    } else {
        insert_pos(s.drop_last(), c)
    }
}

/// Stable sort by decreasing count: entries with equal counts keep their order.
pub open spec fn sorted_desc(s: Seq<(Seq<char>, u64)>) -> Seq<(Seq<char>, u64)>
    decreases s.len(),
{
    if s.len() == 0 {
        Seq::empty()
    } else {
        let r = sorted_desc(s.drop_last());
        r.insert(insert_pos(r, s.last().1), s.last())
    }
}

/// The list is sorted by decreasing count.
pub open spec fn is_sorted_desc(s: Seq<(Seq<char>, u64)>) -> bool {
    forall|i: int, j: int| 0 <= i < j < s.len() ==> (#[trigger] s[i]).1 >= (#[trigger] s[j]).1
}

proof fn lemma_insert_pos(s: Seq<(Seq<char>, u64)>, c: u64)
    requires
        is_sorted_desc(s),
    ensures
        0 <= insert_pos(s, c) <= s.len(),
        forall|i: int| 0 <= i < insert_pos(s, c) ==> (#[trigger] s[i]).1 >= c,
        forall|i: int| insert_pos(s, c) <= i < s.len() ==> (#[trigger] s[i]).1 < c,
    decreases s.len(),
{
    if s.len() > 0 && s.last().1 < c {
        assert(is_sorted_desc(s.drop_last()));
        lemma_insert_pos(s.drop_last(), c);
        let p = insert_pos(s.drop_last(), c);
        assert forall|i: int| p <= i < s.len() implies (#[trigger] s[i]).1 < c by {
            if i < s.len() - 1 {
                assert(s[i] == s.drop_last()[i]);
            }
        }
        assert forall|i: int| 0 <= i < p implies (#[trigger] s[i]).1 >= c by {
            assert(s[i] == s.drop_last()[i]);
        }
    }
}

/// Law: the stable sort gives a list sorted by decreasing count, holding exactly the
/// entries it was given.
pub proof fn law_sorted_desc(s: Seq<(Seq<char>, u64)>)
    ensures
        is_sorted_desc(sorted_desc(s)),
        sorted_desc(s).len() == s.len(),
        sorted_desc(s).to_multiset() == s.to_multiset(),
    decreases s.len(),
{
    if s.len() > 0 {
        law_sorted_desc(s.drop_last());
        let r = sorted_desc(s.drop_last());
        let c = s.last().1;
        lemma_insert_pos(r, c);
        let p = insert_pos(r, c);
        let t = r.insert(p, s.last());
        vstd::seq_lib::to_multiset_insert(r, p, s.last());
        vstd::seq_lib::to_multiset_build(s.drop_last(), s.last());
        assert(s.drop_last().push(s.last()) =~= s);
        assert forall|i: int, j: int| 0 <= i < j < t.len() implies (#[trigger] t[i]).1 >= (#[trigger] t[j]).1 by {
            if i < p {
                if j < p {
                    assert(t[i] == r[i] && t[j] == r[j]);
                } else if j == p {
                    assert(t[i] == r[i]);
                } else {
                    assert(t[i] == r[i] && t[j] == r[j - 1]);
                }
            } else if i == p {
                assert(t[j] == r[j - 1]);
            } else {
                assert(t[i] == r[i - 1] && t[j] == r[j - 1]);
            }
        }
    } else {
        assert(s =~= Seq::<(Seq<char>, u64)>::empty());
    }
}

/// The entries with count `c`, in order.
pub open spec fn with_count(s: Seq<(Seq<char>, u64)>, c: u64) -> Seq<(Seq<char>, u64)>
    decreases s.len(),
{
    if s.len() == 0 {
        Seq::empty()
    } else if s.last().1 == c {
        with_count(s.drop_last(), c).push(s.last())
    } else {
        with_count(s.drop_last(), c)
    }
}

proof fn lemma_with_count_insert(r: Seq<(Seq<char>, u64)>, p: int, x: (Seq<char>, u64), c: u64)
    requires
        0 <= p <= r.len(),
        x.1 == c ==> forall|i: int| p <= i < r.len() ==> (#[trigger] r[i]).1 != c,
    ensures
        with_count(r.insert(p, x), c) == if x.1 == c {
            with_count(r, c).push(x)
        } else {
            with_count(r, c)
        },
    decreases r.len(),
{
    if p == r.len() {
        assert(r.insert(p, x) =~= r.push(x));
        assert(r.push(x).drop_last() =~= r);
    } else {
        let d = r.drop_last();
        assert forall|i: int| p <= i < d.len() && x.1 == c implies (#[trigger] d[i]).1 != c by {
            assert(d[i] == r[i]);
        }
        lemma_with_count_insert(d, p, x, c);
        assert(r.insert(p, x) =~= d.insert(p, x).push(r.last()));
        assert(r.insert(p, x).drop_last() =~= d.insert(p, x));
        assert(r =~= d.push(r.last()));
        assert(d.push(r.last()).drop_last() =~= d);
        if x.1 == c {
            assert(r.last() == r[r.len() - 1]);
        }
    }
}

/// Law: the sort is stable: the entries of any one count come out in the order they were
/// given.
pub proof fn law_sorted_desc_stable(s: Seq<(Seq<char>, u64)>, c: u64)
    ensures
        with_count(sorted_desc(s), c) == with_count(s, c),
    decreases s.len(),
{
    if s.len() > 0 {
        law_sorted_desc_stable(s.drop_last(), c);
        law_sorted_desc(s.drop_last());
        let r = sorted_desc(s.drop_last());
        let x = s.last();
        lemma_insert_pos(r, x.1);
        let p = insert_pos(r, x.1);
        lemma_with_count_insert(r, p, x, c);
    } else {
        assert(sorted_desc(s) =~= s);
    }
}

/// No two entries share a key (as in a map from keys to counts).
pub open spec fn distinct_keys(s: Seq<(Seq<char>, u64)>) -> bool {
    forall|i: int, j: int| 0 <= i < j < s.len() ==> (#[trigger] s[i]).0 != (#[trigger] s[j]).0
}

/// Law: the sort only reorders entries: each entry of the result is one of those given, and
/// entries with distinct keys keep distinct keys.
pub proof fn law_sorted_desc_keeps_keys(s: Seq<(Seq<char>, u64)>)
    ensures
        forall|i: int| 0 <= i < sorted_desc(s).len() ==> s.contains(#[trigger] sorted_desc(s)[i]),
        distinct_keys(s) ==> distinct_keys(sorted_desc(s)),
    decreases s.len(),
{
    law_sorted_desc(s);
    if s.len() > 0 {
        let d = s.drop_last();
        law_sorted_desc_keeps_keys(d);
        law_sorted_desc(d);
        let r = sorted_desc(d);
        let x = s.last();
        lemma_insert_pos(r, x.1);
        let p = insert_pos(r, x.1);
        let t = r.insert(p, x);
        assert(t == sorted_desc(s));
        assert forall|i: int| 0 <= i < t.len() implies s.contains(#[trigger] t[i]) by {
            if i < p {
                assert(t[i] == r[i]);
                let k = choose|k: int| 0 <= k < d.len() && d[k] == r[i];
                assert(s[k] == d[k]);
            } else if i == p {
                assert(s[s.len() - 1] == x);
            } else {
                assert(t[i] == r[i - 1]);
                let k = choose|k: int| 0 <= k < d.len() && d[k] == r[i - 1];
                assert(s[k] == d[k]);
            }
        }
        if distinct_keys(s) {
            assert(distinct_keys(d)) by {
                assert forall|i: int, j: int| 0 <= i < j < d.len() implies (#[trigger] d[i]).0 != (
                #[trigger] d[j]).0 by {
                    assert(d[i] == s[i] && d[j] == s[j]);
                }
            }
            assert forall|i: int| 0 <= i < r.len() implies (#[trigger] r[i]).0 != x.0 by {
                assert(d.contains(r[i]));
                let k = choose|k: int| 0 <= k < d.len() && d[k] == r[i];
                assert(s[k] == d[k]);
                assert(s[k].0 != s[s.len() - 1].0);
            }
            assert forall|i: int, j: int| 0 <= i < j < t.len() implies (#[trigger] t[i]).0 != (
            #[trigger] t[j]).0 by {
                if i < p {
                    assert(t[i] == r[i]);
                    if j < p {
                        assert(t[j] == r[j]);
                    } else if j > p {
                        assert(t[j] == r[j - 1]);
                    }
                } else if i == p {
                    assert(t[j] == r[j - 1]);
                } else {
                    assert(t[i] == r[i - 1]);
                    assert(t[j] == r[j - 1]);
                }
            }
        }
    }
}

/// A prefix of a list with distinct keys has distinct keys.
pub proof fn lemma_distinct_keys_take(s: Seq<(Seq<char>, u64)>, n: int)
    requires
        distinct_keys(s),
        0 <= n <= s.len(),
    ensures
        distinct_keys(s.take(n)),
{
    assert forall|i: int, j: int| 0 <= i < j < s.take(n).len() implies (#[trigger] s.take(n)[i]).0 != (
    #[trigger] s.take(n)[j]).0 by {
        assert(s.take(n)[i] == s[i] && s.take(n)[j] == s[j]);
    }
}

/// The first `n` entries by decreasing count (ties keep their order).
pub fn top_entries(entries: &Vec<(String, u64)>, n: usize) -> (r: Vec<(String, u64)>)
    ensures
        count_views(r@) == sorted_desc(count_views(entries@)).take(
            if n < entries@.len() { n as int } else { entries@.len() as int },
        ),
{
    let mut out: Vec<(String, u64)> = Vec::new();
    let mut i: usize = 0;
    while i < entries.len()
        invariant
            i <= entries@.len(),
            count_views(out@) == sorted_desc(count_views(entries@.take(i as int))),
        decreases entries@.len() - i,
    {
        let c = entries[i].1;
        let ghost r = count_views(out@);
        let mut p: usize = out.len();
        assert(r.take(p as int) =~= r);
        while p > 0 && out[p - 1].1 < c
            invariant
                p <= out@.len(),
                r == count_views(out@),
                insert_pos(r, c) == insert_pos(r.take(p as int), c),
            decreases p,
        {
            proof {
                assert(r.take(p as int).drop_last() =~= r.take(p - 1));
                assert(r.take(p as int).last() == r[p - 1]);
            }
            p = p - 1;
        }
        proof {
            if p > 0 {
                assert(r.take(p as int).last() == r[p - 1]);
            }
            assert(insert_pos(r.take(p as int), c) == p as int);
        }
        let ghost old_out = out@;
        let e = (entries[i].0.clone(), c);
        out.insert(p, e);
        proof {
            let g = |x: (String, u64)| (x.0@, x.1);
            assert(out@ =~= old_out.insert(p as int, e));
            assert(count_views(out@) =~= r.insert(p as int, g(e)));
            crate::text::lemma_take_push(entries@, i as int);
            assert(count_views(entries@.take(i + 1)).drop_last() =~= count_views(entries@.take(i as int)));
            assert(count_views(entries@.take(i + 1)).last() == g(entries@[i as int]));
        }
        i = i + 1;
    }
    assert(entries@.take(entries@.len() as int) =~= entries@);
    proof {
        law_sorted_desc(count_views(entries@));
    }
    out.truncate(n);
    out
}

} // verus!

verus! {

use crate::text::dec_string;

// =============================================================================
// Overlay data
// =============================================================================

/// A recent search task as reported by the search server.
pub struct MeiliTask {
    /// Task uid.
    pub uid: u64,
    /// Task type.
    pub task_type: String,
    /// Task status.
    pub status: String,
    /// Duration (ISO 8601).
    pub duration: String,
}

/// A recent task prepared for display.
pub struct MeiliTaskInfo {
    /// Task uid.
    pub uid: u64,
    /// Short task type.
    pub task_type: String,
    /// Task status.
    pub status: String,
    /// Short duration.
    pub duration: String,
}

/// A task prepared for display: short type and short duration.
pub fn task_info(t: &MeiliTask) -> (r: MeiliTaskInfo)
    ensures
        r.uid == t.uid,
        r.task_type@ == short_task_type(t.task_type@),
        r.status@ == t.status@,
        r.duration@ == humanized(t.duration@),
{
    MeiliTaskInfo {
        uid: t.uid,
        task_type: shorten_task_type(t.task_type.as_str()),
        status: t.status.clone(),
        duration: humanize_duration(t.duration.as_str()),
    }
}

/// Bands of search server CPU use: under 25 %, under 50 %, and above.
#[derive(Debug, PartialEq, Eq, Structural, Clone, Copy)]
pub enum CpuLoad {
    Low,
    Medium,
    High,
}

/// Everything the indexing overlay shows.
pub struct SearchOverlayInfo {
    /// Search server port (0 when offline).
    pub port: u16,
    /// Chunks in the index.
    pub chunks_indexed: u64,
    /// Files in the index.
    pub files_indexed: u64,
    /// Queued indexing commands.
    pub queue_depth: u64,
    /// Indexing errors.
    pub error_count: u64,
    /// Last indexing activity (ms since the epoch; 0 when never).
    pub last_activity_ms: u64,
    /// The initial scan has completed.
    pub index_ready: bool,
    /// Files per extension, top entries.
    pub top_extensions: Vec<(String, u64)>,
    /// Chunks made by the tree-sitter splitter.
    pub tree_sitter_chunks: u64,
    /// Chunks made by the fallback splitter.
    pub fallback_chunks: u64,
    /// OCR conversions attempted.
    pub ocr_attempted: u64,
    /// OCR conversions that succeeded.
    pub ocr_succeeded: u64,
    /// OCR conversions that failed.
    pub ocr_failed: u64,
    /// OCR conversions served from the cache.
    pub ocr_cached: u64,
    /// OCR is available.
    pub ocr_available: bool,
    /// Search server memory use in bytes.
    pub meili_memory_bytes: u64,
    /// Whether the search server uses any CPU.
    pub meili_cpu_busy: bool,
    /// Search server CPU use, printed with one decimal.
    pub meili_cpu_text: String,
    /// How heavily the search server uses the CPU.
    pub meili_cpu_load: CpuLoad,
    /// Database size in bytes.
    pub database_size_bytes: u64,
    /// Used database size in bytes.
    pub used_database_size_bytes: u64,
    /// Embeddings in the files index.
    pub files_embedding_count: u64,
    /// The files index is indexing.
    pub files_is_indexing: bool,
    /// Documents in the logs index.
    pub logs_doc_count: u64,
    /// Embedding model name.
    pub embedding_model: String,
    /// Search server version.
    pub meili_version: String,
    /// Average document size in bytes.
    pub avg_document_size: u64,
    /// Raw document storage in bytes.
    pub raw_document_db_size: u64,
    /// Embedded documents in the files index.
    pub files_embedded_doc_count: u64,
    /// Documents in the files index.
    pub files_total_doc_count: u64,
    /// Recent tasks.
    pub recent_tasks: Vec<MeiliTaskInfo>,
    /// Most often recomputed files.
    pub top_recomputed: Vec<(String, u64)>,
    /// Most recently sent files (path, ms since the epoch).
    pub recently_sent: Vec<(String, u64)>,
    /// When the search server last updated its indexes, as it reports it.
    pub last_update: String,
}

// =============================================================================
// Plain-text overlay
// =============================================================================

/// `n` spaces.
pub open spec fn spaces(n: nat) -> Seq<char>
    decreases n,
{
    if n == 0 {
        Seq::empty()
    } else {
        spaces((n - 1) as nat).push(' ')
    }
}

/// Left-aligned in a field of `w` characters (`{:<w}`).
pub open spec fn pad_right(s: Seq<char>, w: nat) -> Seq<char> {
    if s.len() < w {
        s + spaces((w - s.len()) as nat)
    } else {
        s
    }
}

/// Right-aligned in a field of `w` characters (`{:>w}`).
pub open spec fn pad_left(s: Seq<char>, w: nat) -> Seq<char> {
    if s.len() < w {
        spaces((w - s.len()) as nat) + s
    } else {
        s
    }
}

/// `s` when `b`, else nothing.
pub open spec fn only_if(b: bool, s: Seq<char>) -> Seq<char> {
    if b {
        s
    } else {
        Seq::empty()
    }
}

/// `a * b / d`, the product saturating at `u64::MAX`, 0 when `d` is 0.
pub open spec fn percent_of(a: u64, d: int) -> int {
    let m: int = if a * 100 > u64::MAX {
        u64::MAX as int
    } else {
        a * 100
    };
    if d > 0 {
        m / d
    } else {
        0
    }
}

pub(crate) fn push_spaces(out: &mut String, n: usize)
    ensures
        final(out)@ == old(out)@ + spaces(n as nat),
{
    let mut i: usize = 0;
    while i < n
        invariant
            i <= n,
            out@ == old(out)@ + spaces(i as nat),
        decreases n - i,
    {
        push_char(out, ' ');
        proof {
            assert(spaces((i + 1) as nat) == spaces(i as nat).push(' '));
            assert(out@ =~= old(out)@ + spaces((i + 1) as nat));
        }
        i = i + 1;
    }
}

pub(crate) fn push_pad_right(out: &mut String, s: &str, w: usize)
    ensures
        final(out)@ == old(out)@ + pad_right(s@, w as nat),
{
    let n = s.unicode_len();
    out.append(s);
    if n < w {
        push_spaces(out, w - n);
        assert(out@ =~= old(out)@ + pad_right(s@, w as nat));
    }
}

pub(crate) fn push_pad_left(out: &mut String, s: &str, w: usize)
    ensures
        final(out)@ == old(out)@ + pad_left(s@, w as nat),
{
    let n = s.unicode_len();
    if n < w {
        push_spaces(out, w - n);
    }
    out.append(s);
    assert(out@ =~= old(out)@ + pad_left(s@, w as nat));
}

pub(crate) fn percent(a: u64, d: u64) -> (r: u64)
    ensures
        r == percent_of(a, d as int),
{
    let m = match a.checked_mul(100) {
        Some(x) => x,
        None => u64::MAX,
    };
    if d > 0 {
        m / d
    } else {
        0
    }
}

/// Server section.
pub open spec fn server_text(info: SearchOverlayInfo) -> Seq<char> {
    "Indexing Status\n\nServer  http://127.0.0.1:"@ + dec(info.port as nat) + "  "@ + (if info.port > 0 {
        "online"@
    } else {
        "offline"@
    }) + only_if(info.meili_version@.len() > 0, "  v"@ + info.meili_version@) + "\n\n"@
}

/// Process section.
pub open spec fn process_text(info: SearchOverlayInfo) -> Seq<char> {
    only_if(
        info.meili_memory_bytes > 0 || info.meili_cpu_busy,
        "Process CPU "@ + info.meili_cpu_text@ + "%    RAM "@ + bytes_text(info.meili_memory_bytes) + "\n\n"@,
    )
}

/// Database section.
pub open spec fn database_text(info: SearchOverlayInfo) -> Seq<char> {
    only_if(
        info.database_size_bytes > 0,
        "── Database ──\nDisk  "@ + bytes_text(info.used_database_size_bytes) + " / "@ + bytes_text(
            info.database_size_bytes,
        ) + "    Docs  "@ + bytes_text(info.raw_document_db_size) + "\n"@ + only_if(
            info.avg_document_size > 0,
            "Avg chunk  "@ + bytes_text(info.avg_document_size) + "\n"@,
        ) + "\n"@,
    )
}

/// Core statistics section.
pub open spec fn core_text(info: SearchOverlayInfo, now_ms: u64) -> Seq<char> {
    counts_text(info) + status_text(info, now_ms)
}

/// The count lines: files and chunks, then queue and errors.
pub open spec fn counts_text(info: SearchOverlayInfo) -> Seq<char> {
    "Files  "@ + dec(info.files_indexed as nat) + "    Chunks  "@ + dec(info.chunks_indexed as nat)
        + "\nQueue  "@ + dec(info.queue_depth as nat) + " pending    Errors  "@ + dec(info.error_count as nat)
}

/// The status line: ready or scanning, and the last activity.
pub open spec fn status_text(info: SearchOverlayInfo, now_ms: u64) -> Seq<char> {
    "\nStatus "@ + (if info.index_ready {
        "Ready"@
    } else {
        "Scanning"@
    }) + "    Last  "@ + (if info.last_activity_ms > 0 {
        ago_text(now_ms, info.last_activity_ms)
    } else {
        "never"@
    }) + "\n"@
}

/// One extension line.
pub open spec fn ext_line(e: (Seq<char>, u64), total: int) -> Seq<char> {
    "  "@ + pad_right(e.0, 6) + " "@ + pad_left(dec(e.1 as nat), 4) + "  "@ + dec(percent_of(e.1, total) as nat)
        + "%\n"@
}

/// The extension lines.
pub open spec fn ext_lines(es: Seq<(Seq<char>, u64)>, total: int) -> Seq<char>
    decreases es.len(),
{
    if es.len() == 0 {
        Seq::empty()
    } else {
        ext_lines(es.drop_last(), total) + ext_line(es.last(), total)
    }
}

/// Extensions section.
pub open spec fn extensions_text(info: SearchOverlayInfo) -> Seq<char> {
    let es = count_views(info.top_extensions@);
    only_if(es.len() > 0, "\n── Extensions ──\n"@ + ext_lines(es, crate::search::counts_total(es)))
}

/// Splitter section.
pub open spec fn splitter_text(info: SearchOverlayInfo) -> Seq<char> {
    let total = crate::search::sat_add(info.tree_sitter_chunks as int, info.fallback_chunks as int);
    let ts_pct = percent_of(info.tree_sitter_chunks, total);
    let fb_pct: int = if ts_pct <= 100 {
        100 - ts_pct
    } else {
        0
    };
    only_if(
        total > 0,
        "\n── Splitter ──\nTree-sitter  "@ + dec(info.tree_sitter_chunks as nat) + " chunks ("@ + dec(
            ts_pct as nat,
        ) + "%)\nFallback     "@ + dec(info.fallback_chunks as nat) + " chunks ("@ + dec(fb_pct as nat)
            + "%)\n"@,
    )
}

/// Embeddings section.
pub open spec fn embeddings_text(info: SearchOverlayInfo) -> Seq<char> {
    only_if(info.embedding_model@.len() > 0 || info.files_embedding_count > 0, embeddings_body(info))
}

/// The OCR counters, when conversions were attempted.
pub open spec fn ocr_counts_text(info: SearchOverlayInfo) -> Seq<char> {
    "Attempted  "@ + dec(info.ocr_attempted as nat) + "   Succeeded  "@ + dec(info.ocr_succeeded as nat)
        + "   Cached  "@ + dec(info.ocr_cached as nat) + "\n"@ + only_if(
        info.ocr_failed > 0,
        "Failed     "@ + dec(info.ocr_failed as nat) + "\n"@,
    )
}

/// OCR section.
pub open spec fn ocr_text(info: SearchOverlayInfo) -> Seq<char> {
    only_if(
        info.ocr_available || info.ocr_attempted > 0,
        "\n── OCR Pipeline ──\n"@ + if info.ocr_attempted > 0 {
            ocr_counts_text(info)
        } else {
            "Enabled — no OCR files found yet\n"@
        },
    )
}

/// One task line.
pub open spec fn task_line(t: MeiliTaskInfo) -> Seq<char> {
    "  #"@ + pad_right(dec(t.uid as nat), 6) + " "@ + pad_right(t.task_type@, 10) + " "@ + pad_right(
        t.status@,
        10,
    ) + " "@ + t.duration@ + "\n"@
}

/// The task lines.
pub open spec fn task_lines(ts: Seq<MeiliTaskInfo>) -> Seq<char>
    decreases ts.len(),
{
    if ts.len() == 0 {
        Seq::empty()
    } else {
        task_lines(ts.drop_last()) + task_line(ts.last())
    }
}

/// One recomputed-file line.
pub open spec fn recomputed_line(e: (Seq<char>, u64)) -> Seq<char> {
    "  "@ + pad_left(dec(e.1 as nat), 4) + "×  "@ + e.0 + "\n"@
}

/// The recomputed-file lines.
pub open spec fn recomputed_lines(es: Seq<(Seq<char>, u64)>) -> Seq<char>
    decreases es.len(),
{
    if es.len() == 0 {
        Seq::empty()
    } else {
        recomputed_lines(es.drop_last()) + recomputed_line(es.last())
    }
}

/// One recently-sent line.
pub open spec fn sent_line(e: (Seq<char>, u64), now_ms: u64) -> Seq<char> {
    "  "@ + pad_left(
        if e.1 > 0 {
            ago_text(now_ms, e.1)
        } else {
            "?"@
        },
        8,
    ) + "  "@ + e.0 + "\n"@
}

/// The recently-sent lines.
pub open spec fn sent_lines(es: Seq<(Seq<char>, u64)>, now_ms: u64) -> Seq<char>
    decreases es.len(),
{
    if es.len() == 0 {
        Seq::empty()
    } else {
        sent_lines(es.drop_last(), now_ms) + sent_line(es.last(), now_ms)
    }
}

/// The whole plain-text overlay, as seen at `now_ms`.
pub open spec fn overlay_text(info: SearchOverlayInfo, now_ms: u64) -> Seq<char> {
    server_text(info) + process_text(info) + database_text(info) + core_text(info, now_ms) + extensions_text(
        info,
    ) + splitter_text(info) + embeddings_text(info) + ocr_text(info) + only_if(
        info.recent_tasks@.len() > 0,
        "\n── Recent Tasks ──\n"@ + task_lines(info.recent_tasks@),
    ) + only_if(
        info.top_recomputed@.len() > 0,
        "\n── Top Recomputed ──\n"@ + recomputed_lines(count_views(info.top_recomputed@)),
    ) + only_if(
        info.recently_sent@.len() > 0,
        "\n── Recently Sent ──\n"@ + sent_lines(count_views(info.recently_sent@), now_ms),
    )
}

} // verus!

verus! {

fn push_server(out: &mut String, info: &SearchOverlayInfo)
    ensures
        final(out)@ == old(out)@ + server_text(*info),
{
    out.append("Indexing Status\n\nServer  http://127.0.0.1:");
    push_dec(out, info.port as u64);
    out.append("  ");
    if info.port > 0 {
        out.append("online");
    } else {
        out.append("offline");
    }
    if !info.meili_version.as_str().is_empty() {
        out.append("  v");
        out.append(info.meili_version.as_str());
    }
    out.append("\n\n");
    assert(out@ =~= old(out)@ + server_text(*info));
}

fn push_process(out: &mut String, info: &SearchOverlayInfo)
    ensures
        final(out)@ == old(out)@ + process_text(*info),
{
    if info.meili_memory_bytes > 0 || info.meili_cpu_busy {
        out.append("Process CPU ");
        out.append(info.meili_cpu_text.as_str());
        out.append("%    RAM ");
        let b = format_bytes(info.meili_memory_bytes);
        out.append(b.as_str());
        out.append("\n\n");
    }
    assert(out@ =~= old(out)@ + process_text(*info));
}

fn push_database(out: &mut String, info: &SearchOverlayInfo)
    ensures
        final(out)@ == old(out)@ + database_text(*info),
{
    if info.database_size_bytes > 0 {
        out.append("── Database ──\nDisk  ");
        let a = format_bytes(info.used_database_size_bytes);
        out.append(a.as_str());
        out.append(" / ");
        let b = format_bytes(info.database_size_bytes);
        out.append(b.as_str());
        out.append("    Docs  ");
        let c = format_bytes(info.raw_document_db_size);
        out.append(c.as_str());
        out.append("\n");
        if info.avg_document_size > 0 {
            out.append("Avg chunk  ");
            let d = format_bytes(info.avg_document_size);
            out.append(d.as_str());
            out.append("\n");
        }
        out.append("\n");
    }
    assert(out@ =~= old(out)@ + database_text(*info));
}

fn push_core(out: &mut String, info: &SearchOverlayInfo, now_ms: u64)
    ensures
        final(out)@ == old(out)@ + core_text(*info, now_ms),
{
    push_counts(out, info);
    push_status(out, info, now_ms);
    assert(out@ =~= old(out)@ + core_text(*info, now_ms));
}

fn push_counts(out: &mut String, info: &SearchOverlayInfo)
    ensures
        final(out)@ == old(out)@ + counts_text(*info),
{
    out.append("Files  ");
    push_dec(out, info.files_indexed);
    out.append("    Chunks  ");
    push_dec(out, info.chunks_indexed);
    out.append("\nQueue  ");
    push_dec(out, info.queue_depth);
    out.append(" pending    Errors  ");
    push_dec(out, info.error_count);
    assert(out@ =~= old(out)@ + counts_text(*info));
}

fn push_status(out: &mut String, info: &SearchOverlayInfo, now_ms: u64)
    ensures
        final(out)@ == old(out)@ + status_text(*info, now_ms),
{
    out.append("\nStatus ");
    if info.index_ready {
        out.append("Ready");
    } else {
        out.append("Scanning");
    }
    out.append("    Last  ");
    if info.last_activity_ms > 0 {
        let a = format_ago(now_ms, info.last_activity_ms);
        out.append(a.as_str());
    } else {
        out.append("never");
    }
    out.append("\n");
    assert(out@ =~= old(out)@ + status_text(*info, now_ms));
}

fn push_extensions(out: &mut String, info: &SearchOverlayInfo)
    requires
        crate::search::counts_total(count_views(info.top_extensions@)) <= u64::MAX,
    ensures
        final(out)@ == old(out)@ + extensions_text(*info),
{
    let es = &info.top_extensions;
    if es.len() == 0 {
        assert(out@ =~= old(out)@ + extensions_text(*info));
        return;
    }
    out.append("\n── Extensions ──\n");
    let ghost base = out@;
    let ghost cv = count_views(es@);
    let ghost total_spec = crate::search::counts_total(cv);
    let total = crate::search::total_count(es);
    let mut i: usize = 0;
    while i < es.len()
        invariant
            i <= es@.len(),
            cv == count_views(es@),
            total == total_spec,
            out@ == base + ext_lines(cv.take(i as int), total as int),
        decreases es@.len() - i,
    {
        out.append("  ");
        push_pad_right(out, es[i].0.as_str(), 6);
        out.append(" ");
        let c = dec_string(es[i].1);
        push_pad_left(out, c.as_str(), 4);
        out.append("  ");
        push_dec(out, percent(es[i].1, total));
        out.append("%\n");
        proof {
            assert(cv.take(i + 1).drop_last() =~= cv.take(i as int));
            assert(cv.take(i + 1).last() == (es@[i as int].0@, es@[i as int].1));
            assert(out@ =~= base + ext_lines(cv.take(i + 1), total as int));
        }
        i = i + 1;
    }
    assert(cv.take(es@.len() as int) =~= cv);
}

fn push_splitter(out: &mut String, info: &SearchOverlayInfo)
    ensures
        final(out)@ == old(out)@ + splitter_text(*info),
{
    let total = info.tree_sitter_chunks.saturating_add(info.fallback_chunks);
    if total > 0 {
        let ts_pct = percent(info.tree_sitter_chunks, total);
        let fb_pct: u64 = if ts_pct <= 100 {
            100 - ts_pct
        } else {
            0
        };
        out.append("\n── Splitter ──\nTree-sitter  ");
        push_dec(out, info.tree_sitter_chunks);
        out.append(" chunks (");
        push_dec(out, ts_pct);
        out.append("%)\nFallback     ");
        push_dec(out, info.fallback_chunks);
        out.append(" chunks (");
        push_dec(out, fb_pct);
        out.append("%)\n");
    }
    assert(out@ =~= old(out)@ + splitter_text(*info));
}

/// The coverage and log-count lines of the embeddings section.
pub open spec fn coverage_and_logs(info: SearchOverlayInfo) -> Seq<char> {
    only_if(
        info.files_total_doc_count > 0,
        "Coverage "@ + dec(info.files_embedded_doc_count as nat) + "/"@ + dec(info.files_total_doc_count as nat)
            + "  ("@ + dec(percent_of(info.files_embedded_doc_count, info.files_total_doc_count as int) as nat)
            + "%)\n"@,
    ) + only_if(info.logs_doc_count > 0, "Logs    "@ + dec(info.logs_doc_count as nat) + " documents\n"@)
}

/// The vector-count line of the embeddings section.
pub open spec fn vectors_line(info: SearchOverlayInfo) -> Seq<char> {
    "Vectors "@ + dec(info.files_embedding_count as nat) + "  "@ + (if info.files_is_indexing {
        "generating"@
    } else {
        "ready"@
    }) + "\n"@
}

/// The embeddings section without its condition.
pub open spec fn embeddings_body(info: SearchOverlayInfo) -> Seq<char> {
    "\n── Embeddings ──\n"@ + only_if(info.embedding_model@.len() > 0, "Model   "@ + info.embedding_model@ + "\n"@)
        + vectors_line(info) + coverage_and_logs(info)
}

fn push_coverage_and_logs(out: &mut String, info: &SearchOverlayInfo)
    ensures
        final(out)@ == old(out)@ + coverage_and_logs(*info),
{
    let ghost start = out@;
    if info.files_total_doc_count > 0 {
        out.append("Coverage ");
        push_dec(out, info.files_embedded_doc_count);
        out.append("/");
        push_dec(out, info.files_total_doc_count);
        out.append("  (");
        push_dec(out, percent(info.files_embedded_doc_count, info.files_total_doc_count));
        out.append("%)\n");
    }
    let ghost mid = out@;
    assert(mid =~= start + only_if(
        info.files_total_doc_count > 0,
        "Coverage "@ + dec(info.files_embedded_doc_count as nat) + "/"@ + dec(info.files_total_doc_count as nat)
            + "  ("@ + dec(percent_of(info.files_embedded_doc_count, info.files_total_doc_count as int) as nat)
            + "%)\n"@,
    ));
    if info.logs_doc_count > 0 {
        out.append("Logs    ");
        push_dec(out, info.logs_doc_count);
        out.append(" documents\n");
    }
    assert(out@ =~= start + coverage_and_logs(*info));
}

fn push_vectors_line(out: &mut String, info: &SearchOverlayInfo)
    ensures
        final(out)@ == old(out)@ + vectors_line(*info),
{
    out.append("Vectors ");
    push_dec(out, info.files_embedding_count);
    out.append("  ");
    if info.files_is_indexing {
        out.append("generating");
    } else {
        out.append("ready");
    }
    out.append("\n");
    assert(out@ =~= old(out)@ + vectors_line(*info));
}

fn push_embeddings_body(out: &mut String, info: &SearchOverlayInfo)
    ensures
        final(out)@ == old(out)@ + embeddings_body(*info),
{
    out.append("\n── Embeddings ──\n");
    let ghost s1 = out@;
    if !info.embedding_model.as_str().is_empty() {
        out.append("Model   ");
        out.append(info.embedding_model.as_str());
        out.append("\n");
    }
    let ghost s2 = out@;
    assert(s2 =~= s1 + only_if(info.embedding_model@.len() > 0, "Model   "@ + info.embedding_model@ + "\n"@));
    push_vectors_line(out, info);
    let ghost s3 = out@;
    push_coverage_and_logs(out, info);
    assert(out@ =~= old(out)@ + embeddings_body(*info));
}

fn push_embeddings(out: &mut String, info: &SearchOverlayInfo)
    ensures
        final(out)@ == old(out)@ + embeddings_text(*info),
{
    if !info.embedding_model.as_str().is_empty() || info.files_embedding_count > 0 {
        push_embeddings_body(out, info);
    }
    assert(out@ =~= old(out)@ + embeddings_text(*info));
}

fn push_ocr_counts(out: &mut String, info: &SearchOverlayInfo)
    ensures
        final(out)@ == old(out)@ + ocr_counts_text(*info),
{
    out.append("Attempted  ");
    push_dec(out, info.ocr_attempted);
    out.append("   Succeeded  ");
    push_dec(out, info.ocr_succeeded);
    out.append("   Cached  ");
    push_dec(out, info.ocr_cached);
    out.append("\n");
    let ghost mid = out@;
    if info.ocr_failed > 0 {
        out.append("Failed     ");
        push_dec(out, info.ocr_failed);
        out.append("\n");
    }
    assert(out@ =~= old(out)@ + ocr_counts_text(*info));
}

fn push_ocr(out: &mut String, info: &SearchOverlayInfo)
    ensures
        final(out)@ == old(out)@ + ocr_text(*info),
{
    if info.ocr_available || info.ocr_attempted > 0 {
        out.append("\n── OCR Pipeline ──\n");
        if info.ocr_attempted > 0 {
            push_ocr_counts(out, info);
        } else {
            out.append("Enabled — no OCR files found yet\n");
        }
    }
    assert(out@ =~= old(out)@ + ocr_text(*info));
}

fn push_task_line(out: &mut String, t: &MeiliTaskInfo)
    ensures
        final(out)@ == old(out)@ + task_line(*t),
{
    out.append("  #");
    let u = dec_string(t.uid);
    push_pad_right(out, u.as_str(), 6);
    out.append(" ");
    push_pad_right(out, t.task_type.as_str(), 10);
    out.append(" ");
    push_pad_right(out, t.status.as_str(), 10);
    out.append(" ");
    out.append(t.duration.as_str());
    out.append("\n");
    assert(out@ =~= old(out)@ + task_line(*t));
}

fn push_tasks(out: &mut String, info: &SearchOverlayInfo)
    ensures
        final(out)@ == old(out)@ + only_if(
            info.recent_tasks@.len() > 0,
            "\n── Recent Tasks ──\n"@ + task_lines(info.recent_tasks@),
        ),
{
    let ts = &info.recent_tasks;
    if ts.len() == 0 {
        assert(out@ =~= old(out)@ + Seq::<char>::empty());
        return;
    }
    out.append("\n── Recent Tasks ──\n");
    let ghost base = out@;
    let mut i: usize = 0;
    while i < ts.len()
        invariant
            i <= ts@.len(),
            out@ == base + task_lines(ts@.take(i as int)),
        decreases ts@.len() - i,
    {
        push_task_line(out, &ts[i]);
        proof {
            assert(ts@.take(i + 1).drop_last() =~= ts@.take(i as int));
            assert(out@ =~= base + task_lines(ts@.take(i + 1)));
        }
        i = i + 1;
    }
    assert(ts@.take(ts@.len() as int) =~= ts@);
}

fn push_recomputed(out: &mut String, info: &SearchOverlayInfo)
    ensures
        final(out)@ == old(out)@ + only_if(
            info.top_recomputed@.len() > 0,
            "\n── Top Recomputed ──\n"@ + recomputed_lines(count_views(info.top_recomputed@)),
        ),
{
    let es = &info.top_recomputed;
    if es.len() == 0 {
        assert(out@ =~= old(out)@ + Seq::<char>::empty());
        return;
    }
    out.append("\n── Top Recomputed ──\n");
    let ghost base = out@;
    let ghost cv = count_views(es@);
    let mut i: usize = 0;
    while i < es.len()
        invariant
            i <= es@.len(),
            cv == count_views(es@),
            out@ == base + recomputed_lines(cv.take(i as int)),
        decreases es@.len() - i,
    {
        out.append("  ");
        let c = dec_string(es[i].1);
        push_pad_left(out, c.as_str(), 4);
        out.append("×  ");
        out.append(es[i].0.as_str());
        out.append("\n");
        proof {
            assert(cv.take(i + 1).drop_last() =~= cv.take(i as int));
            assert(cv.take(i + 1).last() == (es@[i as int].0@, es@[i as int].1));
            assert(out@ =~= base + recomputed_lines(cv.take(i + 1)));
        }
        i = i + 1;
    }
    assert(cv.take(es@.len() as int) =~= cv);
}

fn push_sent(out: &mut String, info: &SearchOverlayInfo, now_ms: u64)
    ensures
        final(out)@ == old(out)@ + only_if(
            info.recently_sent@.len() > 0,
            "\n── Recently Sent ──\n"@ + sent_lines(count_views(info.recently_sent@), now_ms),
        ),
{
    let es = &info.recently_sent;
    if es.len() == 0 {
        assert(out@ =~= old(out)@ + Seq::<char>::empty());
        return;
    }
    out.append("\n── Recently Sent ──\n");
    let ghost base = out@;
    let ghost cv = count_views(es@);
    let mut i: usize = 0;
    while i < es.len()
        invariant
            i <= es@.len(),
            cv == count_views(es@),
            out@ == base + sent_lines(cv.take(i as int), now_ms),
        decreases es@.len() - i,
    {
        out.append("  ");
        let ago = if es[i].1 > 0 {
            format_ago(now_ms, es[i].1)
        } else {
            String::from_str("?")
        };
        push_pad_left(out, ago.as_str(), 8);
        out.append("  ");
        out.append(es[i].0.as_str());
        out.append("\n");
        proof {
            assert(cv.take(i + 1).drop_last() =~= cv.take(i as int));
            assert(cv.take(i + 1).last() == (es@[i as int].0@, es@[i as int].1));
            assert(out@ =~= base + sent_lines(cv.take(i + 1), now_ms));
        }
        i = i + 1;
    }
    assert(cv.take(es@.len() as int) =~= cv);
}

/// Build the overlay content as plain text for clipboard copying, as seen at `now_ms`;
/// without overlay data (search module not initialized), a one-line notice.
pub fn build_overlay_text(info: &Option<SearchOverlayInfo>, now_ms: u64) -> (r: String)
    requires
        info matches Some(i) ==> crate::search::counts_total(count_views(i.top_extensions@)) <= u64::MAX,
    ensures
        match *info {
            Some(i) => r@ == overlay_text(i, now_ms),
            None => r@ == "Search module not initialized.\n"@,
        },
{
    let info = match info {
        Some(i) => i,
        None => {
            return String::from_str("Search module not initialized.\n");
        },
    };
    let mut out = String::new();
    push_server(&mut out, info);
    push_process(&mut out, info);
    push_database(&mut out, info);
    push_core(&mut out, info, now_ms);
    push_extensions(&mut out, info);
    push_splitter(&mut out, info);
    push_embeddings(&mut out, info);
    push_ocr(&mut out, info);
    push_tasks(&mut out, info);
    push_recomputed(&mut out, info);
    push_sent(&mut out, info, now_ms);
    assert(out@ =~= overlay_text(*info, now_ms));
    out
}

} // verus!
