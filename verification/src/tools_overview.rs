//! The tools section of the configuration panel: tools grouped by category.
use crate::library::{list_contains, str_eq};
use crate::text::{to_uppercase, uppercase_of, views};
use vstd::prelude::*;
use vstd::string::*;

verus! {

/// A tool as the configuration panel lists it.
pub struct ToolInfo {
    /// Tool id.
    pub id: String,
    /// Category the tool belongs to.
    pub category: String,
    /// One-line description.
    pub short_desc: String,
    /// Whether the tool is enabled.
    pub enabled: bool,
}

/// One listed tool: id, whether enabled, description.
pub struct ToolRow {
    pub id: String,
    pub enabled: bool,
    pub short_desc: String,
}

/// One category and its tools.
pub struct ToolCategory {
    /// The category's name in upper case.
    pub title: String,
    /// The category's description (empty when none is registered).
    pub description: String,
    /// Its tools, in list order.
    pub rows: Vec<ToolRow>,
}

/// The tools section.
pub struct ToolsOverview {
    /// Enabled tools.
    pub enabled_count: usize,
    /// Disabled tools.
    pub disabled_count: usize,
    /// The categories in order of first appearance.
    pub categories: Vec<ToolCategory>,
}

/// The number of tools whose enabled flag is `on`.
pub open spec fn count_enabled(ts: Seq<ToolInfo>, on: bool) -> nat
    decreases ts.len(),
{
    if ts.len() == 0 {
        0
    } else {
        count_enabled(ts.drop_last(), on) + if ts.last().enabled == on {
            1nat
        } else {
            0nat
        }
    }
}

/// Each value once, in order of first appearance.
pub open spec fn first_seen(s: Seq<Seq<char>>) -> Seq<Seq<char>>
    decreases s.len(),
{
    if s.len() == 0 {
        Seq::empty()
    } else {
        let r = first_seen(s.drop_last());
        if r.contains(s.last()) {
            r
        } else {
            r.push(s.last())
        }
    }
}

/// The categories of the tools, in list order.
pub open spec fn categories_of(ts: Seq<ToolInfo>) -> Seq<Seq<char>> {
    ts.map_values(|t: ToolInfo| t.category@)
}

/// The tools of category `c`, in list order.
pub open spec fn tools_of(ts: Seq<ToolInfo>, c: Seq<char>) -> Seq<ToolInfo>
    decreases ts.len(),
{
    if ts.len() == 0 {
        Seq::empty()
    } else {
        let r = tools_of(ts.drop_last(), c);
        if ts.last().category@ == c {
            r.push(ts.last())
        } else {
            r
        }
    }
}

/// The description registered last for category `c`, or nothing.
pub open spec fn category_desc(descs: Seq<(Seq<char>, Seq<char>)>, c: Seq<char>) -> Seq<char>
    decreases descs.len(),
{
    if descs.len() == 0 {
        Seq::empty()
    } else if descs.last().0 == c {
        descs.last().1
    } else {
        category_desc(descs.drop_last(), c)
    }
}

/// A row as plain values.
pub open spec fn row_view(r: ToolRow) -> (Seq<char>, bool, Seq<char>) {
    (r.id@, r.enabled, r.short_desc@)
}

/// The row of a tool.
pub open spec fn tool_row(t: ToolInfo) -> (Seq<char>, bool, Seq<char>) {
    (t.id@, t.enabled, t.short_desc@)
}

/// Category `cat` lists category `c` of `ts`, described by `descs`.
pub open spec fn lists_category(
    ts: Seq<ToolInfo>,
    descs: Seq<(Seq<char>, Seq<char>)>,
    c: Seq<char>,
    cat: ToolCategory,
) -> bool {
    &&& cat.title@ == uppercase_of(c)
    &&& cat.description@ == category_desc(descs, c)
    &&& cat.rows@.map_values(|r: ToolRow| row_view(r)) == tools_of(ts, c).map_values(|t: ToolInfo| tool_row(t))
}

/// Pairs of strings as plain values.
pub open spec fn pair_views(v: Seq<(String, String)>) -> Seq<(Seq<char>, Seq<char>)> {
    v.map_values(|p: (String, String)| (p.0@, p.1@))
}

proof fn lemma_count_bound(ts: Seq<ToolInfo>, on: bool)
    ensures
        count_enabled(ts, on) <= ts.len(),
    decreases ts.len(),
{
    if ts.len() > 0 {
        lemma_count_bound(ts.drop_last(), on);
    }
}

fn category_description(descs: &Vec<(String, String)>, c: &str) -> (r: String)
    ensures
        r@ == category_desc(pair_views(descs@), c@),
{
    let mut i = descs.len();
    assert(descs@.take(descs@.len() as int) =~= descs@);
    while i > 0
        invariant
            i <= descs@.len(),
            category_desc(pair_views(descs@), c@) == category_desc(pair_views(descs@.take(i as int)), c@),
        decreases i,
    {
        proof {
            assert(pair_views(descs@.take(i as int)).drop_last() =~= pair_views(descs@.take(i - 1)));
        }
        if str_eq(descs[i - 1].0.as_str(), c) {
            return descs[i - 1].1.clone();
        }
        i = i - 1;
    }
    assert(pair_views(descs@.take(0)) =~= Seq::<(Seq<char>, Seq<char>)>::empty());
    String::new()
}

fn rows_of(tools: &Vec<ToolInfo>, c: &str) -> (r: Vec<ToolRow>)
    ensures
        r@.map_values(|x: ToolRow| row_view(x)) == tools_of(tools@, c@).map_values(|t: ToolInfo| tool_row(t)),
{
    let mut rows: Vec<ToolRow> = Vec::new();
    let mut i: usize = 0;
    while i < tools.len()
        invariant
            i <= tools@.len(),
            rows@.map_values(|x: ToolRow| row_view(x)) == tools_of(tools@.take(i as int), c@).map_values(
                |t: ToolInfo| tool_row(t),
            ),
        decreases tools@.len() - i,
    {
        let t = &tools[i];
        proof {
            assert(tools@.take(i + 1).drop_last() =~= tools@.take(i as int));
        }
        if str_eq(t.category.as_str(), c) {
            let ghost old_rows = rows@;
            let row = ToolRow { id: t.id.clone(), enabled: t.enabled, short_desc: t.short_desc.clone() };
            assert(row_view(row) == tool_row(tools@[i as int]));
            rows.push(row);
            proof {
                assert(tools@.take(i + 1).last() == tools@[i as int]);
                assert(tools_of(tools@.take(i + 1), c@) == tools_of(tools@.take(i as int), c@).push(tools@[i as int]));
                assert(rows@ == old_rows.push(row));
                assert(rows@.map_values(|x: ToolRow| row_view(x)) =~= old_rows.map_values(|x: ToolRow| row_view(x)).push(
                    row_view(row),
                ));
                assert(tools_of(tools@.take(i + 1), c@).map_values(|t: ToolInfo| tool_row(t)) =~= tools_of(
                    tools@.take(i as int),
                    c@,
                ).map_values(|t: ToolInfo| tool_row(t)).push(tool_row(tools@[i as int])));
            }
        }
        i = i + 1;
    }
    assert(tools@.take(tools@.len() as int) =~= tools@);
    rows
}

/// The tools section: how many tools are enabled and disabled, and the categories in order
/// of first appearance, each with its upper-case name, its registered description (the
/// last registered for it; empty when none) and its tools in list order.
pub fn tools_overview(tools: &Vec<ToolInfo>, descriptions: &Vec<(String, String)>) -> (r: ToolsOverview)
    ensures
        r.enabled_count == count_enabled(tools@, true),
        r.disabled_count == count_enabled(tools@, false),
        r.categories@.len() == first_seen(categories_of(tools@)).len(),
        forall|k: int|
            0 <= k < r.categories@.len() ==> lists_category(
                tools@,
                pair_views(descriptions@),
                first_seen(categories_of(tools@))[k],
                #[trigger] r.categories@[k],
            ),
{
    let mut enabled: usize = 0;
    let mut disabled: usize = 0;
    let mut seen: Vec<String> = Vec::new();
    let mut i: usize = 0;
    while i < tools.len()
        invariant
            i <= tools@.len(),
            enabled == count_enabled(tools@.take(i as int), true),
            disabled == count_enabled(tools@.take(i as int), false),
            views(seen@) == first_seen(categories_of(tools@.take(i as int))),
        decreases tools@.len() - i,
    {
        proof {
            assert(tools@.take(i + 1).drop_last() =~= tools@.take(i as int));
            assert(categories_of(tools@.take(i + 1)).drop_last() =~= categories_of(tools@.take(i as int)));
            lemma_count_bound(tools@.take(i as int), true);
            lemma_count_bound(tools@.take(i as int), false);
        }
        if tools[i].enabled {
            enabled = enabled + 1;
        } else {
            disabled = disabled + 1;
        }
        let c = tools[i].category.as_str();
        if !list_contains(&seen, c) {
            seen.push(tools[i].category.clone());
            proof {
                assert(views(seen@) =~= first_seen(categories_of(tools@.take(i + 1))));
            }
        }
        i = i + 1;
    }
    assert(tools@.take(tools@.len() as int) =~= tools@);
    let ghost fs = first_seen(categories_of(tools@));
    let mut categories: Vec<ToolCategory> = Vec::new();
    let mut k: usize = 0;
    while k < seen.len()
        invariant
            k <= seen@.len(),
            views(seen@) == fs,
            fs == first_seen(categories_of(tools@)),
            categories@.len() == k,
            forall|j: int|
                0 <= j < k ==> lists_category(tools@, pair_views(descriptions@), fs[j], #[trigger] categories@[j]),
        decreases seen@.len() - k,
    {
        let c = seen[k].as_str();
        assert(fs[k as int] == c@);
        let cat = ToolCategory {
            title: to_uppercase(c),
            description: category_description(descriptions, c),
            rows: rows_of(tools, c),
        };
        categories.push(cat);
        k = k + 1;
    }
    ToolsOverview { enabled_count: enabled, disabled_count: disabled, categories }
}

} // verus!
