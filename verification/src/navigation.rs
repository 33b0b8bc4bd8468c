//! Context panel navigation: next/previous panel and page-wise jumps among dynamic panels.
//!
//! Panels are visited in the order of their numeric ids (`P<n>`); panels whose id has no
//! number come last, and ties keep the panels' list order.
use crate::context::ContextEntry;
use crate::download::{parse_u64, parse_u64_range};
use crate::text::chars_of;
use vstd::prelude::*;
use vstd::string::*;

verus! {

/// Maximum dynamic entries per sidebar page.
pub const DYNAMIC_PAGE_SIZE: usize = 10;

/// The number in a panel id `P<n>`; `usize::MAX` when the id has no such number.
pub open spec fn panel_key(id: Seq<char>) -> usize {
    if id.len() > 0 && id[0] == 'P' {
        match parse_u64(id.drop_first()) {
            Some(v) => if v <= usize::MAX {
                v as usize
            } else {
                usize::MAX
            },
            None => usize::MAX,
        }
    } else {
        usize::MAX
    }
}

/// The sort key of each panel.
pub open spec fn keys_of(panels: Seq<ContextEntry>) -> Seq<usize> {
    panels.map_values(|p: ContextEntry| panel_key(p.id@))
}

/// Which panels are fixed.
pub open spec fn fixed_of(panels: Seq<ContextEntry>) -> Seq<bool> {
    panels.map_values(|p: ContextEntry| p.is_fixed)
}

/// Panel `a` comes before panel `b`: a smaller key, or the same key and an earlier place.
pub open spec fn before(keys: Seq<usize>, a: usize, b: usize) -> bool {
    keys[a as int] < keys[b as int] || (keys[a as int] == keys[b as int] && a < b)
}

/// Strictly ordered by `before`, over indices of `keys`.
pub open spec fn ordered(l: Seq<usize>, keys: Seq<usize>) -> bool {
    &&& forall|i: int| 0 <= i < l.len() ==> #[trigger] l[i] < keys.len()
    &&& forall|i: int, j: int| 0 <= i < j < l.len() ==> before(keys, #[trigger] l[i], #[trigger] l[j])
}

/// Panel `x` is one of those listed: any panel, or only the dynamic ones.
pub open spec fn listed(fixed: Seq<bool>, x: usize, dynamic_only: bool) -> bool {
    x < fixed.len() && (!dynamic_only || !fixed[x as int])
}

/// `l` lists exactly the listed panels, in panel order.
pub open spec fn panel_order(l: Seq<usize>, keys: Seq<usize>, fixed: Seq<bool>, dynamic_only: bool) -> bool {
    &&& keys.len() == fixed.len()
    &&& ordered(l, keys)
    &&& forall|x: usize| l.contains(x) <==> listed(fixed, x, dynamic_only)
}

/// Two lists strictly ordered by `before` with the same elements are equal.
pub proof fn lemma_ordered_unique(a: Seq<usize>, b: Seq<usize>, keys: Seq<usize>)
    requires
        ordered(a, keys),
        ordered(b, keys),
        forall|x: usize| a.contains(x) <==> b.contains(x),
    ensures
        a == b,
    decreases a.len(),
{
    if a.len() == 0 {
        if b.len() > 0 {
            assert(b.contains(b[0]));
        }
        assert(a =~= b);
    } else {
        assert(a.contains(a[0]));
        let k = choose|k: int| 0 <= k < b.len() && b[k] == a[0];
        assert(b.contains(b[0]));
        let m = choose|m: int| 0 <= m < a.len() && a[m] == b[0];
        if k > 0 && m > 0 {
            assert(before(keys, b[0], b[k]));
            assert(before(keys, a[0], a[m]));
        } else if m == 0 {
        } else {
            assert(before(keys, a[0], a[m]));
        }
        assert(a[0] == b[0]);
        let a1 = a.drop_first();
        let b1 = b.drop_first();
        assert forall|x: usize| a1.contains(x) <==> b1.contains(x) by {
            if a1.contains(x) {
                let i = choose|i: int| 0 <= i < a1.len() && a1[i] == x;
                assert(a[i + 1] == x);
                assert(before(keys, a[0], a[i + 1]));
                assert(b.contains(x));
                let j = choose|j: int| 0 <= j < b.len() && b[j] == x;
                assert(j != 0);
                assert(b1[j - 1] == x);
            }
            if b1.contains(x) {
                let i = choose|i: int| 0 <= i < b1.len() && b1[i] == x;
                assert(b[i + 1] == x);
                assert(before(keys, b[0], b[i + 1]));
                assert(a.contains(x));
                let j = choose|j: int| 0 <= j < a.len() && a[j] == x;
                assert(j != 0);
                assert(a1[j - 1] == x);
            }
        }
        assert forall|i: int| 0 <= i < a1.len() implies #[trigger] a1[i] < keys.len() by {
            assert(a1[i] == a[i + 1]);
        }
        assert forall|i: int, j: int| 0 <= i < j < a1.len() implies before(keys, #[trigger] a1[i], #[trigger] a1[j]) by {
            assert(a1[i] == a[i + 1] && a1[j] == a[j + 1]);
        }
        assert forall|i: int| 0 <= i < b1.len() implies #[trigger] b1[i] < keys.len() by {
            assert(b1[i] == b[i + 1]);
        }
        assert forall|i: int, j: int| 0 <= i < j < b1.len() implies before(keys, #[trigger] b1[i], #[trigger] b1[j]) by {
            assert(b1[i] == b[i + 1] && b1[j] == b[j + 1]);
        }
        lemma_ordered_unique(a1, b1, keys);
        assert(a =~= b1.insert(0, a[0]));
        assert(b =~= b1.insert(0, b[0]));
    }
}

/// The number in a panel id `P<n>`; `usize::MAX` when the id has no such number.
pub fn panel_number(id: &str) -> (r: usize)
    ensures
        r == panel_key(id@),
{
    let v = chars_of(id);
    if v.len() == 0 || v[0] != 'P' {
        return usize::MAX;
    }
    let n = v.len();
    let p = parse_u64_range(&v, 1, n);
    assert(v@.subrange(1, n as int) =~= id@.drop_first());
    match p {
        Some(x) => if x <= usize::MAX as u64 {
            x as usize
        } else {
            usize::MAX
        },
        None => usize::MAX,
    }
}

fn keys_and_fixed(panels: &Vec<ContextEntry>) -> (r: (Vec<usize>, Vec<bool>))
    ensures
        r.0@ == keys_of(panels@),
        r.1@ == fixed_of(panels@),
{
    let mut keys: Vec<usize> = Vec::new();
    let mut fixed: Vec<bool> = Vec::new();
    let mut i: usize = 0;
    while i < panels.len()
        invariant
            i <= panels@.len(),
            keys@ == keys_of(panels@.take(i as int)),
            fixed@ == fixed_of(panels@.take(i as int)),
        decreases panels@.len() - i,
    {
        keys.push(panel_number(panels[i].id.as_str()));
        fixed.push(panels[i].is_fixed);
        proof {
            assert(keys_of(panels@.take(i + 1)) =~= keys_of(panels@.take(i as int)).push(panel_key(panels@[i as int].id@)));
            assert(fixed_of(panels@.take(i + 1)) =~= fixed_of(panels@.take(i as int)).push(panels@[i as int].is_fixed));
        }
        i = i + 1;
    }
    assert(panels@.take(panels@.len() as int) =~= panels@);
    (keys, fixed)
}

/// The listed panels in panel order: all of them, or only the dynamic ones.
pub fn panel_order_of(keys: &Vec<usize>, fixed: &Vec<bool>, dynamic_only: bool) -> (l: Vec<usize>)
    requires
        keys@.len() == fixed@.len(),
    ensures
        panel_order(l@, keys@, fixed@, dynamic_only),
        !dynamic_only ==> l@.len() == keys@.len(),
{
    let n = keys.len();
    let mut l: Vec<usize> = Vec::new();
    let mut i: usize = 0;
    while i < n
        invariant
            n == keys@.len() == fixed@.len(),
            i <= n,
            ordered(l@, keys@),
            forall|k: int| 0 <= k < l@.len() ==> #[trigger] l@[k] < i,
            forall|x: usize| l@.contains(x) <==> (x < i && listed(fixed@, x, dynamic_only)),
            !dynamic_only ==> l@.len() == i,
        decreases n - i,
    {
        if !dynamic_only || !fixed[i] {
            let mut p: usize = 0;
            while p < l.len() && keys[l[p]] <= keys[i]
                invariant
                    n == keys@.len(),
                    i < n,
                    p <= l@.len(),
                    ordered(l@, keys@),
                    forall|k: int| 0 <= k < l@.len() ==> #[trigger] l@[k] < i,
                    forall|q: int| 0 <= q < p ==> keys@[#[trigger] l@[q] as int] <= keys@[i as int],
                decreases l@.len() - p,
            {
                p = p + 1;
            }
            let ghost old_l = l@;
            l.insert(p, i);
            proof {
                assert(l@ =~= old_l.insert(p as int, i));
                assert forall|a: int, b: int| 0 <= a < b < l@.len() implies before(keys@, #[trigger] l@[a], #[trigger] l@[b]) by {
                    if b < p {
                        assert(l@[a] == old_l[a] && l@[b] == old_l[b]);
                    } else if b == p {
                        assert(l@[a] == old_l[a]);
                        assert(keys@[old_l[a] as int] <= keys@[i as int]);
                    } else if a > p {
                        assert(l@[a] == old_l[a - 1] && l@[b] == old_l[b - 1]);
                    } else if a == p {
                        assert(l@[b] == old_l[b - 1]);
                        assert(keys@[i as int] < keys@[old_l[p as int] as int]);
                        if b - 1 > p {
                            assert(before(keys@, old_l[p as int], old_l[b - 1]));
                        }
                    } else {
                        assert(l@[a] == old_l[a] && l@[b] == old_l[b - 1]);
                    }
                }
                assert forall|k: int| 0 <= k < l@.len() implies #[trigger] l@[k] < i + 1 by {
                    if k < p {
                        assert(l@[k] == old_l[k]);
                    } else if k > p {
                        assert(l@[k] == old_l[k - 1]);
                    }
                }
                assert forall|x: usize| l@.contains(x) <==> (x < i + 1 && listed(fixed@, x, dynamic_only)) by {
                    if x == i {
                        assert(l@[p as int] == i);
                    } else {
                        if l@.contains(x) {
                            let k = choose|k: int| 0 <= k < l@.len() && l@[k] == x;
                            if k < p {
                                assert(old_l[k] == x);
                            } else {
                                assert(old_l[k - 1] == x);
                            }
                        }
                        if old_l.contains(x) {
                            let k = choose|k: int| 0 <= k < old_l.len() && old_l[k] == x;
                            if k < p {
                                assert(l@[k] == x);
                            } else {
                                assert(l@[k + 1] == x);
                            }
                        }
                    }
                }
            }
        } else {
            proof {
                assert forall|x: usize| l@.contains(x) <==> (x < i + 1 && listed(fixed@, x, dynamic_only)) by {
                    if x == i {
                        if l@.contains(x) {
                            let k = choose|k: int| 0 <= k < l@.len() && l@[k] == x;
                        }
                    }
                }
            }
        }
        i = i + 1;
    }
    l
}

/// The position reached by one step from `cur` among `n` places, wrapping at both ends.
pub open spec fn step(cur: int, n: int, forward: bool) -> int {
    if forward {
        (cur + 1) % n
    } else if cur == 0 {
        n - 1
    } else {
        cur - 1
    }
}

/// Law: one step back undoes one step forward, and one step forward undoes one step back.
pub proof fn law_step_round_trip(k: int, n: int)
    requires
        0 <= k < n,
    ensures
        step(step(k, n, true), n, false) == k,
        step(step(k, n, false), n, true) == k,
{
    if k + 1 < n {
        assert((k + 1) % n == k + 1) by (nonlinear_arith)
            requires
                0 <= k + 1 < n,
        ;
    } else {
        assert((k + 1) % n == 0) by (nonlinear_arith)
            requires
                k + 1 == n,
                n > 0,
        ;
    }
    if k > 0 {
        assert(k % n == k) by (nonlinear_arith)
            requires
                0 <= k < n,
        ;
    } else {
        assert((n - 1 + 1) % n == 0) by (nonlinear_arith)
            requires
                n > 0,
        ;
    }
}

/// Where the selected panel stands in the order `l`: its place, or 0 when it is not listed.
pub open spec fn place_of(l: Seq<usize>, selected: usize, k: int) -> bool {
    if l.contains(selected) {
        0 <= k < l.len() && l[k] == selected
    } else {
        k == 0
    }
}

fn place(l: &Vec<usize>, selected: usize) -> (k: usize)
    requires
        l@.len() > 0,
    ensures
        place_of(l@, selected, k as int),
{
    let mut k: usize = 0;
    while k < l.len()
        invariant
            k <= l@.len(),
            forall|j: int| 0 <= j < k ==> l@[j] != selected,
        decreases l@.len() - k,
    {
        if l[k] == selected {
            return k;
        }
        k = k + 1;
    }
    0
}

/// Navigate to the next (`forward`) or previous context panel in panel order, wrapping
/// around; the panel to switch to, or `None` when there are no panels. A selection that is
/// not a panel counts as the first one.
pub fn select_context(panels: &Vec<ContextEntry>, selected: usize, forward: bool) -> (r: Option<usize>)
    ensures
        panels@.len() == 0 ==> r is None,
        panels@.len() > 0 ==> exists|l: Seq<usize>| panel_order(l, keys_of(panels@), fixed_of(panels@), false),
        panels@.len() > 0 ==> forall|l: Seq<usize>, k: int|
            panel_order(l, keys_of(panels@), fixed_of(panels@), false) && #[trigger] place_of(l, selected, k)
                ==> r == Some(l[step(k, l.len() as int, forward)]),
{
    if panels.len() == 0 {
        return None;
    }
    let (keys, fixed) = keys_and_fixed(panels);
    let l = panel_order_of(&keys, &fixed, false);
    let n = l.len();
    let cur = place(&l, selected);
    let next = if forward {
        (cur + 1) % n
    } else if cur == 0 {
        n - 1
    } else {
        cur - 1
    };
    proof {
        assert forall|l2: Seq<usize>, k: int|
            panel_order(l2, keys_of(panels@), fixed_of(panels@), false) && #[trigger] place_of(l2, selected, k)
                implies Some(l@[next as int]) == Some(l2[step(k, l2.len() as int, forward)]) by {
            lemma_ordered_unique(l@, l2, keys@);
            if l@.contains(selected) {
                assert(l@[k] == selected && l@[cur as int] == selected);
                if k != cur as int {
                    if k < cur {
                        assert(before(keys@, l@[k], l@[cur as int]));
                    } else {
                        assert(before(keys@, l@[cur as int], l@[k]));
                    }
                }
            }
        }
    }
    Some(l[next])
}

/// The number of pages that `d` dynamic panels fill.
pub open spec fn page_count(d: int) -> int {
    (d + DYNAMIC_PAGE_SIZE - 1) / (DYNAMIC_PAGE_SIZE as int)
}

/// The page to jump to: from a dynamic panel at place `pos`, the next or previous page,
/// wrapping; from a fixed panel, the last page going forward and the first going back.
pub open spec fn target_page(pages: int, pos: Option<int>, forward: bool) -> int {
    match pos {
        Some(p) => {
            let cur = p / (DYNAMIC_PAGE_SIZE as int);
            if forward {
                if cur >= pages - 1 {
                    0
                } else {
                    cur + 1
                }
            } else if cur == 0 {
                pages - 1
            } else {
                cur - 1
            }
        },
        None => if forward {
            pages - 1
        } else {
            0
        },
    }
}

/// The selected panel is a dynamic panel.
pub open spec fn selects_dynamic(panels: Seq<ContextEntry>, selected: usize) -> bool {
    selected < panels.len() && !panels[selected as int].is_fixed
}

/// Jump to the first dynamic panel on the next or previous page of dynamic panels (pages of
/// `DYNAMIC_PAGE_SIZE`, in panel order): from a dynamic panel the pages wrap around; from a
/// fixed panel, forward goes to the last page and backward to the first. `None` when there
/// is no dynamic panel.
pub fn page_dynamic(panels: &Vec<ContextEntry>, selected: usize, forward: bool) -> (r: Option<usize>)
    ensures
        exists|l: Seq<usize>| panel_order(l, keys_of(panels@), fixed_of(panels@), true),
        forall|l: Seq<usize>| #[trigger]
            panel_order(l, keys_of(panels@), fixed_of(panels@), true) ==> {
                &&& (l.len() == 0 <==> r is None)
                &&& (l.len() > 0 && !selects_dynamic(panels@, selected)) ==> r == Some(
                    l[target_page(page_count(l.len() as int), None, forward) * DYNAMIC_PAGE_SIZE],
                )
                &&& forall|k: int|
                    (l.len() > 0 && selects_dynamic(panels@, selected) && 0 <= k < l.len() && #[trigger] l[k]
                        == selected) ==> r == Some(
                        l[target_page(page_count(l.len() as int), Some(k), forward) * DYNAMIC_PAGE_SIZE],
                    )
            },
{
    let (keys, fixed) = keys_and_fixed(panels);
    let l = panel_order_of(&keys, &fixed, true);
    proof {
        assert(panel_order(l@, keys_of(panels@), fixed_of(panels@), true));
    }
    let d = l.len();
    if d == 0 {
        proof {
            assert forall|l2: Seq<usize>| #[trigger]
                panel_order(l2, keys_of(panels@), fixed_of(panels@), true) implies l2.len() == 0 by {
                lemma_ordered_unique(l@, l2, keys@);
            }
        }
        return None;
    }
    let pages = d / DYNAMIC_PAGE_SIZE + if d % DYNAMIC_PAGE_SIZE != 0 {
        1
    } else {
        0
    };
    assert(pages == page_count(d as int));
    let is_dynamic = selected < panels.len() && !panels[selected].is_fixed;
    let ghost pos: Option<int> = None;
    let target: usize = if is_dynamic {
        let p = place(&l, selected);
        proof {
            assert(fixed@[selected as int] == panels@[selected as int].is_fixed);
            assert(listed(fixed@, selected, true));
            assert(l@.contains(selected));
            pos = Some(p as int);
        }
        let cur = p / DYNAMIC_PAGE_SIZE;
        if forward {
            if cur >= pages - 1 {
                0
            } else {
                cur + 1
            }
        } else if cur == 0 {
            pages - 1
        } else {
            cur - 1
        }
    } else {
        if forward {
            pages - 1
        } else {
            0
        }
    };
    assert(target == target_page(pages as int, pos, forward));
    assert(target * DYNAMIC_PAGE_SIZE < d) by (nonlinear_arith)
        requires
            target <= pages - 1,
            pages == (d + 9) / 10,
            d > 0,
    ;
    let idx = target * DYNAMIC_PAGE_SIZE;
    proof {
        assert forall|l2: Seq<usize>| #[trigger]
            panel_order(l2, keys_of(panels@), fixed_of(panels@), true) implies {
                &&& (l2.len() == 0 <==> Some(l@[idx as int]) is None)
                &&& (l2.len() > 0 && !selects_dynamic(panels@, selected)) ==> Some(l@[idx as int]) == Some(
                    l2[target_page(page_count(l2.len() as int), None, forward) * DYNAMIC_PAGE_SIZE],
                )
                &&& forall|k: int|
                    (l2.len() > 0 && selects_dynamic(panels@, selected) && 0 <= k < l2.len() && #[trigger] l2[k]
                        == selected) ==> Some(l@[idx as int]) == Some(
                        l2[target_page(page_count(l2.len() as int), Some(k), forward) * DYNAMIC_PAGE_SIZE],
                    )
            } by {
            lemma_ordered_unique(l@, l2, keys@);
            assert forall|k: int|
                (l2.len() > 0 && selects_dynamic(panels@, selected) && 0 <= k < l2.len() && #[trigger] l2[k]
                    == selected) implies Some(l@[idx as int]) == Some(
                    l2[target_page(page_count(l2.len() as int), Some(k), forward) * DYNAMIC_PAGE_SIZE],
                ) by {
                let p = pos.unwrap();
                assert(l@[p] == selected);
                if k != p {
                    if k < p {
                        assert(before(keys@, l@[k], l@[p]));
                    } else {
                        assert(before(keys@, l@[p], l@[k]));
                    }
                }
            }
        }
    }
    Some(l[idx])
}

} // verus!
