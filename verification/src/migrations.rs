//! Which migration files still have to be applied to the entity database: those numbered
//! after the last migration it recorded as applied, in number order.
use crate::download::{is_digit, parse_digits, parse_u64, parse_u64_range};
use crate::search_config::{ends_with_seq, ends_with_str};
use crate::text::{chars_of, find_chars, find_seq, lemma_find_seq};
use vstd::prelude::*;
use vstd::string::*;

verus! {

/// The number of a migration file `NNNN_<timestamp>.sql`: the decimal digits before its
/// first `_`; `None` for any other file name.
pub open spec fn migration_id(name: Seq<char>) -> Option<u64> {
    match find_seq(name, seq!['_']) {
        Some(k) => if ends_with_seq(name, ".sql"@) {
            parse_digits(name.take(k))
        } else {
            None
        },
        None => None,
    }
}

/// The number of a migration file, if its name has the migration form.
pub fn migration_id_of(name: &str) -> (r: Option<u64>)
    ensures
        r == migration_id(name@),
{
    let v = chars_of(name);
    let mut us: Vec<char> = Vec::new();
    us.push('_');
    assert(us@ =~= seq!['_']);
    let k = match find_chars(&v, &us) {
        Some(k) => k,
        None => return None,
    };
    proof {
        lemma_find_seq(v@, seq!['_']);
    }
    if !ends_with_str(name, ".sql") {
        return None;
    }
    if k == 0 || !('0' <= v[0] && v[0] <= '9') {
        proof {
            let d = name@.take(k as int);
            if k > 0 {
                assert(d[0] == v@[0]);
                assert(!is_digit(d[0]));
            }
        }
        return None;
    }
    let r = parse_u64_range(&v, 0, k);
    proof {
        let d = v@.subrange(0, k as int);
        assert(d =~= name@.take(k as int));
        assert(d[0] == v@[0]);
        assert(parse_u64(d) == parse_digits(d));
    }
    r
}

/// A migration file to apply.
pub struct Migration {
    /// Its number.
    pub id: u64,
    /// Its file name.
    pub filename: String,
}

/// A migration as plain values.
pub open spec fn migration_view(m: Migration) -> (u64, Seq<char>) {
    (m.id, m.filename@)
}

/// Migrations as plain values.
pub open spec fn migration_views(ms: Seq<Migration>) -> Seq<(u64, Seq<char>)> {
    ms.map_values(|m: Migration| migration_view(m))
}

/// The migration files among `names` numbered after `last_applied`, in the order given.
pub open spec fn pending_candidates(names: Seq<Seq<char>>, last_applied: u64) -> Seq<(u64, Seq<char>)>
    decreases names.len(),
{
    if names.len() == 0 {
        Seq::empty()
    } else {
        let prev = pending_candidates(names.drop_last(), last_applied);
        match migration_id(names.last()) {
            Some(id) => if id > last_applied {
                prev.push((id, names.last()))
            } else {
                prev
            },
            None => prev,
        }
    }
}

/// Ascending by number.
pub open spec fn ascending(s: Seq<(u64, Seq<char>)>) -> bool {
    forall|i: int, j: int| 0 <= i < j < s.len() ==> (#[trigger] s[i]).0 <= (#[trigger] s[j]).0
}

/// The migrations still to apply, given the files of the migrations directory (in any
/// order) and the number of the last migration applied: exactly the migration files
/// numbered after it, in ascending number order.
pub fn pending_migrations(names: &Vec<String>, last_applied: u64) -> (r: Vec<Migration>)
    ensures
        ascending(migration_views(r@)),
        migration_views(r@).to_multiset() == pending_candidates(names@.map_values(|s: String| s@), last_applied).to_multiset(),
{
    let ghost ns = names@.map_values(|s: String| s@);
    let mut out: Vec<Migration> = Vec::new();
    let mut i: usize = 0;
    proof {
        assert(migration_views(out@) =~= Seq::<(u64, Seq<char>)>::empty());
        assert(ns.take(0).len() == 0);
        assert(pending_candidates(ns.take(0), last_applied) =~= Seq::<(u64, Seq<char>)>::empty());
    }
    while i < names.len()
        invariant
            i <= names@.len(),
            ns == names@.map_values(|s: String| s@),
            ascending(migration_views(out@)),
            migration_views(out@).to_multiset() == pending_candidates(ns.take(i as int), last_applied).to_multiset(),
        decreases names@.len() - i,
    {
        proof {
            assert(ns.take(i + 1).drop_last() =~= ns.take(i as int));
            assert(ns.take(i + 1).last() == names@[i as int]@);
        }
        match migration_id_of(names[i].as_str()) {
            Some(id) => {
                if id > last_applied {
                    let ghost r = migration_views(out@);
                    let mut p: usize = out.len();
                    while p > 0 && out[p - 1].id > id
                        invariant
                            p <= out@.len(),
                            r == migration_views(out@),
                            forall|k: int| p <= k < out@.len() ==> (#[trigger] r[k]).0 > id,
                        decreases p,
                    {
                        p = p - 1;
                    }
                    proof {
                        if p > 0 {
                            assert(r[p - 1].0 <= id);
                            assert forall|k: int| 0 <= k < p implies (#[trigger] r[k]).0 <= id by {
                                if k < p - 1 {
                                    assert(r[k].0 <= r[p - 1].0);
                                }
                            }
                        }
                    }
                    let ghost xv = (id, names@[i as int]@);
                    out.insert(p, Migration { id, filename: names[i].clone() });
                    proof {
                        let nr = migration_views(out@);
                        assert(nr =~= r.insert(p as int, xv));
                        vstd::seq_lib::to_multiset_insert(r, p as int, xv);
                        let prev = pending_candidates(ns.take(i as int), last_applied);
                        vstd::seq_lib::to_multiset_build(prev, xv);
                        assert forall|a: int, b: int| 0 <= a < b < nr.len() implies (#[trigger] nr[a]).0 <= (
                        #[trigger] nr[b]).0 by {
                            if b < p {
                                assert(nr[a] == r[a] && nr[b] == r[b]);
                            } else if b == p {
                                assert(nr[a] == r[a]);
                            } else if a < p {
                                assert(nr[a] == r[a] && nr[b] == r[b - 1]);
                            } else if a == p {
                                assert(nr[b] == r[b - 1]);
                            } else {
                                assert(nr[a] == r[a - 1] && nr[b] == r[b - 1]);
                            }
                        }
                    }
                }
            },
            None => {},
        }
        i = i + 1;
    }
    assert(ns.take(names@.len() as int) =~= ns);
    out
}

/// Law: the pending migrations are exactly the migration files numbered after the last one
/// applied (none applied twice, none left out), and they come in ascending number order.
pub proof fn law_pending_are_newer(names: Seq<Seq<char>>, last_applied: u64)
    ensures
        forall|i: int|
            0 <= i < pending_candidates(names, last_applied).len() ==> (#[trigger] pending_candidates(
                names,
                last_applied,
            )[i]).0 > last_applied && migration_id(pending_candidates(names, last_applied)[i].1) == Some(
                pending_candidates(names, last_applied)[i].0,
            ),
    decreases names.len(),
{
    if names.len() > 0 {
        law_pending_are_newer(names.drop_last(), last_applied);
    }
}

} // verus!
