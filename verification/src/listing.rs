//! Rows of a table that match, in an order of their own.

use vstd::prelude::*;

use crate::table;
use crate::table::Table;

verus! {

/// Rows by key.
pub type Rows<V> = Map<Seq<Seq<char>>, V>;

/// `lt` puts any two rows of different keys in one order.
pub open spec fn orders<V>(rows: Rows<V>, lt: spec_fn(V, V) -> bool) -> bool {
    &&& forall|a: V| !#[trigger] lt(a, a)
    &&& forall|a: V, b: V, c: V| #[trigger] lt(a, b) && #[trigger] lt(b, c) ==> lt(a, c)
    &&& forall|j: Seq<Seq<char>>, k: Seq<Seq<char>>|
        rows.contains_key(j) && rows.contains_key(k) && j != k ==> lt(
            #[trigger] rows[j],
            #[trigger] rows[k],
        ) || lt(rows[k], rows[j])
}

/// The list holds a row that matches at every place.
pub open spec fn from_rows<V>(list: Seq<&V>, rows: Rows<V>, p: spec_fn(V) -> bool) -> bool {
    forall|i: int|
        0 <= i < list.len() ==> p(*#[trigger] list[i]) && (exists|k: Seq<Seq<char>>|
            rows.contains_key(k) && #[trigger] rows[k] == *list[i])
}

/// Every row that matches is in the list.
pub open spec fn all_rows<V>(list: Seq<&V>, rows: Rows<V>, p: spec_fn(V) -> bool) -> bool {
    forall|k: Seq<Seq<char>>|
        rows.contains_key(k) && p(#[trigger] rows[k]) ==> exists|i: int|
            0 <= i < list.len() && *#[trigger] list[i] == rows[k]
}

/// Strictly ascending under `lt`.
pub open spec fn ascending<V>(list: Seq<&V>, lt: spec_fn(V, V) -> bool) -> bool {
    forall|i: int, j: int|
        0 <= i < j < list.len() ==> lt(*#[trigger] list[i], *#[trigger] list[j])
}

/// The list is exactly the rows that match, in ascending order.
pub open spec fn lists<V>(
    list: Seq<&V>,
    rows: Rows<V>,
    p: spec_fn(V) -> bool,
    lt: spec_fn(V, V) -> bool,
) -> bool {
    ascending(list, lt) && from_rows(list, rows, p) && all_rows(list, rows, p)
}

/// The rows of `table` that match `p`, in ascending order of `lt`.
pub(crate) fn pick<'a, V, K: Fn(&V) -> bool, B: Fn(&V, &V) -> bool>(
    rows: &'a Table<V>,
    keep: K,
    before: B,
    Ghost(p): Ghost<spec_fn(V) -> bool>,
    Ghost(lt): Ghost<spec_fn(V, V) -> bool>,
) -> (r: Vec<&'a V>)
    requires
        rows.wf(),
        orders(rows@, lt),
        forall|v: &V| #[trigger] keep.requires((v,)),
        forall|v: &V, b: bool| #[trigger] keep.ensures((v,), b) ==> b == p(*v),
        forall|v: &V, w: &V| #[trigger] before.requires((v, w)),
        forall|v: &V, w: &V, b: bool| #[trigger] before.ensures((v, w), b) ==> b == lt(*v, *w),
    ensures
        lists(r@, rows@, p, lt),
{
    let mut out: Vec<&V> = Vec::new();
    let ghost mut from: Seq<int> = Seq::empty();
    let mut i: usize = 0;
    while i < rows.values.len()
        invariant
            rows.wf(),
            orders(rows@, lt),
            forall|v: &V| #[trigger] keep.requires((v,)),
            forall|v: &V, b: bool| #[trigger] keep.ensures((v,), b) ==> b == p(*v),
            forall|v: &V, w: &V| #[trigger] before.requires((v, w)),
            forall|v: &V, w: &V, b: bool| #[trigger] before.ensures((v, w), b) ==> b == lt(*v, *w),
            i <= rows.values@.len(),
            from.len() == out@.len(),
            forall|j: int|
                0 <= j < from.len() ==> 0 <= #[trigger] from[j] < i && *out@[j]
                    == rows.values@[from[j]] && p(*out@[j]),
            forall|x: int| 0 <= x < i && p(#[trigger] rows.values@[x]) ==> from.contains(x),
            ascending(out@, lt),
        decreases rows.values@.len() - i,
    {
        let v = &rows.values[i];
        if keep(v) {
            let mut at: usize = 0;
            while at < out.len() && before(out[at], v)
                invariant
                    forall|v: &V, w: &V| #[trigger] before.requires((v, w)),
                    forall|v: &V, w: &V, b: bool| #[trigger]
                        before.ensures((v, w), b) ==> b == lt(*v, *w),
                    at <= out@.len(),
                    forall|j: int| 0 <= j < at ==> lt(*#[trigger] out@[j], *v),
                decreases out@.len() - at,
            {
                at += 1;
            }
            let ghost was = out@;
            let ghost was_from = from;
            proof {
                if at < was.len() {
                    lemma_apart(*rows, lt, from[at as int], i as int);
                    assert(lt(*v, *was[at as int]));
                    assert forall|j: int| at < j < was.len() implies lt(*v, *#[trigger] was[j]) by {
                        assert(lt(*was[at as int], *was[j]));
                    }
                }
            }
            out.insert(at, v);
            proof {
                from = from.insert(at as int, i as int);
                assert forall|j: int| 0 <= j < from.len() implies 0 <= #[trigger] from[j] <= i
                    && *out@[j] == rows.values@[from[j]] && p(*out@[j]) by {
                    if j < at {
                        assert(from[j] == was_from[j] && out@[j] == was[j]);
                    } else if j > at {
                        assert(from[j] == was_from[j - 1] && out@[j] == was[j - 1]);
                    }
                }
                assert(ascending(out@, lt)) by {
                    assert forall|a: int, b: int| 0 <= a < b < out@.len() implies lt(
                        *#[trigger] out@[a],
                        *#[trigger] out@[b],
                    ) by {
                        if a < at && b > at {
                            assert(lt(*was[a], *was[b - 1]));
                        } else if a < at && b < at {
                            assert(lt(*was[a], *was[b]));
                        } else if a > at {
                            assert(lt(*was[a - 1], *was[b - 1]));
                        }
                    }
                }
                assert forall|x: int| 0 <= x <= i && p(#[trigger] rows.values@[x]) implies from.contains(
                    x,
                ) by {
                    if x == i {
                        assert(from[at as int] == x);
                    } else {
                        let j = choose|j: int| 0 <= j < was_from.len() && was_from[j] == x;
                        if j < at {
                            assert(from[j] == x);
                        } else {
                            assert(from[j + 1] == x);
                        }
                    }
                }
            }
        }
        i += 1;
    }
    proof {
        assert forall|j: int| 0 <= j < out@.len() implies p(*#[trigger] out@[j]) && (exists|
            k: Seq<Seq<char>>,
        |
            rows@.contains_key(k) && #[trigger] rows@[k] == *out@[j]) by {
            table::lemma_row_at(rows.order(), rows.values@, from[j]);
            let k = rows.order()[from[j]];
            assert(rows@.contains_key(k) && rows@[k] == *out@[j]);
        }
        assert forall|k: Seq<Seq<char>>|
            rows@.contains_key(k) && p(#[trigger] rows@[k]) implies exists|j: int|
            0 <= j < out@.len() && *#[trigger] out@[j] == rows@[k] by {
            let x = choose|x: int| 0 <= x < rows.order().len() && rows.order()[x] == k;
            table::lemma_row_at(rows.order(), rows.values@, x);
            let j = choose|j: int| 0 <= j < from.len() && from[j] == x;
            assert(*out@[j] == rows@[k]);
        }
    }
    out
}

/// Rows at different places of a table are of different keys.
proof fn lemma_apart<V>(rows: Table<V>, lt: spec_fn(V, V) -> bool, a: int, b: int)
    requires
        rows.wf(),
        orders(rows@, lt),
        0 <= a < rows.values@.len(),
        0 <= b < rows.values@.len(),
        a != b,
    ensures
        lt(rows.values@[a], rows.values@[b]) || lt(rows.values@[b], rows.values@[a]),
{
    let keys = rows.order();
    table::lemma_row_at(keys, rows.values@, a);
    table::lemma_row_at(keys, rows.values@, b);
    table::lemma_sorted_unique(keys);
    assert(keys[a] != keys[b]);
    assert(rows@[keys[a]] == rows.values@[a]);
    assert(rows@[keys[b]] == rows.values@[b]);
}

/// The first matching row by key.
pub open spec fn first_of<V>(rows: Rows<V>, p: spec_fn(V) -> bool, k: Seq<Seq<char>>) -> bool {
    &&& rows.contains_key(k)
    &&& p(rows[k])
    &&& forall|j: Seq<Seq<char>>|
        rows.contains_key(j) && table::key_lt(j, k) ==> !p(#[trigger] rows[j])
}

/// No row matches.
pub open spec fn none_of<V>(rows: Rows<V>, p: spec_fn(V) -> bool) -> bool {
    forall|j: Seq<Seq<char>>| rows.contains_key(j) ==> !p(#[trigger] rows[j])
}

/// Position of the first row, by key, that matches `p`.
pub(crate) fn find<V, K: Fn(&V) -> bool>(
    rows: &Table<V>,
    keep: K,
    Ghost(p): Ghost<spec_fn(V) -> bool>,
) -> (r: Option<usize>)
    requires
        rows.wf(),
        forall|v: &V| #[trigger] keep.requires((v,)),
        forall|v: &V, b: bool| #[trigger] keep.ensures((v,), b) ==> b == p(*v),
    ensures
        match r {
            Some(i) => {
                &&& i < rows.values@.len()
                &&& first_of(rows@, p, rows.order()[i as int])
                &&& rows@[rows.order()[i as int]] == rows.values@[i as int]
            },
            None => none_of(rows@, p),
        },
{
    let mut i: usize = 0;
    while i < rows.values.len()
        invariant
            rows.wf(),
            forall|v: &V| #[trigger] keep.requires((v,)),
            forall|v: &V, b: bool| #[trigger] keep.ensures((v,), b) ==> b == p(*v),
            i <= rows.values@.len(),
            forall|x: int| 0 <= x < i ==> !p(#[trigger] rows.values@[x]),
        decreases rows.values@.len() - i,
    {
        if keep(&rows.values[i]) {
            proof {
                let keys = rows.order();
                table::lemma_row_at(keys, rows.values@, i as int);
                assert forall|j: Seq<Seq<char>>|
                    rows@.contains_key(j) && table::key_lt(j, keys[i as int]) implies !p(
                    #[trigger] rows@[j],
                ) by {
                    let x = choose|x: int| 0 <= x < keys.len() && keys[x] == j;
                    table::lemma_row_at(keys, rows.values@, x);
                    if x >= i {
                        table::lemma_key_order(keys[i as int], keys[x], keys[i as int]);
                        if x > i {
                            assert(table::key_lt(keys[i as int], keys[x]));
                        }
                    }
                }
            }
            return Some(i);
        }
        i += 1;
    }
    proof {
        assert forall|j: Seq<Seq<char>>| rows@.contains_key(j) implies !p(#[trigger] rows@[j]) by {
            let keys = rows.order();
            let x = choose|x: int| 0 <= x < keys.len() && keys[x] == j;
            table::lemma_row_at(keys, rows.values@, x);
        }
    }
    None
}

/// The keys of the rows that match.
pub open spec fn matching<V>(rows: Rows<V>, p: spec_fn(V) -> bool) -> Set<Seq<Seq<char>>> {
    rows.dom().filter(|k: Seq<Seq<char>>| p(rows[k]))
}

/// How many rows match `p`.
pub(crate) fn count<V, K: Fn(&V) -> bool>(
    rows: &Table<V>,
    keep: K,
    Ghost(p): Ghost<spec_fn(V) -> bool>,
) -> (r: usize)
    requires
        rows.wf(),
        forall|v: &V| #[trigger] keep.requires((v,)),
        forall|v: &V, b: bool| #[trigger] keep.ensures((v,), b) ==> b == p(*v),
    ensures
        matching(rows@, p).finite(),
        r == matching(rows@, p).len(),
{
    let mut n: usize = 0;
    let ghost mut seen: Set<Seq<Seq<char>>> = Set::empty();
    let ghost keys = rows.order();
    let mut i: usize = 0;
    while i < rows.values.len()
        invariant
            rows.wf(),
            keys == rows.order(),
            forall|v: &V| #[trigger] keep.requires((v,)),
            forall|v: &V, b: bool| #[trigger] keep.ensures((v,), b) ==> b == p(*v),
            i <= rows.values@.len(),
            n <= i,
            seen.finite(),
            seen.len() == n,
            forall|k: Seq<Seq<char>>| #[trigger]
                seen.contains(k) <==> (exists|x: int|
                    0 <= x < i && #[trigger] keys[x] == k && p(rows.values@[x])),
        decreases rows.values@.len() - i,
    {
        let ghost was = seen;
        if keep(&rows.values[i]) {
            n += 1;
            proof {
                let k = keys[i as int];
                if seen.contains(k) {
                    let x = choose|x: int|
                        0 <= x < i && #[trigger] keys[x] == k && p(rows.values@[x]);
                    table::lemma_sorted_unique(keys);
                    assert(keys[x] != keys[i as int]);
                }
                seen = seen.insert(k);
            }
        }
        proof {
            assert forall|k: Seq<Seq<char>>| #[trigger] seen.contains(k) <==> (exists|x: int|
                0 <= x < i + 1 && #[trigger] keys[x] == k && p(rows.values@[x])) by {
                if seen.contains(k) {
                    if was.contains(k) {
                        let x = choose|x: int|
                            0 <= x < i && #[trigger] keys[x] == k && p(rows.values@[x]);
                        assert(keys[x] == k);
                    } else {
                        assert(keys[i as int] == k);
                    }
                }
                if exists|x: int| 0 <= x < i + 1 && #[trigger] keys[x] == k && p(rows.values@[x]) {
                    let x = choose|x: int|
                        0 <= x < i + 1 && #[trigger] keys[x] == k && p(rows.values@[x]);
                    if x < i {
                        assert(was.contains(k));
                    }
                }
            }
        }
        i += 1;
    }
    proof {
        assert forall|k: Seq<Seq<char>>| seen.contains(k) <==> #[trigger] matching(
            rows@,
            p,
        ).contains(k) by {
            if seen.contains(k) {
                let x = choose|x: int|
                    0 <= x < i && #[trigger] keys[x] == k && p(rows.values@[x]);
                table::lemma_row_at(keys, rows.values@, x);
            }
            if matching(rows@, p).contains(k) {
                let x = choose|x: int| 0 <= x < keys.len() && keys[x] == k;
                table::lemma_row_at(keys, rows.values@, x);
                assert(keys[x] == k && p(rows.values@[x]));
            }
        }
        assert(seen =~= matching(rows@, p));
    }
    n
}

/// The rows that are kept.
pub open spec fn kept<V>(rows: Rows<V>, p: spec_fn(V) -> bool) -> Rows<V> {
    Map::new(|k: Seq<Seq<char>>| rows.contains_key(k) && p(rows[k]), |k: Seq<Seq<char>>| rows[k])
}

/// Drop the rows that do not match `p`. Returns how many went.
pub(crate) fn retain<V, K: Fn(&V) -> bool>(
    rows: &mut Table<V>,
    keep: K,
    Ghost(p): Ghost<spec_fn(V) -> bool>,
) -> (r: usize)
    requires
        old(rows).wf(),
        forall|v: &V| #[trigger] keep.requires((v,)),
        forall|v: &V, b: bool| #[trigger] keep.ensures((v,), b) ==> b == p(*v),
    ensures
        final(rows).wf(),
        final(rows)@ == kept(old(rows)@, p),
        r == old(rows)@.dom().len() - final(rows)@.dom().len(),
{
    let before: usize = rows.len();
    let mut i: usize = 0;
    while i < rows.values.len()
        invariant
            rows.wf(),
            forall|v: &V| #[trigger] keep.requires((v,)),
            forall|v: &V, b: bool| #[trigger] keep.ensures((v,), b) ==> b == p(*v),
            i <= rows.values@.len() <= before,
            before == old(rows)@.dom().len(),
            forall|x: int| 0 <= x < i ==> p(#[trigger] rows.values@[x]),
            forall|k: Seq<Seq<char>>| #[trigger]
                rows@.contains_key(k) ==> old(rows)@.contains_key(k) && rows@[k] == old(rows)@[k],
            forall|k: Seq<Seq<char>>| #[trigger]
                old(rows)@.contains_key(k) && p(old(rows)@[k]) ==> rows@.contains_key(k),
        decreases rows.values@.len() - i,
    {
        if keep(&rows.values[i]) {
            i += 1;
        } else {
            proof {
                table::lemma_row_at(rows.order(), rows.values@, i as int);
                assert(rows@.contains_key(rows.order()[i as int]));
            }
            let _dropped = rows.remove_at(i);
        }
    }
    proof {
        assert forall|k: Seq<Seq<char>>| rows@.contains_key(k) implies p(#[trigger] rows@[k]) by {
            let x = choose|x: int| 0 <= x < rows.order().len() && rows.order()[x] == k;
            table::lemma_row_at(rows.order(), rows.values@, x);
        }
        assert(rows@ =~= kept(old(rows)@, p));
        rows.lemma_len();
    }
    before - rows.values.len()
}

/// Two tables of the same keys whose rows are related place by place are
/// related key by key.
pub proof fn lemma_related<V>(a: Table<V>, b: Table<V>, rel: spec_fn(V, V) -> bool)
    requires
        a.wf(),
        b.wf(),
        a.order() == b.order(),
        forall|x: int| 0 <= x < a.values@.len() ==> rel(#[trigger] a.values@[x], b.values@[x]),
    ensures
        a@.dom() == b@.dom(),
        forall|k: Seq<Seq<char>>| #[trigger] a@.contains_key(k) ==> rel(a@[k], b@[k]),
{
    assert(a@.dom() =~= b@.dom());
    assert forall|k: Seq<Seq<char>>| #[trigger] a@.contains_key(k) implies rel(a@[k], b@[k]) by {
        let x = choose|x: int| 0 <= x < a.order().len() && a.order()[x] == k;
        table::lemma_row_at(a.order(), a.values@, x);
        table::lemma_row_at(b.order(), b.values@, x);
        assert(rel(a.values@[x], b.values@[x]));
    }
}

/// Every matching row is changed as `rel` says, every other row stays.
pub open spec fn rewritten<V>(
    old: Rows<V>,
    new: Rows<V>,
    p: spec_fn(V) -> bool,
    rel: spec_fn(V, V) -> bool,
) -> bool {
    &&& new.dom() == old.dom()
    &&& forall|k: Seq<Seq<char>>| #[trigger]
        old.contains_key(k) ==> if p(old[k]) {
            rel(old[k], new[k])
        } else {
            new[k] == old[k]
        }
}

/// The keys of a set, each once, in ascending order.
pub open spec fn in_key_order(keys: Seq<Seq<Seq<char>>>, set: Set<Seq<Seq<char>>>) -> bool {
    &&& table::sorted(keys)
    &&& forall|k: Seq<Seq<char>>| keys.contains(k) <==> #[trigger] set.contains(k)
}

/// The keys at some positions of a table.
pub open spec fn keys_at(order: Seq<Seq<Seq<char>>>, at: Seq<usize>) -> Seq<Seq<Seq<char>>> {
    at.map_values(|i: usize| order[i as int])
}

/// Change the rows for which `change` has another one. Returns their
/// positions, ascending.
pub(crate) fn rewrite<V, F: Fn(&V) -> Option<V>>(
    rows: &mut Table<V>,
    change: F,
    Ghost(p): Ghost<spec_fn(V) -> bool>,
    Ghost(rel): Ghost<spec_fn(V, V) -> bool>,
) -> (r: Vec<usize>)
    requires
        old(rows).wf(),
        forall|x: int|
            0 <= x < old(rows).values@.len() ==> change.requires((&#[trigger] old(rows).values@[x],)),
        forall|v: &V, o: Option<V>| #[trigger]
            change.ensures((v,), o) ==> match o {
                Some(w) => p(*v) && rel(*v, w),
                None => !p(*v),
            },
    ensures
        final(rows).wf(),
        final(rows).order() == old(rows).order(),
        rewritten(old(rows)@, final(rows)@, p, rel),
        forall|i: int| 0 <= i < r@.len() ==> #[trigger] r@[i] < final(rows).values@.len(),
        in_key_order(keys_at(old(rows).order(), r@), matching(old(rows)@, p)),
        r@.len() == matching(old(rows)@, p).len(),
{
    let ghost was = *rows;
    let mut at: Vec<usize> = Vec::new();
    let mut i: usize = 0;
    while i < rows.values.len()
        invariant
            was.wf(),
            rows.wf(),
            rows.order() == was.order(),
            rows.values@.len() == was.values@.len(),
            forall|x: int|
                0 <= x < was.values@.len() ==> change.requires((&#[trigger] was.values@[x],)),
            forall|v: &V, o: Option<V>| #[trigger]
                change.ensures((v,), o) ==> match o {
                    Some(w) => p(*v) && rel(*v, w),
                    None => !p(*v),
                },
            i <= rows.values@.len(),
            forall|x: int| i <= x < rows.values@.len() ==> #[trigger] rows.values@[x] == was.values@[x],
            forall|x: int|
                0 <= x < i ==> if p(#[trigger] was.values@[x]) {
                    rel(was.values@[x], rows.values@[x])
                } else {
                    rows.values@[x] == was.values@[x]
                },
            forall|j: int| 0 <= j < at@.len() ==> #[trigger] at@[j] < i && p(was.values@[at@[j] as int]),
            forall|a: int, b: int| 0 <= a < b < at@.len() ==> #[trigger] at@[a] < #[trigger] at@[b],
            forall|x: int|
                0 <= x < i && p(#[trigger] was.values@[x]) ==> exists|j: int|
                    0 <= j < at@.len() && #[trigger] at@[j] == x,
        decreases rows.values@.len() - i,
    {
        let ghost found = at@;
        assert(rows.values@[i as int] == was.values@[i as int]);
        match change(&rows.values[i]) {
            Some(row) => {
                rows.replace_at(i, row);
                at.push(i);
            },
            None => {},
        }
        proof {
            assert forall|x: int| 0 <= x < i + 1 && p(#[trigger] was.values@[x]) implies exists|j: int|
                0 <= j < at@.len() && #[trigger] at@[j] == x by {
                if x < i {
                    let j = choose|j: int| 0 <= j < found.len() && #[trigger] found[j] == x;
                    assert(at@[j] == x);
                } else {
                    assert(at@[at@.len() - 1] == x);
                }
            }
        }
        i += 1;
    }
    proof {
        let keys = was.order();
        let picked = keys_at(keys, at@);
        let both = |a: V, b: V|
            if p(a) {
                rel(a, b)
            } else {
                b == a
            };
        lemma_related(was, *rows, both);
        assert forall|k: Seq<Seq<char>>| #[trigger] was@.contains_key(k) implies if p(was@[k]) {
            rel(was@[k], rows@[k])
        } else {
            rows@[k] == was@[k]
        } by {
            assert(both(was@[k], rows@[k]));
        }
        assert forall|k: Seq<Seq<char>>| picked.contains(k) <==> #[trigger] matching(was@, p).contains(
            k,
        ) by {
            if picked.contains(k) {
                let j = choose|j: int| 0 <= j < picked.len() && picked[j] == k;
                table::lemma_row_at(keys, was.values@, at@[j] as int);
            }
            if matching(was@, p).contains(k) {
                let x = choose|x: int| 0 <= x < keys.len() && keys[x] == k;
                table::lemma_row_at(keys, was.values@, x);
                let j = choose|j: int| 0 <= j < at@.len() && #[trigger] at@[j] == x;
                assert(picked[j] == k);
            }
        }
        table::lemma_sorted_unique(picked);
        picked.unique_seq_to_set();
        assert(picked.to_set() =~= matching(was@, p));
    }
    at
}

/// A row is listed exactly where it matches, and each row before those that
/// follow it in the order.
pub proof fn law_a_list_holds_what_matches<V>(
    list: Seq<&V>,
    rows: Rows<V>,
    p: spec_fn(V) -> bool,
    lt: spec_fn(V, V) -> bool,
    v: V,
)
    requires
        lists(list, rows, p, lt),
    ensures
        (exists|i: int| 0 <= i < list.len() && *#[trigger] list[i] == v) <==> p(v) && exists|
            k: Seq<Seq<char>>,
        |
            rows.contains_key(k) && #[trigger] rows[k] == v,
        forall|i: int, j: int|
            0 <= i < j < list.len() ==> lt(*#[trigger] list[i], *#[trigger] list[j]),
{
}

} // verus!
