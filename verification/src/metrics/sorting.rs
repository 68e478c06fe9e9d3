//! Stable sorting and totals.

use vstd::prelude::*;

verus! {

/// `x` put into an ascending list, behind everything it does not come before.
pub open spec fn placed<T>(s: Seq<T>, x: T, lt: spec_fn(T, T) -> bool) -> Seq<T>
    decreases s.len(),
{
    if s.len() > 0 && lt(x, s.last()) {
        placed(s.drop_last(), x, lt).push(s.last())
    } else {
        s.push(x)
    }
}

/// The list in ascending order; what is equal keeps its order.
pub open spec fn stable<T>(s: Seq<T>, lt: spec_fn(T, T) -> bool) -> Seq<T>
    decreases s.len(),
{
    if s.len() == 0 {
        s
    } else {
        placed(stable(s.drop_last(), lt), s.last(), lt)
    }
}

proof fn lemma_placed_at<T>(s: Seq<T>, x: T, lt: spec_fn(T, T) -> bool, at: int)
    requires
        0 <= at <= s.len(),
        forall|j: int| at <= j < s.len() ==> lt(x, #[trigger] s[j]),
        at > 0 ==> !lt(x, s[at - 1]),
    ensures
        placed(s, x, lt) == s.insert(at, x),
    decreases s.len(),
{
    if at == s.len() {
        assert(s.insert(at, x) =~= s.push(x));
    } else {
        assert(lt(x, s.last()));
        let t = s.drop_last();
        assert forall|j: int| at <= j < t.len() implies lt(x, #[trigger] t[j]) by {
            assert(t[j] == s[j]);
        }
        lemma_placed_at(t, x, lt, at);
        assert(t.insert(at, x).push(s.last()) =~= s.insert(at, x));
    }
}

/// Sort a list; what is equal keeps its order.
pub(crate) fn sort<T: Copy, B: Fn(T, T) -> bool>(
    list: &Vec<T>,
    before: B,
    Ghost(lt): Ghost<spec_fn(T, T) -> bool>,
) -> (r: Vec<T>)
    requires
        forall|a: T, b: T| #[trigger] before.requires((a, b)),
        forall|a: T, b: T, c: bool| #[trigger] before.ensures((a, b), c) ==> c == lt(a, b),
    ensures
        r@ == stable(list@, lt),
{
    let mut out: Vec<T> = Vec::new();
    let mut i: usize = 0;
    while i < list.len()
        invariant
            forall|a: T, b: T| #[trigger] before.requires((a, b)),
            forall|a: T, b: T, c: bool| #[trigger] before.ensures((a, b), c) ==> c == lt(a, b),
            i <= list@.len(),
            out@ == stable(list@.take(i as int), lt),
        decreases list@.len() - i,
    {
        let x = list[i];
        let mut at: usize = out.len();
        while at > 0 && before(x, out[at - 1])
            invariant
                forall|a: T, b: T| #[trigger] before.requires((a, b)),
                forall|a: T, b: T, c: bool| #[trigger] before.ensures((a, b), c) ==> c == lt(a, b),
                at <= out@.len(),
                forall|j: int| at <= j < out@.len() ==> lt(x, #[trigger] out@[j]),
            decreases at,
        {
            at -= 1;
        }
        proof {
            lemma_placed_at(out@, x, lt, at as int);
            let next = list@.take(i as int + 1);
            assert(next.drop_last() =~= list@.take(i as int));
            assert(next.last() == x);
        }
        out.insert(at, x);
        i += 1;
    }
    proof {
        assert(list@.take(i as int) =~= list@);
    }
    out
}

/// The sum of a number over a list.
pub open spec fn total<T>(s: Seq<T>, f: spec_fn(T) -> nat) -> nat
    decreases s.len(),
{
    if s.len() == 0 {
        0
    } else {
        total(s.drop_last(), f) + f(s.last())
    }
}

/// Sorting keeps what is in the list.
pub proof fn lemma_stable_total<T>(s: Seq<T>, lt: spec_fn(T, T) -> bool, f: spec_fn(T) -> nat)
    ensures
        stable(s, lt).len() == s.len(),
        total(stable(s, lt), f) == total(s, f),
    decreases s.len(),
{
    if s.len() > 0 {
        lemma_stable_total(s.drop_last(), lt, f);
        lemma_placed_total(stable(s.drop_last(), lt), s.last(), lt, f);
    }
}

proof fn lemma_placed_total<T>(s: Seq<T>, x: T, lt: spec_fn(T, T) -> bool, f: spec_fn(T) -> nat)
    ensures
        placed(s, x, lt).len() == s.len() + 1,
        total(placed(s, x, lt), f) == total(s, f) + f(x),
    decreases s.len(),
{
    if s.len() > 0 && lt(x, s.last()) {
        lemma_placed_total(s.drop_last(), x, lt, f);
        let p = placed(s.drop_last(), x, lt);
        assert(p.push(s.last()).drop_last() =~= p);
    } else {
        assert(s.push(x).drop_last() =~= s);
    }
}

/// A list and what comes after it add up.
pub proof fn lemma_total_concat<T>(a: Seq<T>, b: Seq<T>, f: spec_fn(T) -> nat)
    ensures
        total(a + b, f) == total(a, f) + total(b, f),
    decreases b.len(),
{
    if b.len() == 0 {
        assert(a + b =~= a);
    } else {
        lemma_total_concat(a, b.drop_last(), f);
        assert((a + b).drop_last() =~= a + b.drop_last());
    }
}

/// `lt` is an order in which any two elements that are not before each other
/// are equal to it.
pub open spec fn is_order<T>(lt: spec_fn(T, T) -> bool) -> bool {
    &&& forall|a: T, b: T| #[trigger] lt(a, b) ==> !lt(b, a)
    &&& forall|a: T, b: T, c: T| !#[trigger] lt(b, a) && !#[trigger] lt(c, b) ==> !lt(c, a)
}

/// No element comes before one that is ahead of it.
pub open spec fn ascends<T>(s: Seq<T>, lt: spec_fn(T, T) -> bool) -> bool {
    forall|i: int, j: int| 0 <= i < j < s.len() ==> !lt(#[trigger] s[j], #[trigger] s[i])
}

/// Sorting puts a list in order.
pub proof fn lemma_stable_ascends<T>(s: Seq<T>, lt: spec_fn(T, T) -> bool)
    requires
        is_order(lt),
    ensures
        ascends(stable(s, lt), lt),
    decreases s.len(),
{
    if s.len() > 0 {
        lemma_stable_ascends(s.drop_last(), lt);
        lemma_placed_ascends(stable(s.drop_last(), lt), s.last(), lt);
    }
}

proof fn lemma_placed_ascends<T>(s: Seq<T>, x: T, lt: spec_fn(T, T) -> bool)
    requires
        is_order(lt),
        ascends(s, lt),
    ensures
        ascends(placed(s, x, lt), lt),
        placed(s, x, lt).len() == s.len() + 1,
        forall|j: int|
            0 <= j < placed(s, x, lt).len() ==> (#[trigger] placed(s, x, lt)[j] == x || s.contains(
                placed(s, x, lt)[j],
            )),
    decreases s.len(),
{
    if s.len() > 0 && lt(x, s.last()) {
        let t = s.drop_last();
        let p = placed(t, x, lt);
        lemma_placed_ascends(t, x, lt);
        let r = p.push(s.last());
        assert forall|j: int| 0 <= j < r.len() implies (#[trigger] r[j] == x || s.contains(r[j])) by {
            if j < p.len() {
                assert(r[j] == p[j]);
                if r[j] != x {
                    let k = choose|k: int| 0 <= k < t.len() && t[k] == r[j];
                    assert(s[k] == r[j]);
                }
            } else {
                assert(s[s.len() - 1] == r[j]);
            }
        }
        assert forall|i: int, j: int| 0 <= i < j < r.len() implies !lt(
            #[trigger] r[j],
            #[trigger] r[i],
        ) by {
            if j < p.len() {
                assert(r[i] == p[i] && r[j] == p[j]);
            } else {
                assert(r[i] == p[i]);
                if p[i] != x {
                    let k = choose|k: int| 0 <= k < t.len() && t[k] == p[i];
                    assert(s[k] == p[i]);
                    assert(!lt(s[s.len() - 1], s[k]));
                }
            }
        }
    } else {
        let r = s.push(x);
        assert forall|i: int, j: int| 0 <= i < j < r.len() implies !lt(
            #[trigger] r[j],
            #[trigger] r[i],
        ) by {
            if j < s.len() {
                assert(r[i] == s[i] && r[j] == s[j]);
            } else if i < s.len() - 1 {
                assert(!lt(s[s.len() - 1], s[i]));
                assert(!lt(x, s[s.len() - 1]));
            }
        }
        assert forall|j: int| 0 <= j < r.len() implies (#[trigger] r[j] == x || s.contains(r[j])) by {
            if j < s.len() {
                assert(s[j] == r[j]);
            }
        }
    }
}

/// Any two elements of the list stand in the relation.
pub open spec fn pairwise<T>(s: Seq<T>, p: spec_fn(T, T) -> bool) -> bool {
    forall|i: int, j: int|
        0 <= i < s.len() && 0 <= j < s.len() && i != j ==> p(#[trigger] s[i], #[trigger] s[j])
}

/// What any two elements have to do with each other does not depend on their
/// order, and what every element has is kept.
pub proof fn lemma_stable_pairs<T>(
    s: Seq<T>,
    lt: spec_fn(T, T) -> bool,
    p: spec_fn(T, T) -> bool,
    q: spec_fn(T) -> bool,
)
    requires
        pairwise(s, p),
        forall|i: int| 0 <= i < s.len() ==> q(#[trigger] s[i]),
    ensures
        stable(s, lt).len() == s.len(),
        pairwise(stable(s, lt), p),
        forall|i: int| 0 <= i < s.len() ==> q(#[trigger] stable(s, lt)[i]),
    decreases s.len(),
{
    if s.len() > 0 {
        let t = s.drop_last();
        let x = s.last();
        assert(x == s[s.len() - 1]);
        assert forall|i: int| 0 <= i < t.len() implies p(#[trigger] t[i], x) && p(x, t[i]) && q(t[i]) by {
            assert(t[i] == s[i]);
        }
        lemma_stable_pairs(t, lt, p, |y: T| p(y, x) && p(x, y) && q(y));
        let sorted = stable(t, lt);
        assert forall|i: int| 0 <= i < sorted.len() implies p(#[trigger] sorted[i], x) && p(
            x,
            sorted[i],
        ) && q(sorted[i]) by {
            let h = |y: T| p(y, x) && p(x, y) && q(y);
            assert(h(sorted[i]));
        }
        lemma_placed_pairs(sorted, x, lt, p, q);
    }
}

/// Sorting keeps every element, as often as it occurs.
pub proof fn lemma_stable_multiset<T>(s: Seq<T>, lt: spec_fn(T, T) -> bool)
    ensures
        stable(s, lt).to_multiset() == s.to_multiset(),
    decreases s.len(),
{
    if s.len() > 0 {
        broadcast use vstd::seq_lib::group_to_multiset_ensures;

        let t = s.drop_last();
        let sorted = stable(t, lt);
        lemma_stable_multiset(t, lt);
        lemma_place_of(sorted, s.last(), lt);
        assert(t.push(s.last()) =~= s);
        assert(stable(s, lt) == sorted.insert(place_of(sorted, s.last(), lt), s.last()));
    }
}

proof fn lemma_placed_pairs<T>(
    s: Seq<T>,
    x: T,
    lt: spec_fn(T, T) -> bool,
    p: spec_fn(T, T) -> bool,
    q: spec_fn(T) -> bool,
)
    requires
        pairwise(s, p),
        q(x),
        forall|i: int| 0 <= i < s.len() ==> p(#[trigger] s[i], x) && p(x, s[i]) && q(s[i]),
    ensures
        placed(s, x, lt).len() == s.len() + 1,
        pairwise(placed(s, x, lt), p),
        forall|i: int| 0 <= i < s.len() + 1 ==> q(#[trigger] placed(s, x, lt)[i]),
    decreases s.len(),
{
    let at = place_of(s, x, lt);
    lemma_place_of(s, x, lt);
    let r = s.insert(at, x);
    assert forall|i: int, j: int|
        0 <= i < r.len() && 0 <= j < r.len() && i != j implies p(#[trigger] r[i], #[trigger] r[j]) by {
        let a = if i < at {
            i
        } else {
            i - 1
        };
        let b = if j < at {
            j
        } else {
            j - 1
        };
        if i != at {
            assert(r[i] == s[a]);
        }
        if j != at {
            assert(r[j] == s[b]);
        }
    }
    assert forall|i: int| 0 <= i < r.len() implies q(#[trigger] r[i]) by {
        if i < at {
            assert(r[i] == s[i]);
        } else if i > at {
            assert(r[i] == s[i - 1]);
        }
    }
}

/// Where `x` is put.
spec fn place_of<T>(s: Seq<T>, x: T, lt: spec_fn(T, T) -> bool) -> int
    decreases s.len(),
{
    if s.len() > 0 && lt(x, s.last()) {
        place_of(s.drop_last(), x, lt)
    } else {
        s.len() as int
    }
}

proof fn lemma_place_of<T>(s: Seq<T>, x: T, lt: spec_fn(T, T) -> bool)
    ensures
        0 <= place_of(s, x, lt) <= s.len(),
        placed(s, x, lt) == s.insert(place_of(s, x, lt), x),
    decreases s.len(),
{
    if s.len() > 0 && lt(x, s.last()) {
        lemma_place_of(s.drop_last(), x, lt);
        let at = place_of(s, x, lt);
        assert(s.drop_last().insert(at, x).push(s.last()) =~= s.insert(at, x));
    } else {
        assert(s.push(x) =~= s.insert(s.len() as int, x));
    }
}

} // verus!
