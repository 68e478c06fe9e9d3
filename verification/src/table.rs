//! An ordered map from composite text keys to rows.
//!
//! Rows are kept in a vector sorted by key, so walking the table visits the
//! keys in ascending order.

use vstd::prelude::*;

use crate::text;

verus! {

/// A key of one or more texts.
pub struct Key {
    pub parts: Vec<String>,
}

/// The parts of a key.
pub open spec fn parts_view(parts: Seq<String>) -> Seq<Seq<char>> {
    Seq::new(parts.len(), |i: int| parts[i]@)
}

impl View for Key {
    type V = Seq<Seq<char>>;

    open spec fn view(&self) -> Seq<Seq<char>> {
        parts_view(self.parts@)
    }
}

/// Key of one text.
pub open spec fn k1(a: Seq<char>) -> Seq<Seq<char>> {
    seq![a]
}

/// Key of two texts.
pub open spec fn k2(a: Seq<char>, b: Seq<char>) -> Seq<Seq<char>> {
    seq![a, b]
}

/// Key of three texts.
pub open spec fn k3(a: Seq<char>, b: Seq<char>, c: Seq<char>) -> Seq<Seq<char>> {
    seq![a, b, c]
}

/// Keys of one text are the same exactly when the texts are.
pub proof fn lemma_k1(a: Seq<char>, b: Seq<char>)
    ensures
        (k1(a) == k1(b)) == (a == b),
{
    assert(k1(a)[0] == a && k1(b)[0] == b);
}

/// Keys of two texts are the same exactly when both texts are.
pub proof fn lemma_k2(a: Seq<char>, b: Seq<char>, c: Seq<char>, d: Seq<char>)
    ensures
        (k2(a, b) == k2(c, d)) == (a == c && b == d),
{
    assert(k2(a, b)[0] == a && k2(a, b)[1] == b);
    assert(k2(c, d)[0] == c && k2(c, d)[1] == d);
}

/// Keys of three texts are the same exactly when all texts are.
pub proof fn lemma_k3(
    a: Seq<char>,
    b: Seq<char>,
    c: Seq<char>,
    d: Seq<char>,
    e: Seq<char>,
    f: Seq<char>,
)
    ensures
        (k3(a, b, c) == k3(d, e, f)) == (a == d && b == e && c == f),
{
    assert(k3(a, b, c)[0] == a && k3(a, b, c)[1] == b && k3(a, b, c)[2] == c);
    assert(k3(d, e, f)[0] == d && k3(d, e, f)[1] == e && k3(d, e, f)[2] == f);
}

impl Key {
    /// Key of one text.
    pub fn one(a: &str) -> (r: Key)
        ensures
            r@ == k1(a@),
    {
        let mut parts: Vec<String> = Vec::new();
        parts.push(text::owned(a));
        let r = Key { parts };
        assert(r@ =~= k1(a@));
        r
    }

    /// Key of two texts.
    pub fn two(a: &str, b: &str) -> (r: Key)
        ensures
            r@ == k2(a@, b@),
    {
        let mut parts: Vec<String> = Vec::new();
        parts.push(text::owned(a));
        parts.push(text::owned(b));
        let r = Key { parts };
        assert(r@ =~= k2(a@, b@));
        r
    }

    /// Key of three texts.
    pub fn three(a: &str, b: &str, c: &str) -> (r: Key)
        ensures
            r@ == k3(a@, b@, c@),
    {
        let mut parts: Vec<String> = Vec::new();
        parts.push(text::owned(a));
        parts.push(text::owned(b));
        parts.push(text::owned(c));
        let r = Key { parts };
        assert(r@ =~= k3(a@, b@, c@));
        r
    }

    /// The same key again.
    pub fn copy(&self) -> (r: Key)
        ensures
            r@ == self@,
    {
        let mut parts: Vec<String> = Vec::new();
        let mut i: usize = 0;
        while i < self.parts.len()
            invariant
                i <= self.parts@.len(),
                parts@.len() == i,
                forall|j: int| 0 <= j < i ==> parts@[j]@ == self.parts@[j]@,
            decreases self.parts@.len() - i,
        {
            parts.push(self.parts[i].clone());
            i += 1;
        }
        let r = Key { parts };
        assert(r@ =~= self@);
        r
    }

    /// Whether two keys are the same.
    pub fn same(&self, other: &Key) -> (r: bool)
        ensures
            r == (self@ == other@),
    {
        if self.parts.len() != other.parts.len() {
            assert(self@.len() != other@.len());
            return false;
        }
        let mut i: usize = 0;
        while i < self.parts.len()
            invariant
                i <= self.parts.len(),
                self.parts.len() == other.parts.len(),
                forall|j: int| 0 <= j < i ==> self@[j] == other@[j],
            decreases self.parts.len() - i,
        {
            if !text::same_text(self.parts[i].as_str(), other.parts[i].as_str()) {
                assert(self@[i as int] != other@[i as int]);
                return false;
            }
            i += 1;
        }
        assert(self@ =~= other@);
        true
    }

    /// Whether this key comes before `other`.
    pub fn before(&self, other: &Key) -> (r: bool)
        ensures
            r == key_lt(self@, other@),
    {
        let mut i: usize = 0;
        assert(self@.skip(0) =~= self@);
        assert(other@.skip(0) =~= other@);
        loop
            invariant
                i <= self.parts.len(),
                i <= other.parts.len(),
                key_lt(self@, other@) == key_lt(self@.skip(i as int), other@.skip(i as int)),
            decreases self.parts.len() - i,
        {
            if i == other.parts.len() {
                return false;
            }
            if i == self.parts.len() {
                return true;
            }
            assert(self@.skip(i as int).drop_first() =~= self@.skip(i + 1));
            assert(other@.skip(i as int).drop_first() =~= other@.skip(i + 1));
            assert(self@.skip(i as int)[0] == self.parts@[i as int]@);
            assert(other@.skip(i as int)[0] == other.parts@[i as int]@);
            if !text::same_text(self.parts[i].as_str(), other.parts[i].as_str()) {
                return text::text_before(self.parts[i].as_str(), other.parts[i].as_str());
            }
            i += 1;
        }
    }
}

/// The order of keys: part by part.
pub open spec fn key_lt(a: Seq<Seq<char>>, b: Seq<Seq<char>>) -> bool
    decreases a.len(),
{
    if b.len() == 0 {
        false
    } else if a.len() == 0 {
        true
    } else if a[0] == b[0] {
        key_lt(a.drop_first(), b.drop_first())
    } else {
        text::text_lt(a[0], b[0])
    }
}

proof fn lemma_key_irreflexive(a: Seq<Seq<char>>)
    ensures
        !key_lt(a, a),
    decreases a.len(),
{
    if a.len() > 0 {
        lemma_key_irreflexive(a.drop_first());
    }
}

proof fn lemma_key_transitive(a: Seq<Seq<char>>, b: Seq<Seq<char>>, c: Seq<Seq<char>>)
    requires
        key_lt(a, b),
        key_lt(b, c),
    ensures
        key_lt(a, c),
    decreases a.len(),
{
    if a.len() > 0 && b.len() > 0 && c.len() > 0 {
        text::lemma_text_order(a[0], b[0], c[0]);
        text::lemma_text_order(b[0], c[0], a[0]);
        if a[0] == b[0] && b[0] == c[0] {
            lemma_key_transitive(a.drop_first(), b.drop_first(), c.drop_first());
        }
    }
}

proof fn lemma_key_total(a: Seq<Seq<char>>, b: Seq<Seq<char>>)
    ensures
        a == b || key_lt(a, b) || key_lt(b, a),
    decreases a.len(),
{
    if a.len() > 0 && b.len() > 0 {
        text::lemma_text_order(a[0], b[0], b[0]);
        if a[0] == b[0] {
            lemma_key_total(a.drop_first(), b.drop_first());
            if a.drop_first() == b.drop_first() {
                assert(a =~= seq![a[0]] + a.drop_first());
                assert(b =~= seq![b[0]] + b.drop_first());
            }
        }
    } else if a.len() == 0 && b.len() == 0 {
        assert(a =~= b);
    }
}

/// The order of keys is a strict total order.
pub proof fn lemma_key_order(a: Seq<Seq<char>>, b: Seq<Seq<char>>, c: Seq<Seq<char>>)
    ensures
        !key_lt(a, a),
        key_lt(a, b) && key_lt(b, c) ==> key_lt(a, c),
        a == b || key_lt(a, b) || key_lt(b, a),
        !(key_lt(a, b) && key_lt(b, a)),
{
    lemma_key_irreflexive(a);
    if key_lt(a, b) && key_lt(b, c) {
        lemma_key_transitive(a, b, c);
    }
    lemma_key_total(a, b);
    if key_lt(a, b) && key_lt(b, a) {
        lemma_key_transitive(a, b, a);
    }
}

/// Sorted keys are all different.
pub proof fn lemma_sorted_unique(keys: Seq<Seq<Seq<char>>>)
    requires
        sorted(keys),
    ensures
        keys.no_duplicates(),
{
    assert forall|i: int, j: int| 0 <= i < keys.len() && 0 <= j < keys.len() && i != j implies keys[i] != keys[j] by {
        lemma_key_order(keys[i], keys[j], keys[i]);
        if i < j {
            assert(key_lt(keys[i], keys[j]));
        } else {
            assert(key_lt(keys[j], keys[i]));
        }
    }
}

/// An ordered map from keys to rows.
pub struct Table<V> {
    pub keys: Vec<Key>,
    pub values: Vec<V>,
}

/// The keys of a table, in order.
pub open spec fn keys_view(keys: Seq<Key>) -> Seq<Seq<Seq<char>>> {
    Seq::new(keys.len(), |i: int| keys[i]@)
}

/// Strictly ascending keys.
pub open spec fn sorted(keys: Seq<Seq<Seq<char>>>) -> bool {
    forall|i: int, j: int| 0 <= i < j < keys.len() ==> key_lt(#[trigger] keys[i], #[trigger] keys[j])
}

/// The rows by key.
pub open spec fn rows_map<V>(keys: Seq<Seq<Seq<char>>>, values: Seq<V>) -> Map<Seq<Seq<char>>, V> {
    Map::new(
        |k: Seq<Seq<char>>| keys.contains(k),
        |k: Seq<Seq<char>>| values[choose|i: int| 0 <= i < keys.len() && keys[i] == k],
    )
}

impl<V> View for Table<V> {
    type V = Map<Seq<Seq<char>>, V>;

    open spec fn view(&self) -> Map<Seq<Seq<char>>, V> {
        rows_map(self.order(), self.values@)
    }
}

/// In a sorted table each position holds the row of its key.
pub proof fn lemma_row_at<V>(keys: Seq<Seq<Seq<char>>>, values: Seq<V>, i: int)
    requires
        sorted(keys),
        0 <= i < keys.len(),
    ensures
        rows_map(keys, values).contains_key(keys[i]),
        rows_map(keys, values)[keys[i]] == values[i],
{
    let j = choose|j: int| 0 <= j < keys.len() && keys[j] == keys[i];
    assert(0 <= i < keys.len() && keys[i] == keys[i]);
    if j != i {
        lemma_key_order(keys[i], keys[j], keys[i]);
        if i < j {
            assert(key_lt(keys[i], keys[j]));
        } else {
            assert(key_lt(keys[j], keys[i]));
        }
    }
}

impl<V> Table<V> {
    /// The keys, in ascending order.
    pub open spec fn order(&self) -> Seq<Seq<Seq<char>>> {
        keys_view(self.keys@)
    }

    /// One row per key, keys strictly ascending.
    pub open spec fn wf(&self) -> bool {
        &&& self.keys@.len() == self.values@.len()
        &&& sorted(self.order())
    }

    /// The empty table.
    pub fn new() -> (r: Table<V>)
        ensures
            r.wf(),
            r@ == Map::<Seq<Seq<char>>, V>::empty(),
            r.values@.len() == 0,
    {
        let r = Table { keys: Vec::new(), values: Vec::new() };
        assert(r@ =~= Map::<Seq<Seq<char>>, V>::empty());
        r
    }

    /// A table has as many rows as keys.
    pub proof fn lemma_len(&self)
        requires
            self.wf(),
        ensures
            self@.dom().finite(),
            self@.dom().len() == self.values@.len(),
    {
        lemma_sorted_unique(self.order());
        self.order().unique_seq_to_set();
        vstd::seq_lib::seq_to_set_is_finite(self.order());
        assert(self@.dom() =~= self.order().to_set());
    }

    /// Number of rows.
    pub fn len(&self) -> (r: usize)
        requires
            self.wf(),
        ensures
            r == self.values@.len(),
            r == self@.dom().len(),
    {
        proof {
            self.lemma_len();
        }
        self.values.len()
    }

    /// First position whose key is not before `key`.
    fn lower_bound(&self, key: &Key) -> (r: usize)
        requires
            self.wf(),
        ensures
            r <= self.keys@.len(),
            forall|i: int| 0 <= i < r ==> key_lt(#[trigger] self.order()[i], key@),
            forall|i: int| r <= i < self.order().len() ==> !key_lt(#[trigger] self.order()[i], key@),
    {
        let mut lo: usize = 0;
        let mut hi: usize = self.keys.len();
        while lo < hi
            invariant
                self.wf(),
                lo <= hi <= self.keys@.len(),
                forall|i: int| 0 <= i < lo ==> key_lt(#[trigger] self.order()[i], key@),
                forall|i: int| hi <= i < self.order().len() ==> !key_lt(#[trigger] self.order()[i], key@),
            decreases hi - lo,
        {
            let mid: usize = lo + (hi - lo) / 2;
            let ghost at = self.order()[mid as int];
            if self.keys[mid].before(key) {
                assert forall|i: int| 0 <= i < mid + 1 implies key_lt(#[trigger] self.order()[i], key@) by {
                    if i < mid {
                        lemma_key_order(self.order()[i], at, key@);
                    }
                }
                lo = mid + 1;
            } else {
                assert forall|i: int| mid <= i < self.order().len() implies !key_lt(#[trigger] self.order()[i], key@) by {
                    if i > mid {
                        lemma_key_order(at, self.order()[i], key@);
                    }
                }
                hi = mid;
            }
        }
        lo
    }

    /// Position of `key`, if it has a row.
    pub fn position(&self, key: &Key) -> (r: Option<usize>)
        requires
            self.wf(),
        ensures
            match r {
                Some(i) => {
                    &&& i < self.values@.len()
                    &&& self.order()[i as int] == key@
                    &&& self@.contains_key(key@)
                    &&& self@[key@] == self.values@[i as int]
                },
                None => !self@.contains_key(key@),
            },
    {
        let at: usize = self.lower_bound(key);
        if at < self.keys.len() && self.keys[at].same(key) {
            proof {
                assert(self.order()[at as int] == key@);
                lemma_row_at(self.order(), self.values@, at as int);
            }
            return Some(at);
        }
        proof {
            if self.order().contains(key@) {
                let j = choose|j: int| 0 <= j < self.order().len() && self.order()[j] == key@;
                lemma_key_order(key@, key@, key@);
                assert(!key_lt(self.order()[j], key@));
                assert(at <= j);
                if at < j {
                    lemma_key_order(self.order()[at as int], self.order()[j], key@);
                    assert(key_lt(self.order()[at as int], self.order()[j]));
                }
                assert(self.keys@[at as int]@ == self.order()[at as int]);
            }
        }
        None
    }

    /// The row of `key`.
    pub fn get(&self, key: &Key) -> (r: Option<&V>)
        requires
            self.wf(),
        ensures
            match r {
                Some(v) => self@.contains_key(key@) && *v == self@[key@],
                None => !self@.contains_key(key@),
            },
    {
        match self.position(key) {
            Some(i) => Some(&self.values[i]),
            None => None,
        }
    }

    /// Whether `key` has a row.
    pub fn contains(&self, key: &Key) -> (r: bool)
        requires
            self.wf(),
        ensures
            r == self@.contains_key(key@),
    {
        self.position(key).is_some()
    }

    /// Store `value` under `key`, replacing a row that is there.
    pub fn set(&mut self, key: Key, value: V)
        requires
            old(self).wf(),
        ensures
            final(self).wf(),
            final(self)@ == old(self)@.insert(key@, value),
            final(self).values@.len() == old(self).values@.len() + (if old(self)@.contains_key(key@) {
                0int
            } else {
                1int
            }),
    {
        match self.position(&key) {
            Some(i) => {
                self.replace_at(i, value);
            },
            None => {
                let at: usize = self.lower_bound(&key);
                let ghost keys = self.order();
                let ghost values = self.values@;
                let ghost k0 = key@;
                self.keys.insert(at, key);
                self.values.insert(at, value);
                proof {
                    assert(self.order() =~= keys.insert(at as int, k0));
                    assert forall|i: int, j: int| 0 <= i < j < self.order().len() implies key_lt(
                        #[trigger] self.order()[i],
                        #[trigger] self.order()[j],
                    ) by {
                        if i == at {
                            lemma_key_order(keys[j - 1], k0, k0);
                            assert(keys.contains(keys[j - 1]));
                        }
                    }
                    lemma_insert_row(keys, values, at as int, k0, value);
                }
            },
        }
    }

    /// Replace the row at a position.
    pub fn replace_at(&mut self, i: usize, value: V)
        requires
            old(self).wf(),
            i < old(self).values@.len(),
        ensures
            final(self).wf(),
            final(self)@ == old(self)@.insert(old(self).order()[i as int], value),
            final(self).order() == old(self).order(),
            final(self).values@ == old(self).values@.update(i as int, value),
    {
        let ghost keys = self.order();
        let ghost before = self.values@;
        self.values.set(i, value);
        proof {
            lemma_update_row(keys, before, i as int, value);
        }
    }

    /// The row at a position, to be changed in its place.
    pub fn row_mut(&mut self, i: usize) -> (r: &mut V)
        requires
            old(self).wf(),
            i < old(self).values@.len(),
        ensures
            *r == old(self).values@[i as int],
            final(self).wf(),
            final(self)@ == old(self)@.insert(old(self).order()[i as int], *final(r)),
            final(self).order() == old(self).order(),
            final(self).values@ == old(self).values@.update(i as int, *final(r)),
    {
        let ghost keys = self.order();
        let ghost before = self.values@;
        let r = &mut self.values[i];
        proof {
            lemma_update_row(keys, before, i as int, *final(r));
        }
        r
    }

    /// Drop the row at a position.
    pub fn remove_at(&mut self, i: usize) -> (r: V)
        requires
            old(self).wf(),
            i < old(self).values@.len(),
        ensures
            final(self).wf(),
            final(self)@ == old(self)@.remove(old(self).order()[i as int]),
            final(self).order() == old(self).order().remove(i as int),
            final(self).values@ == old(self).values@.remove(i as int),
            r == old(self).values@[i as int],
    {
        let ghost keys = self.order();
        let ghost values = self.values@;
        let _dropped = self.keys.remove(i);
        let value = self.values.remove(i);
        proof {
            assert(self.order() =~= keys.remove(i as int));
            lemma_remove_row(keys, values, i as int);
        }
        value
    }

    /// Drop the row of `key`.
    pub fn remove(&mut self, key: &Key) -> (r: Option<V>)
        requires
            old(self).wf(),
        ensures
            final(self).wf(),
            final(self)@ == old(self)@.remove(key@),
            match r {
                Some(v) => old(self)@.contains_key(key@) && v == old(self)@[key@],
                None => !old(self)@.contains_key(key@),
            },
    {
        match self.position(key) {
            Some(i) => Some(self.remove_at(i)),
            None => {
                assert(self@.remove(key@) =~= self@);
                None
            },
        }
    }
}

proof fn lemma_update_row<V>(keys: Seq<Seq<Seq<char>>>, values: Seq<V>, i: int, value: V)
    requires
        sorted(keys),
        keys.len() == values.len(),
        0 <= i < keys.len(),
    ensures
        rows_map(keys, values.update(i, value)) == rows_map(keys, values).insert(keys[i], value),
{
    let after = rows_map(keys, values.update(i, value));
    let want = rows_map(keys, values).insert(keys[i], value);
    assert forall|k: Seq<Seq<char>>| #[trigger] want.contains_key(k) implies after[k] == want[k] by {
        if k == keys[i] {
            lemma_row_at(keys, values.update(i, value), i);
        } else {
            assert(keys.contains(k));
            let j = choose|j: int| 0 <= j < keys.len() && keys[j] == k;
            lemma_row_at(keys, values.update(i, value), j);
            lemma_row_at(keys, values, j);
        }
    }
    assert(after.dom() =~= want.dom());
    assert(after =~= want);
}

proof fn lemma_insert_row<V>(
    keys: Seq<Seq<Seq<char>>>,
    values: Seq<V>,
    at: int,
    key: Seq<Seq<char>>,
    value: V,
)
    requires
        sorted(keys),
        sorted(keys.insert(at, key)),
        keys.len() == values.len(),
        0 <= at <= keys.len(),
    ensures
        rows_map(keys.insert(at, key), values.insert(at, value)) == rows_map(keys, values).insert(
            key,
            value,
        ),
{
    let ks = keys.insert(at, key);
    let vs = values.insert(at, value);
    let a = rows_map(ks, vs);
    let b = rows_map(keys, values).insert(key, value);
    assert forall|k: Seq<Seq<char>>| a.contains_key(k) == b.contains_key(k) by {
        if ks.contains(k) {
            let j = choose|j: int| 0 <= j < ks.len() && ks[j] == k;
            if j < at {
                assert(keys[j] == k);
            } else if j > at {
                assert(keys[j - 1] == k);
            }
        }
        if keys.contains(k) {
            let j = choose|j: int| 0 <= j < keys.len() && keys[j] == k;
            if j < at {
                assert(ks[j] == k);
            } else {
                assert(ks[j + 1] == k);
            }
        }
        assert(ks[at] == key);
    }
    assert forall|k: Seq<Seq<char>>| a.contains_key(k) implies #[trigger] a[k] == b[k] by {
        let j = choose|j: int| 0 <= j < ks.len() && ks[j] == k;
        lemma_row_at(ks, vs, j);
        lemma_row_at(ks, vs, at);
        if j < at {
            lemma_row_at(keys, values, j);
            lemma_key_order(k, key, k);
            assert(key_lt(ks[j], ks[at]));
        } else if j > at {
            lemma_row_at(keys, values, j - 1);
            lemma_key_order(k, key, k);
            assert(key_lt(ks[at], ks[j]));
        }
    }
    assert(a =~= b);
}

proof fn lemma_remove_row<V>(keys: Seq<Seq<Seq<char>>>, values: Seq<V>, at: int)
    requires
        sorted(keys),
        keys.len() == values.len(),
        0 <= at < keys.len(),
    ensures
        sorted(keys.remove(at)),
        rows_map(keys.remove(at), values.remove(at)) == rows_map(keys, values).remove(keys[at]),
{
    let ks = keys.remove(at);
    let vs = values.remove(at);
    let a = rows_map(ks, vs);
    let b = rows_map(keys, values).remove(keys[at]);
    assert forall|i: int, j: int| 0 <= i < j < ks.len() implies key_lt(#[trigger] ks[i], #[trigger] ks[j]) by {
        let x = if i < at { i } else { i + 1 };
        let y = if j < at { j } else { j + 1 };
        assert(key_lt(keys[x], keys[y]));
    }
    assert forall|k: Seq<Seq<char>>| a.contains_key(k) == b.contains_key(k) by {
        if ks.contains(k) {
            let j = choose|j: int| 0 <= j < ks.len() && ks[j] == k;
            let x = if j < at { j } else { j + 1 };
            assert(keys[x] == k);
            lemma_key_order(keys[x], keys[at], k);
            if x < at {
                assert(key_lt(keys[x], keys[at]));
            } else {
                assert(key_lt(keys[at], keys[x]));
            }
        }
        if keys.contains(k) && k != keys[at] {
            let j = choose|j: int| 0 <= j < keys.len() && keys[j] == k;
            if j < at {
                assert(ks[j] == k);
            } else {
                assert(ks[j - 1] == k);
            }
        }
    }
    assert forall|k: Seq<Seq<char>>| a.contains_key(k) implies #[trigger] a[k] == b[k] by {
        let j = choose|j: int| 0 <= j < ks.len() && ks[j] == k;
        lemma_row_at(ks, vs, j);
        let x = if j < at { j } else { j + 1 };
        lemma_row_at(keys, values, x);
    }
    assert(a =~= b);
}

/// Keys are ordered by their first parts, then by what follows; a key is after
/// those it goes on from.
pub proof fn law_keys_are_ordered_part_by_part(
    a: Seq<Seq<char>>,
    b: Seq<Seq<char>>,
    x: Seq<char>,
    y: Seq<char>,
)
    ensures
        !key_lt(a, Seq::empty()),
        key_lt(Seq::empty(), seq![x] + b),
        x != y ==> (key_lt(seq![x] + a, seq![y] + b) <==> text::text_lt(x, y)),
        key_lt(seq![x] + a, seq![x] + b) <==> key_lt(a, b),
{
    assert((seq![x] + a).drop_first() =~= a);
    assert((seq![x] + b).drop_first() =~= b);
}

} // verus!
