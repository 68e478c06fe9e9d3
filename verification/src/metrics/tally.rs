//! Counters by labels.

use vstd::prelude::*;

use crate::table;
use crate::table::{Key, Table};
use crate::text;

verus! {

/// One counter.
#[derive(Debug, PartialEq, Eq)]
pub struct Entry {
    pub first: String,
    /// Empty where one label says it all.
    pub second: String,
    pub n: u64,
}

/// Counters by one or two labels, in the order of the labels. A counter that
/// was never touched is zero; one that reached its largest value stays there.
pub struct Tally {
    pub rows: Table<Entry>,
}

/// A count that grew by `n`.
pub open spec fn grown(count: nat, n: nat) -> nat {
    if count + n > u64::MAX {
        u64::MAX as nat
    } else {
        count + n
    }
}

/// `a` more of `count`.
pub fn grow(count: u64, n: u64) -> (r: u64)
    ensures
        r == grown(count as nat, n as nat),
{
    if count > u64::MAX - n {
        u64::MAX
    } else {
        count + n
    }
}

impl Tally {
    /// Entries are kept under their labels.
    pub open spec fn wf(&self) -> bool {
        &&& self.rows.wf()
        &&& forall|k: Seq<Seq<char>>| #[trigger]
            self.rows@.contains_key(k) ==> k == table::k2(
                self.rows@[k].first@,
                self.rows@[k].second@,
            )
    }

    /// One label says it all.
    pub open spec fn one_label(&self) -> bool {
        forall|k: Seq<Seq<char>>| #[trigger]
            self.rows@.contains_key(k) ==> self.rows@[k].second@ == ""@
    }

    /// The count of two labels.
    pub open spec fn count(&self, first: Seq<char>, second: Seq<char>) -> nat {
        if self.rows@.contains_key(table::k2(first, second)) {
            self.rows@[table::k2(first, second)].n as nat
        } else {
            0
        }
    }

    /// No counters.
    pub fn new() -> (r: Tally)
        ensures
            r.wf(),
            r.rows@ == Map::<Seq<Seq<char>>, Entry>::empty(),
            r.rows.values@.len() == 0,
    {
        Tally { rows: Table::new() }
    }

    /// The count of two labels.
    pub fn get(&self, first: &str, second: &str) -> (r: u64)
        requires
            self.wf(),
        ensures
            r == self.count(first@, second@),
    {
        match self.rows.get(&Key::two(first, second)) {
            Some(e) => e.n,
            None => 0,
        }
    }

    /// Count `n` more of two labels.
    pub fn bump(&mut self, first: &str, second: &str, n: u64)
        requires
            old(self).wf(),
        ensures
            final(self).wf(),
            forall|a: Seq<char>, b: Seq<char>| #[trigger]
                final(self).count(a, b) == if a == first@ && b == second@ {
                    grown(old(self).count(a, b), n as nat)
                } else {
                    old(self).count(a, b)
                },
            final(self).rows@.dom() == old(self).rows@.dom().insert(table::k2(first@, second@)),
    {
        let total: u64 = grow(self.get(first, second), n);
        let ghost before = *self;
        self.rows.set(
            Key::two(first, second),
            Entry { first: text::owned(first), second: text::owned(second), n: total },
        );
        proof {
            assert(self.rows@.dom() =~= before.rows@.dom().insert(table::k2(first@, second@)));
            assert forall|a: Seq<char>, b: Seq<char>| #[trigger]
                self.count(a, b) == if a == first@ && b == second@ {
                    grown(before.count(a, b), n as nat)
                } else {
                    before.count(a, b)
                } by {
                table::lemma_k2(a, b, first@, second@);
            }
        }
    }

    /// A copy.
    pub fn copy(&self) -> (r: Tally)
        requires
            self.wf(),
        ensures
            r.wf(),
            r.rows.order() == self.rows.order(),
            r.rows.values@.len() == self.rows.values@.len(),
            forall|i: int|
                0 <= i < r.rows.values@.len() ==> (#[trigger] r.rows.values@[i]) == self.rows.values@[i],
            r.rows@ == self.rows@,
    {
        let mut keys: Vec<Key> = Vec::new();
        let mut values: Vec<Entry> = Vec::new();
        let mut i: usize = 0;
        while i < self.rows.values.len()
            invariant
                self.wf(),
                i <= self.rows.values@.len(),
                keys@.len() == i,
                values@.len() == i,
                forall|j: int| 0 <= j < i ==> (#[trigger] keys@[j])@ == self.rows.order()[j],
                forall|j: int| 0 <= j < i ==> #[trigger] values@[j] == self.rows.values@[j],
            decreases self.rows.values@.len() - i,
        {
            keys.push(self.rows.keys[i].copy());
            let e = &self.rows.values[i];
            values.push(Entry { first: e.first.clone(), second: e.second.clone(), n: e.n });
            i += 1;
        }
        let r = Tally { rows: Table { keys, values } };
        proof {
            assert(r.rows.order() =~= self.rows.order());
            assert(r.rows.values@ =~= self.rows.values@);
            assert(r.rows@ =~= self.rows@);
        }
        r
    }
}

} // verus!
