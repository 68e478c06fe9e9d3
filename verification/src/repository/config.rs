//! Generation stamps of the configuration a control plane publishes to data
//! planes.
//!
//! The publication holds one row per published key with the generation at
//! which its content last changed, the content digest, a natural version and
//! the body (none for a tombstone), plus one counter.

use vstd::prelude::*;

use crate::table;
use crate::table::{Key, Table};
use crate::text;

verus! {

/// One entry as the publisher currently sees it.
#[derive(Debug, PartialEq, Eq)]
pub struct ConfigObservation {
    pub key: String,
    pub natural_version: u64,
    pub digest: String,
    pub body: String,
}

/// One row of the publication.
#[derive(Debug, PartialEq, Eq)]
pub struct PublishedRow {
    pub generation: u64,
    pub natural_version: u64,
    pub digest: String,
    /// `None`: tombstone.
    pub body: Option<String>,
}

/// One published entry, as a data plane gets it.
#[derive(Debug, PartialEq, Eq)]
pub struct StampedEntry {
    pub key: String,
    pub generation: u64,
    pub body: Option<String>,
}

/// What a stamping round gives a data plane.
#[derive(Debug, PartialEq, Eq)]
pub struct StampedConfig {
    /// The publication counter after stamping.
    pub generation: u64,
    /// Rows above the generation asked for, tombstones included, by
    /// generation.
    pub entries: Vec<StampedEntry>,
}

/// Content of a row.
pub ghost struct RowView {
    pub generation: int,
    pub natural_version: int,
    pub digest: Seq<char>,
    pub body: Option<Seq<char>>,
}

impl View for PublishedRow {
    type V = RowView;

    open spec fn view(&self) -> RowView {
        RowView {
            generation: self.generation as int,
            natural_version: self.natural_version as int,
            digest: self.digest@,
            body: text::opt_view(self.body),
        }
    }
}

/// The publication while it is stamped.
pub ghost struct Publication {
    pub rows: Map<Seq<Seq<char>>, RowView>,
    pub counter: int,
    /// Keys whose row changed, in the order they did.
    pub changed: Seq<Seq<char>>,
}

/// The rows of a publication.
pub open spec fn rows_view(rows: Table<PublishedRow>) -> Map<Seq<Seq<char>>, RowView> {
    rows@.map_values(|r: PublishedRow| r@)
}

/// A publication is kept by entry key.
pub open spec fn row_keys(rows: Table<PublishedRow>) -> bool {
    forall|k: Seq<Seq<char>>| #[trigger] rows@.contains_key(k) ==> k.len() == 1
}

/// Whether an observation replaces what is published under its key: a new
/// key, a tombstone, or another digest at a natural version that is not older.
pub open spec fn replaces(rows: Map<Seq<Seq<char>>, RowView>, o: ConfigObservation) -> bool {
    let key = table::k1(o.key@);
    ||| !rows.contains_key(key)
    ||| rows[key].body is None
    ||| rows[key].digest != o.digest@ && o.natural_version >= rows[key].natural_version
}

/// One observation applied.
pub open spec fn observed_one(p: Publication, o: ConfigObservation) -> Publication {
    if replaces(p.rows, o) {
        Publication {
            rows: p.rows.insert(
                table::k1(o.key@),
                RowView {
                    generation: p.counter + 1,
                    natural_version: o.natural_version as int,
                    digest: o.digest@,
                    body: Some(o.body@),
                },
            ),
            counter: p.counter + 1,
            changed: p.changed.push(o.key@),
        }
    } else {
        p
    }
}

/// The first `n` observations applied.
pub open spec fn observed_first(p: Publication, observed: Seq<ConfigObservation>, n: nat) -> Publication
    decreases n,
{
    if n == 0 {
        p
    } else {
        observed_one(observed_first(p, observed, (n - 1) as nat), observed[n - 1])
    }
}

/// Whether a key was observed.
pub open spec fn is_observed(observed: Seq<ConfigObservation>, key: Seq<char>) -> bool {
    exists|i: int| 0 <= i < observed.len() && (#[trigger] observed[i]).key@ == key
}

/// A published key that is not observed any more becomes a tombstone.
pub open spec fn buried_one(p: Publication, observed: Seq<ConfigObservation>, key: Seq<Seq<char>>) -> Publication {
    if p.rows[key].body is Some && !is_observed(observed, key[0]) {
        Publication {
            rows: p.rows.insert(
                key,
                RowView { generation: p.counter + 1, body: None, ..p.rows[key] },
            ),
            counter: p.counter + 1,
            changed: p.changed.push(key[0]),
        }
    } else {
        p
    }
}

/// The first `n` keys of `order` looked at for a tombstone.
pub open spec fn buried_first(
    p: Publication,
    observed: Seq<ConfigObservation>,
    order: Seq<Seq<Seq<char>>>,
    n: nat,
) -> Publication
    decreases n,
{
    if n == 0 {
        p
    } else {
        buried_one(buried_first(p, observed, order, (n - 1) as nat), observed, order[n - 1])
    }
}

/// `order` lists the keys of `rows`, ascending.
pub open spec fn is_order(rows: Map<Seq<Seq<char>>, RowView>, order: Seq<Seq<Seq<char>>>) -> bool {
    &&& table::sorted(order)
    &&& forall|k: Seq<Seq<char>>| #[trigger] rows.contains_key(k) <==> order.contains(k)
}

/// The publication after stamping: the observations in their order, then the
/// tombstones by key.
pub open spec fn stamped(
    rows: Map<Seq<Seq<char>>, RowView>,
    counter: int,
    observed: Seq<ConfigObservation>,
    order: Seq<Seq<Seq<char>>>,
) -> Publication {
    let p = Publication { rows, counter, changed: Seq::empty() };
    buried_first(observed_first(p, observed, observed.len()), observed, order, order.len())
}

/// The published keys that are observed no more.
pub open spec fn gone(
    rows: Map<Seq<Seq<char>>, RowView>,
    observed: Seq<ConfigObservation>,
) -> Set<Seq<Seq<char>>> {
    rows.dom().filter(
        |k: Seq<Seq<char>>| rows[k].body is Some && !is_observed(observed, k[0]),
    )
}

/// There is a generation left for everything that stamping changes: the
/// observations that replace what is published, and the keys that are gone.
pub open spec fn has_room(
    rows: Map<Seq<Seq<char>>, RowView>,
    counter: int,
    observed: Seq<ConfigObservation>,
) -> bool {
    observed_first(
        Publication { rows, counter, changed: Seq::empty() },
        observed,
        observed.len(),
    ).counter + gone(rows, observed).len() <= u64::MAX
}

proof fn lemma_observed_counter(p: Publication, observed: Seq<ConfigObservation>, i: nat, n: nat)
    requires
        i <= n,
    ensures
        observed_first(p, observed, i).counter <= observed_first(p, observed, n).counter,
        observed_first(p, observed, n).counter <= observed_first(p, observed, i).counter + n - i,
    decreases n - i,
{
    if i < n {
        lemma_observed_counter(p, observed, i, (n - 1) as nat);
    }
}

/// What is not observed is left as it was.
proof fn lemma_observed_leaves(p: Publication, observed: Seq<ConfigObservation>, n: nat)
    requires
        n <= observed.len(),
    ensures
        forall|k: Seq<Seq<char>>|
            !is_observed(observed, k[0]) ==> #[trigger] observed_first(
                p,
                observed,
                n,
            ).rows.contains_key(k) == p.rows.contains_key(k) && observed_first(
                p,
                observed,
                n,
            ).rows[k] == p.rows[k],
    decreases n,
{
    if n > 0 {
        lemma_observed_leaves(p, observed, (n - 1) as nat);
        let q = observed_first(p, observed, (n - 1) as nat);
        let r = observed_first(p, observed, n);
        let key = table::k1(observed[n - 1].key@);
        assert(is_observed(observed, key[0]));
        assert forall|k: Seq<Seq<char>>| !is_observed(observed, k[0]) implies #[trigger] r.rows.contains_key(
            k,
        ) == p.rows.contains_key(k) && r.rows[k] == p.rows[k] by {
            assert(k != key);
            assert(q.rows.contains_key(k) == p.rows.contains_key(k));
        }
    }
}

/// Room for one generation per row and per observation is enough.
pub proof fn law_a_generation_for_each_is_enough(
    rows: Map<Seq<Seq<char>>, RowView>,
    counter: int,
    observed: Seq<ConfigObservation>,
)
    requires
        rows.dom().finite(),
        counter + rows.dom().len() + observed.len() <= u64::MAX,
    ensures
        has_room(rows, counter, observed),
{
    let p = Publication { rows, counter, changed: Seq::empty() };
    lemma_observed_counter(p, observed, 0, observed.len());
    rows.dom().lemma_len_filter(
        |k: Seq<Seq<char>>| rows[k].body is Some && !is_observed(observed, k[0]),
    );
}

/// How many of the first `n` keys of `order` are published in `rows` and were
/// not observed.
spec fn unseen(
    rows: Map<Seq<Seq<char>>, RowView>,
    order: Seq<Seq<Seq<char>>>,
    observed: Seq<ConfigObservation>,
    n: nat,
) -> nat
    decreases n,
{
    if n == 0 {
        0
    } else if rows[order[n - 1]].body is Some && !is_observed(observed, order[n - 1][0]) {
        unseen(rows, order, observed, (n - 1) as nat) + 1
    } else {
        unseen(rows, order, observed, (n - 1) as nat)
    }
}

proof fn lemma_buried_counter(
    p: Publication,
    observed: Seq<ConfigObservation>,
    order: Seq<Seq<Seq<char>>>,
    n: nat,
)
    ensures
        p.counter <= buried_first(p, observed, order, n).counter <= p.counter + unseen(
            p.rows,
            order,
            observed,
            n,
        ),
        forall|k: Seq<Seq<char>>|
            (#[trigger] buried_first(p, observed, order, n).rows[k]).body is Some
                ==> p.rows[k].body is Some,
    decreases n,
{
    if n > 0 {
        lemma_buried_counter(p, observed, order, (n - 1) as nat);
    }
}

/// Keys that are different and known are at most as many as are known.
proof fn lemma_unseen(
    rows: Map<Seq<Seq<char>>, RowView>,
    order: Seq<Seq<Seq<char>>>,
    observed: Seq<ConfigObservation>,
    known: Set<Seq<Seq<char>>>,
    n: nat,
)
    requires
        n <= order.len(),
        order.no_duplicates(),
        known.finite(),
        forall|i: int|
            0 <= i < n && rows[#[trigger] order[i]].body is Some && !is_observed(
                observed,
                order[i][0],
            ) ==> known.contains(order[i]),
    ensures
        unseen(rows, order, observed, n) <= known.len(),
    decreases n,
{
    if n > 0 {
        let k = order[n - 1];
        if rows[k].body is Some && !is_observed(observed, k[0]) {
            lemma_unseen(rows, order, observed, known.remove(k), (n - 1) as nat);
        } else {
            lemma_unseen(rows, order, observed, known, (n - 1) as nat);
        }
    }
}

fn seen(observed: &Vec<ConfigObservation>, key: &str) -> (r: bool)
    ensures
        r == is_observed(observed@, key@),
{
    let mut i: usize = 0;
    while i < observed.len()
        invariant
            i <= observed@.len(),
            forall|j: int| 0 <= j < i ==> (#[trigger] observed@[j]).key@ != key@,
        decreases observed@.len() - i,
    {
        if text::same_text(observed[i].key.as_str(), key) {
            assert(observed@[i as int].key@ == key@);
            return true;
        }
        i += 1;
    }
    false
}

/// Apply `observed` to `rows`, advancing `counter`. Returns the keys whose
/// row changed.
///
/// - a new key, or a key whose digest changed with a natural version at least
///   the stored one, gets the next generation;
/// - a value whose natural version is below the stored one is ignored (a
///   stale read never rolls a route back);
/// - a previously published key that is not observed any more becomes a
///   tombstone with the next generation (once);
/// - a tombstoned key that is observed again is republished with the next
///   generation.
pub fn stamp(
    rows: &mut Table<PublishedRow>,
    counter: &mut u64,
    observed: Vec<ConfigObservation>,
) -> (changed: Vec<String>)
    requires
        old(rows).wf(),
        row_keys(*old(rows)),
        has_room(rows_view(*old(rows)), *old(counter) as int, observed@),
    ensures
        final(rows).wf(),
        row_keys(*final(rows)),
        order_fits(rows_view(*old(rows)), *old(counter) as int, observed@, final(rows).order()),
        ({
            let p = stamped(
                rows_view(*old(rows)),
                *old(counter) as int,
                observed@,
                final(rows).order(),
            );
            &&& rows_view(*final(rows)) == p.rows
            &&& *final(counter) == p.counter
            &&& text::texts_view(changed@) == p.changed
        }),
{
    let ghost start = Publication {
        rows: rows_view(*rows),
        counter: *counter as int,
        changed: Seq::empty(),
    };
    let ghost known = gone(start.rows, observed@);
    let ghost middle = observed_first(start, observed@, observed@.len());
    proof {
        rows.lemma_len();
        assert(start.rows.dom() =~= rows@.dom());
    }
    let mut changed: Vec<String> = Vec::new();
    assert(text::texts_view(changed@) =~= Seq::empty());
    let mut i: usize = 0;
    while i < observed.len()
        invariant
            rows.wf(),
            row_keys(*rows),
            i <= observed@.len(),
            middle == observed_first(start, observed@, observed@.len()),
            middle.counter <= u64::MAX,
            observed_first(start, observed@, i as nat) == (Publication {
                rows: rows_view(*rows),
                counter: *counter as int,
                changed: text::texts_view(changed@),
            }),
        decreases observed@.len() - i,
    {
        let o = &observed[i];
        let key = Key::one(o.key.as_str());
        proof {
            lemma_observed_counter(start, observed@, (i + 1) as nat, observed@.len());
        }
        let ghost before = rows_view(*rows);
        let replace = match rows.get(&key) {
            None => true,
            Some(row) => row.body.is_none() || (!text::same_text(
                row.digest.as_str(),
                o.digest.as_str(),
            ) && o.natural_version >= row.natural_version),
        };
        assert(replace == replaces(before, *o));
        if replace {
            *counter = *counter + 1;
            let row = PublishedRow {
                generation: *counter,
                natural_version: o.natural_version,
                digest: o.digest.clone(),
                body: Some(o.body.clone()),
            };
            let ghost view = row@;
            rows.set(key, row);
            assert(rows_view(*rows) =~= before.insert(table::k1(o.key@), view));
            let ghost said = changed@;
            changed.push(o.key.clone());
            assert(text::texts_view(changed@) =~= text::texts_view(said).push(o.key@));
        }
        i += 1;
    }
    let ghost order = rows.order();
    let mut j: usize = 0;
    proof {
        table::lemma_sorted_unique(order);
        assert(is_order(middle.rows, order));
        lemma_observed_leaves(start, observed@, observed@.len());
        assert forall|i: int|
            0 <= i < order.len() && middle.rows[#[trigger] order[i]].body is Some && !is_observed(
                observed@,
                order[i][0],
            ) implies known.contains(order[i]) by {
            assert(order.contains(order[i]));
            assert(middle.rows.contains_key(order[i]));
        }
    }
    while j < rows.keys.len()
        invariant
            rows.wf(),
            row_keys(*rows),
            j <= rows.keys@.len(),
            rows.order() == order,
            order.no_duplicates(),
            known.finite(),
            middle.counter + known.len() <= u64::MAX,
            forall|i: int|
                0 <= i < order.len() && middle.rows[#[trigger] order[i]].body is Some
                    && !is_observed(observed@, order[i][0]) ==> known.contains(order[i]),
            buried_first(middle, observed@, order, j as nat) == (Publication {
                rows: rows_view(*rows),
                counter: *counter as int,
                changed: text::texts_view(changed@),
            }),
        decreases rows.keys@.len() - j,
    {
        proof {
            lemma_buried_counter(middle, observed@, order, (j + 1) as nat);
            lemma_unseen(middle.rows, order, observed@, known, (j + 1) as nat);
            table::lemma_row_at(rows.order(), rows.values@, j as int);
            assert(rows@.contains_key(order[j as int]));
            assert(rows.keys@[j as int]@ == order[j as int]);
        }
        let ghost before = rows_view(*rows);
        let ghost k = order[j as int];
        let ghost raw = rows.values@;
        assert(before[k] == rows.values@[j as int]@);
        assert(k[0] == rows.keys@[j as int].parts@[0]@);
        let bury = rows.values[j].body.is_some() && !seen(&observed, rows.keys[j].parts[0].as_str());
        if bury {
            *counter = *counter + 1;
            let row = PublishedRow {
                generation: *counter,
                natural_version: rows.values[j].natural_version,
                digest: rows.values[j].digest.clone(),
                body: None,
            };
            let name = rows.keys[j].parts[0].clone();
            let ghost view = row@;
            rows.replace_at(j, row);
            assert(rows_view(*rows) =~= before.insert(k, view));
            let ghost said = changed@;
            changed.push(name);
            assert(text::texts_view(changed@) =~= text::texts_view(said).push(k[0]));
        }
        j += 1;
    }
    changed
}

/// Entry `e` is the row at `i`.
pub open spec fn is_entry(rows: Table<PublishedRow>, e: StampedEntry, i: int) -> bool {
    &&& e.key@ == rows.order()[i][0]
    &&& e.generation == rows.values@[i].generation
    &&& text::opt_view(e.body) == text::opt_view(rows.values@[i].body)
}

/// `entries` are the rows above `since`, each once, at the positions `at`,
/// ordered by generation and, where those are the same, by key.
pub open spec fn are_above(
    rows: Table<PublishedRow>,
    since: u64,
    entries: Seq<StampedEntry>,
    at: Seq<int>,
) -> bool {
    &&& entries.len() == at.len()
    &&& forall|n: int|
        0 <= n < at.len() ==> 0 <= #[trigger] at[n] < rows.values@.len()
            && rows.values@[at[n]].generation > since && is_entry(rows, entries[n], at[n])
    &&& forall|i: int|
        0 <= i < rows.values@.len() && (#[trigger] rows.values@[i]).generation > since
            ==> at.contains(i)
    &&& forall|m: int, n: int|
        0 <= m < n < at.len() ==> comes_before(rows, #[trigger] at[m], #[trigger] at[n])
}

/// What is collected of the first `i` rows.
pub open spec fn above_so_far(
    rows: Table<PublishedRow>,
    since: u64,
    i: int,
    entries: Seq<StampedEntry>,
    at: Seq<int>,
) -> bool {
    &&& entries.len() == at.len()
    &&& forall|n: int|
        0 <= n < at.len() ==> 0 <= #[trigger] at[n] < i && rows.values@[at[n]].generation > since
            && is_entry(rows, entries[n], at[n])
    &&& forall|j: int|
        0 <= j < i && (#[trigger] rows.values@[j]).generation > since ==> at.contains(j)
    &&& forall|m: int, n: int|
        0 <= m < n < at.len() ==> comes_before(rows, #[trigger] at[m], #[trigger] at[n])
}

/// The row at `a` is handed out before the one at `b`.
pub open spec fn comes_before(rows: Table<PublishedRow>, a: int, b: int) -> bool {
    rows.values@[a].generation < rows.values@[b].generation || (rows.values@[a].generation
        == rows.values@[b].generation && a < b)
}

proof fn lemma_place_kept(was: Seq<int>, p: int, i: int, j: int)
    requires
        0 <= p <= was.len(),
        was.contains(j) || j == i,
    ensures
        was.insert(p, i).contains(j),
{
    let at = was.insert(p, i);
    if j == i {
        assert(at[p] == j);
    } else {
        let n = was.index_of(j);
        if n < p {
            assert(at[n] == j);
        } else {
            assert(at[n + 1] == j);
        }
    }
}

proof fn lemma_entry_order(
    rows: Table<PublishedRow>,
    since: u64,
    i: int,
    entries: Seq<StampedEntry>,
    was: Seq<int>,
    p: int,
    e: StampedEntry,
    m: int,
    n: int,
)
    requires
        above_so_far(rows, since, i, entries, was),
        0 <= p <= entries.len(),
        is_entry(rows, e, i),
        p > 0 ==> entries[p - 1].generation <= e.generation,
        forall|n: int| p <= n < entries.len() ==> (#[trigger] entries[n]).generation > e.generation,
        0 <= m < n < was.len() + 1,
    ensures
        comes_before(rows, was.insert(p, i)[m], was.insert(p, i)[n]),
{
    let at = was.insert(p, i);
    if m < p {
        assert(at[m] == was[m]);
        if n < p {
            assert(at[n] == was[n]);
        } else if n == p {
            assert(is_entry(rows, entries[m], was[m]));
            assert(is_entry(rows, entries[p - 1], was[p - 1]));
            if m < p - 1 {
                assert(comes_before(rows, was[m], was[p - 1]));
            }
        } else {
            assert(at[n] == was[n - 1]);
        }
    } else if m == p {
        assert(at[n] == was[n - 1]);
        assert(is_entry(rows, entries[n - 1], was[n - 1]));
    } else {
        assert(at[m] == was[m - 1] && at[n] == was[n - 1]);
    }
}

proof fn lemma_entry_inserted(
    rows: Table<PublishedRow>,
    since: u64,
    i: int,
    entries: Seq<StampedEntry>,
    was: Seq<int>,
    p: int,
    e: StampedEntry,
)
    requires
        above_so_far(rows, since, i, entries, was),
        0 <= p <= entries.len(),
        0 <= i < rows.values@.len(),
        rows.values@[i].generation > since,
        is_entry(rows, e, i),
        p > 0 ==> entries[p - 1].generation <= e.generation,
        forall|n: int| p <= n < entries.len() ==> (#[trigger] entries[n]).generation > e.generation,
    ensures
        above_so_far(rows, since, i + 1, entries.insert(p, e), was.insert(p, i)),
{
    let at = was.insert(p, i);
    let out = entries.insert(p, e);
    assert forall|n: int| 0 <= n < at.len() implies 0 <= #[trigger] at[n] < i + 1
        && rows.values@[at[n]].generation > since && is_entry(rows, out[n], at[n]) by {
        if n < p {
            assert(at[n] == was[n] && out[n] == entries[n]);
        } else if n > p {
            assert(at[n] == was[n - 1] && out[n] == entries[n - 1]);
        }
    }
    assert forall|j: int|
        0 <= j < i + 1 && (#[trigger] rows.values@[j]).generation > since implies at.contains(j) by {
        lemma_place_kept(was, p, i, j);
    }
    assert forall|m: int, n: int| 0 <= m < n < at.len() implies comes_before(
        rows,
        #[trigger] at[m],
        #[trigger] at[n],
    ) by {
        lemma_entry_order(rows, since, i, entries, was, p, e, m, n);
    }
}

/// The rows above `since`, ordered by generation.
pub fn above(rows: &Table<PublishedRow>, since: u64) -> (r: Vec<StampedEntry>)
    requires
        rows.wf(),
        row_keys(*rows),
    ensures
        exists|at: Seq<int>| #[trigger] are_above(*rows, since, r@, at),
{
    let mut out: Vec<StampedEntry> = Vec::new();
    let ghost mut at: Seq<int> = Seq::empty();
    let mut i: usize = 0;
    while i < rows.values.len()
        invariant
            rows.wf(),
            row_keys(*rows),
            i <= rows.values@.len(),
            out@.len() <= i,
            above_so_far(*rows, since, i as int, out@, at),
        decreases rows.values@.len() - i,
    {
        let row = &rows.values[i];
        proof {
            table::lemma_row_at(rows.order(), rows.values@, i as int);
            assert(rows@.contains_key(rows.order()[i as int]));
            assert(rows.keys@[i as int]@ == rows.order()[i as int]);
        }
        if row.generation > since {
            let e = StampedEntry {
                key: rows.keys[i].parts[0].clone(),
                generation: row.generation,
                body: text::clone_opt(&row.body),
            };
            let mut p: usize = out.len();
            while p > 0 && out[p - 1].generation > row.generation
                invariant
                    p <= out@.len(),
                    forall|n: int|
                        p <= n < out@.len() ==> (#[trigger] out@[n]).generation > row.generation,
                decreases p,
            {
                p -= 1;
            }
            let ghost before = out@;
            let ghost was = at;
            out.insert(p, e);
            proof {
                lemma_entry_inserted(*rows, since, i as int, before, was, p as int, out@[p as int]);
                at = at.insert(p as int, i as int);
                assert(out@ =~= before.insert(p as int, out@[p as int]));
            }
        }
        i += 1;
    }
    assert(are_above(*rows, since, out@, at));
    out
}

/// What one stamping round hands a data plane that knows everything up to
/// `since`.
pub fn stamped_config(rows: &Table<PublishedRow>, counter: u64, since: u64) -> (r: StampedConfig)
    requires
        rows.wf(),
        row_keys(*rows),
    ensures
        r.generation == counter,
        exists|at: Seq<int>| #[trigger] are_above(*rows, since, r.entries@, at),
{
    let entries = above(rows, since);
    let ghost at = choose|at: Seq<int>| #[trigger] are_above(*rows, since, entries@, at);
    let r = StampedConfig { generation: counter, entries };
    assert(are_above(*rows, since, r.entries@, at));
    r
}

/// Rounds that a stamping tries without holding the write lock before it
/// stamps under it from start to end.
pub const STAMP_ATTEMPTS: usize = 3;

/// What happened in a stamping round.
#[derive(Debug, Clone, Copy, PartialEq, Eq, Structural)]
pub enum StampEvent {
    /// The observations were stamped on a snapshot, outside any lock.
    Stamped { changed: usize },
    /// The write lock is held and the counter was read again: `read` is what
    /// the snapshot had, `now` what it is.
    Locked { read: u64, now: u64 },
}

/// What a stamping round does next.
#[derive(Debug, Clone, Copy, PartialEq, Eq, Structural)]
pub enum StampStep {
    /// Nothing changed: answer without writing.
    Answer,
    /// Take the write lock and read the counter again.
    Lock,
    /// Write the changed rows and answer.
    Write,
    /// Start again from a new snapshot.
    Again,
    /// Stamp under the write lock from start to end.
    StampLocked,
}

/// What follows an event of a stamping that has lost `lost` rounds.
pub open spec fn next_of(lost: usize, event: StampEvent) -> (usize, StampStep) {
    match event {
        StampEvent::Stamped { changed } => if changed == 0 {
            (lost, StampStep::Answer)
        } else {
            (lost, StampStep::Lock)
        },
        StampEvent::Locked { read, now } => if read == now {
            (lost, StampStep::Write)
        } else if lost + 1 < STAMP_ATTEMPTS {
            ((lost + 1) as usize, StampStep::Again)
        } else {
            ((lost + 1) as usize, StampStep::StampLocked)
        },
    }
}

/// The next step of a stamping, and how many rounds it has lost so far. The
/// rows of a publication only ever change together with its counter, so they
/// are written only while the counter still stands.
pub fn stamp_next(lost: usize, event: StampEvent) -> (r: (usize, StampStep))
    requires
        lost < STAMP_ATTEMPTS,
    ensures
        r == next_of(lost, event),
{
    match event {
        StampEvent::Stamped { changed } => if changed == 0 {
            (lost, StampStep::Answer)
        } else {
            (lost, StampStep::Lock)
        },
        StampEvent::Locked { read, now } => if read == now {
            (lost, StampStep::Write)
        } else if lost + 1 < STAMP_ATTEMPTS {
            (lost + 1, StampStep::Again)
        } else {
            (lost + 1, StampStep::StampLocked)
        },
    }
}

// ---------------------------------------------------------------------------
// what stamping promises
// ---------------------------------------------------------------------------

/// No generation is above the counter, and no two rows share one.
pub open spec fn well_stamped(p: Publication) -> bool {
    &&& forall|k: Seq<Seq<char>>| #[trigger]
        p.rows.contains_key(k) ==> 0 < p.rows[k].generation <= p.counter
    &&& forall|k: Seq<Seq<char>>, l: Seq<Seq<char>>|
        #![trigger p.rows[k], p.rows[l]]
        p.rows.contains_key(k) && p.rows.contains_key(l) && k != l ==> p.rows[k].generation
            != p.rows[l].generation
}

/// What `q` may differ in from `p` after stamping: only changed keys, each
/// with a generation above the counter of `p`.
pub open spec fn advances(p: Publication, q: Publication) -> bool {
    &&& p.counter <= q.counter
    &&& q.changed.len() - p.changed.len() == q.counter - p.counter
    &&& forall|k: Seq<Seq<char>>| #[trigger] p.rows.contains_key(k) ==> q.rows.contains_key(k)
    &&& forall|k: Seq<Seq<char>>| #[trigger]
        q.rows.contains_key(k) ==> (p.rows.contains_key(k) && q.rows[k] == p.rows[k])
            || q.rows[k].generation > p.counter
}

proof fn lemma_observed_advances(p: Publication, observed: Seq<ConfigObservation>, n: nat)
    requires
        well_stamped(p),
        p.counter >= 0,
        n <= observed.len(),
    ensures
        well_stamped(observed_first(p, observed, n)),
        advances(p, observed_first(p, observed, n)),
    decreases n,
{
    if n > 0 {
        lemma_observed_advances(p, observed, (n - 1) as nat);
    }
}

proof fn lemma_buried_advances(
    p: Publication,
    q: Publication,
    observed: Seq<ConfigObservation>,
    order: Seq<Seq<Seq<char>>>,
    n: nat,
)
    requires
        well_stamped(q),
        advances(p, q),
        p.counter >= 0,
        n <= order.len(),
        forall|i: int| 0 <= i < order.len() ==> q.rows.contains_key(#[trigger] order[i]),
    ensures
        well_stamped(buried_first(q, observed, order, n)),
        advances(p, buried_first(q, observed, order, n)),
        buried_first(q, observed, order, n).rows.dom() == q.rows.dom(),
    decreases n,
{
    if n > 0 {
        lemma_buried_advances(p, q, observed, order, (n - 1) as nat);
        let before = buried_first(q, observed, order, (n - 1) as nat);
        assert(q.rows.dom().contains(order[n - 1]));
        assert(before.rows.contains_key(order[n - 1]));
        assert(buried_first(q, observed, order, n).rows.dom() =~= q.rows.dom());
    }
}

/// `order` fits the rows that the observations leave.
pub open spec fn order_fits(
    rows: Map<Seq<Seq<char>>, RowView>,
    counter: int,
    observed: Seq<ConfigObservation>,
    order: Seq<Seq<Seq<char>>>,
) -> bool {
    is_order(
        observed_first(
            Publication { rows, counter, changed: Seq::empty() },
            observed,
            observed.len(),
        ).rows,
        order,
    )
}

/// Every change gets a generation of its own above all earlier ones, rows
/// that did not change keep theirs, and the counter counts the changes.
pub proof fn law_generations_only_grow(
    rows: Map<Seq<Seq<char>>, RowView>,
    counter: int,
    observed: Seq<ConfigObservation>,
    order: Seq<Seq<Seq<char>>>,
)
    requires
        counter >= 0,
        well_stamped(Publication { rows, counter, changed: Seq::empty() }),
        order_fits(rows, counter, observed, order),
    ensures
        well_stamped(stamped(rows, counter, observed, order)),
        advances(
            Publication { rows, counter, changed: Seq::empty() },
            stamped(rows, counter, observed, order),
        ),
{
    let p = Publication { rows, counter, changed: Seq::empty() };
    let q = observed_first(p, observed, observed.len());
    lemma_observed_advances(p, observed, observed.len());
    assert forall|i: int| 0 <= i < order.len() implies q.rows.contains_key(#[trigger] order[i]) by {
        assert(order.contains(order[i]));
    }
    lemma_buried_advances(p, q, observed, order, order.len());
}

/// A stale read never rolls a route back: while a key stays published, its
/// natural version does not fall.
pub proof fn law_a_stale_read_never_rolls_back(
    rows: Map<Seq<Seq<char>>, RowView>,
    counter: int,
    observed: Seq<ConfigObservation>,
    order: Seq<Seq<Seq<char>>>,
    key: Seq<Seq<char>>,
)
    requires
        order_fits(rows, counter, observed, order),
        rows.contains_key(key),
        rows[key].body is Some,
    ensures
        ({
            let p = stamped(rows, counter, observed, order);
            &&& p.rows.contains_key(key)
            &&& p.rows[key].natural_version >= rows[key].natural_version
        }),
{
    let p = Publication { rows, counter, changed: Seq::empty() };
    let q = observed_first(p, observed, observed.len());
    lemma_observed_natural(p, observed, observed.len(), key);
    lemma_buried_natural(q, observed, order, order.len(), key);
}

proof fn lemma_observed_natural(
    p: Publication,
    observed: Seq<ConfigObservation>,
    n: nat,
    key: Seq<Seq<char>>,
)
    requires
        p.rows.contains_key(key),
        p.rows[key].body is Some,
    ensures
        observed_first(p, observed, n).rows.contains_key(key),
        observed_first(p, observed, n).rows[key].body is Some,
        observed_first(p, observed, n).rows[key].natural_version >= p.rows[key].natural_version,
    decreases n,
{
    if n > 0 {
        lemma_observed_natural(p, observed, (n - 1) as nat, key);
    }
}

proof fn lemma_buried_natural(
    q: Publication,
    observed: Seq<ConfigObservation>,
    order: Seq<Seq<Seq<char>>>,
    n: nat,
    key: Seq<Seq<char>>,
)
    requires
        q.rows.contains_key(key),
    ensures
        buried_first(q, observed, order, n).rows.contains_key(key),
        buried_first(q, observed, order, n).rows[key].natural_version
            == q.rows[key].natural_version,
    decreases n,
{
    if n > 0 {
        lemma_buried_natural(q, observed, order, (n - 1) as nat, key);
    }
}

/// After stamping exactly the observed keys are published; every other known
/// key is a tombstone.
pub proof fn law_what_is_published_is_what_is_observed(
    rows: Map<Seq<Seq<char>>, RowView>,
    counter: int,
    observed: Seq<ConfigObservation>,
    order: Seq<Seq<Seq<char>>>,
    key: Seq<char>,
)
    requires
        order_fits(rows, counter, observed, order),
    ensures
        ({
            let p = stamped(rows, counter, observed, order);
            let live = p.rows.contains_key(table::k1(key)) && p.rows[table::k1(key)].body is Some;
            live == is_observed(observed, key)
        }),
{
    let k = table::k1(key);
    let p = Publication { rows, counter, changed: Seq::empty() };
    let q = observed_first(p, observed, observed.len());
    lemma_observed_live(p, observed, observed.len(), key);
    assert(k[0] == key);
    if is_observed(observed, key) {
        lemma_buried_live(q, observed, order, order.len(), key);
    } else if q.rows.contains_key(k) {
        assert(order.contains(k));
        let i = choose|i: int| 0 <= i < order.len() && order[i] == k;
        lemma_buried_dead(q, observed, order, order.len(), i);
    } else {
        assert(!order.contains(k));
        lemma_buried_absent(q, observed, order, order.len(), k);
    }
}

proof fn lemma_observed_live(p: Publication, observed: Seq<ConfigObservation>, n: nat, key: Seq<char>)
    requires
        n <= observed.len(),
    ensures
        forall|i: int|
            0 <= i < n && (#[trigger] observed[i]).key@ == key ==> observed_first(p, observed, n).rows.contains_key(
                table::k1(key),
            ) && observed_first(p, observed, n).rows[table::k1(key)].body is Some,
    decreases n,
{
    if n > 0 {
        lemma_observed_live(p, observed, (n - 1) as nat, key);
        table::lemma_k1(observed[n - 1].key@, key);
    }
}

proof fn lemma_buried_live(
    q: Publication,
    observed: Seq<ConfigObservation>,
    order: Seq<Seq<Seq<char>>>,
    n: nat,
    key: Seq<char>,
)
    requires
        q.rows.contains_key(table::k1(key)),
        q.rows[table::k1(key)].body is Some,
        is_observed(observed, key),
    ensures
        buried_first(q, observed, order, n).rows.contains_key(table::k1(key)),
        buried_first(q, observed, order, n).rows[table::k1(key)].body is Some,
    decreases n,
{
    if n > 0 {
        lemma_buried_live(q, observed, order, (n - 1) as nat, key);
        assert(table::k1(key)[0] == key);
    }
}

proof fn lemma_buried_dead(
    q: Publication,
    observed: Seq<ConfigObservation>,
    order: Seq<Seq<Seq<char>>>,
    n: nat,
    i: int,
)
    requires
        0 <= i < order.len(),
        n <= order.len(),
        !is_observed(observed, order[i][0]),
    ensures
        i < n ==> buried_first(q, observed, order, n).rows[order[i]].body is None,
    decreases n,
{
    if n > 0 {
        lemma_buried_dead(q, observed, order, (n - 1) as nat, i);
    }
}

proof fn lemma_buried_absent(
    q: Publication,
    observed: Seq<ConfigObservation>,
    order: Seq<Seq<Seq<char>>>,
    n: nat,
    k: Seq<Seq<char>>,
)
    requires
        n <= order.len(),
        !q.rows.contains_key(k),
        !order.contains(k),
    ensures
        !buried_first(q, observed, order, n).rows.contains_key(k),
    decreases n,
{
    if n > 0 {
        lemma_buried_absent(q, observed, order, (n - 1) as nat, k);
        assert(order[n - 1] != k);
    }
}

/// No two observations are of one key.
pub open spec fn distinct(observed: Seq<ConfigObservation>) -> bool {
    forall|i: int, j: int|
        0 <= i < j < observed.len() ==> (#[trigger] observed[i]).key@ != (#[trigger] observed[j]).key@
}

proof fn lemma_observed_settles(p: Publication, observed: Seq<ConfigObservation>, n: nat)
    requires
        distinct(observed),
        n <= observed.len(),
    ensures
        forall|i: int|
            0 <= i < n ==> !replaces(observed_first(p, observed, n).rows, #[trigger] observed[i]),
    decreases n,
{
    if n > 0 {
        lemma_observed_settles(p, observed, (n - 1) as nat);
        let before = observed_first(p, observed, (n - 1) as nat);
        assert forall|i: int| 0 <= i < n implies !replaces(
            observed_first(p, observed, n).rows,
            #[trigger] observed[i],
        ) by {
            table::lemma_k1(observed[i].key@, observed[n - 1].key@);
        }
    }
}

proof fn lemma_buried_settled(
    q: Publication,
    observed: Seq<ConfigObservation>,
    order: Seq<Seq<Seq<char>>>,
    n: nat,
    o: ConfigObservation,
)
    requires
        n <= order.len(),
        is_observed(observed, o.key@),
        !replaces(q.rows, o),
    ensures
        !replaces(buried_first(q, observed, order, n).rows, o),
    decreases n,
{
    if n > 0 {
        lemma_buried_settled(q, observed, order, (n - 1) as nat, o);
        assert(table::k1(o.key@)[0] == o.key@);
    }
}

proof fn lemma_settled_stays(p: Publication, observed: Seq<ConfigObservation>, n: nat)
    requires
        n <= observed.len(),
        forall|i: int| 0 <= i < observed.len() ==> !replaces(p.rows, #[trigger] observed[i]),
    ensures
        observed_first(p, observed, n) == p,
    decreases n,
{
    if n > 0 {
        lemma_settled_stays(p, observed, (n - 1) as nat);
    }
}

proof fn lemma_dead_stays(
    p: Publication,
    observed: Seq<ConfigObservation>,
    order: Seq<Seq<Seq<char>>>,
    n: nat,
)
    requires
        n <= order.len(),
        forall|i: int|
            0 <= i < order.len() ==> is_observed(observed, (#[trigger] order[i])[0])
                || p.rows[order[i]].body is None,
    ensures
        buried_first(p, observed, order, n) == p,
    decreases n,
{
    if n > 0 {
        lemma_dead_stays(p, observed, order, (n - 1) as nat);
    }
}

/// Stamping what is already published changes nothing: a tombstone is
/// written once, and an unchanged value keeps its generation.
pub proof fn law_stamping_again_changes_nothing(
    rows: Map<Seq<Seq<char>>, RowView>,
    counter: int,
    observed: Seq<ConfigObservation>,
    order: Seq<Seq<Seq<char>>>,
    later: Seq<Seq<Seq<char>>>,
)
    requires
        distinct(observed),
        order_fits(rows, counter, observed, order),
        ({
            let p = stamped(rows, counter, observed, order);
            order_fits(p.rows, p.counter, observed, later)
        }),
    ensures
        ({
            let p = stamped(rows, counter, observed, order);
            stamped(p.rows, p.counter, observed, later) == (Publication {
                changed: Seq::empty(),
                ..p
            })
        }),
{
    let start = Publication { rows, counter, changed: Seq::empty() };
    let q = observed_first(start, observed, observed.len());
    let p = stamped(rows, counter, observed, order);
    let again = Publication { changed: Seq::empty(), ..p };
    lemma_observed_settles(start, observed, observed.len());
    assert forall|i: int| 0 <= i < observed.len() implies !replaces(p.rows, #[trigger] observed[i]) by {
        assert(observed[i].key@ == observed[i].key@);
        lemma_buried_settled(q, observed, order, order.len(), observed[i]);
    }
    lemma_settled_stays(again, observed, observed.len());
    assert forall|i: int| 0 <= i < later.len() implies is_observed(observed, (#[trigger] later[i])[0])
        || p.rows[later[i]].body is None by {
        if !is_observed(observed, later[i][0]) {
            let k = later[i];
            assert(later.contains(k));
            assert(p.rows.contains_key(k));
            if !order.contains(k) {
                lemma_buried_absent(q, observed, order, order.len(), k);
            }
            let j = choose|j: int| 0 <= j < order.len() && order[j] == k;
            lemma_buried_dead(q, observed, order, order.len(), j);
        }
    }
    lemma_dead_stays(again, observed, later, later.len());
}

/// Stamping what is already published needs no generation: it can be done
/// whatever the counter stands at.
pub proof fn law_stamping_again_has_room(
    rows: Map<Seq<Seq<char>>, RowView>,
    counter: int,
    observed: Seq<ConfigObservation>,
    order: Seq<Seq<Seq<char>>>,
)
    requires
        distinct(observed),
        order_fits(rows, counter, observed, order),
        stamped(rows, counter, observed, order).counter <= u64::MAX,
    ensures
        ({
            let p = stamped(rows, counter, observed, order);
            has_room(p.rows, p.counter, observed)
        }),
{
    let start = Publication { rows, counter, changed: Seq::empty() };
    let q = observed_first(start, observed, observed.len());
    let p = stamped(rows, counter, observed, order);
    lemma_observed_settles(start, observed, observed.len());
    assert forall|i: int| 0 <= i < observed.len() implies !replaces(p.rows, #[trigger] observed[i]) by {
        assert(observed[i].key@ == observed[i].key@);
        lemma_buried_settled(q, observed, order, order.len(), observed[i]);
    }
    lemma_settled_stays(Publication { changed: Seq::empty(), ..p }, observed, observed.len());
    assert forall|k: Seq<Seq<char>>| !#[trigger] gone(p.rows, observed).contains(k) by {
        if p.rows.contains_key(k) && !is_observed(observed, k[0]) {
            if !order.contains(k) {
                lemma_buried_absent(q, observed, order, order.len(), k);
            }
            lemma_buried_dead(q, observed, order, order.len(), order.index_of(k));
        }
    }
    assert(gone(p.rows, observed) =~= Set::empty());
}

/// Every key is the key of one text.
pub open spec fn single_keys(rows: Map<Seq<Seq<char>>, RowView>) -> bool {
    forall|k: Seq<Seq<char>>| #[trigger] rows.contains_key(k) ==> k.len() == 1
}

/// The keys of the observations that replace what is published, in their
/// order.
pub open spec fn replaced_keys(
    rows: Map<Seq<Seq<char>>, RowView>,
    observed: Seq<ConfigObservation>,
) -> Seq<Seq<char>>
    decreases observed.len(),
{
    if observed.len() == 0 {
        Seq::empty()
    } else {
        let before = replaced_keys(rows, observed.drop_last());
        if replaces(rows, observed.last()) {
            before.push(observed.last().key@)
        } else {
            before
        }
    }
}

/// The published keys of `order` that are observed no more, in that order.
pub open spec fn removed_keys(
    rows: Map<Seq<Seq<char>>, RowView>,
    observed: Seq<ConfigObservation>,
    order: Seq<Seq<Seq<char>>>,
) -> Seq<Seq<char>>
    decreases order.len(),
{
    if order.len() == 0 {
        Seq::empty()
    } else {
        let before = removed_keys(rows, observed, order.drop_last());
        let k = order.last();
        if rows.contains_key(k) && rows[k].body is Some && !is_observed(observed, k[0]) {
            before.push(k[0])
        } else {
            before
        }
    }
}

/// The row of each changed key carries a generation of its own, counted up
/// from `counter` in the order of the changes.
pub open spec fn numbered(p: Publication, counter: int) -> bool {
    &&& p.counter == counter + p.changed.len()
    &&& forall|i: int|
        #![trigger p.changed[i]]
        0 <= i < p.changed.len() ==> p.rows.contains_key(table::k1(p.changed[i]))
            && p.rows[table::k1(p.changed[i])].generation == counter + 1 + i
}

/// Rows of keys that did not change are those that were there.
pub open spec fn else_kept(rows: Map<Seq<Seq<char>>, RowView>, p: Publication) -> bool {
    forall|k: Seq<Seq<char>>| #[trigger]
        p.rows.contains_key(k) && !p.changed.contains(k[0]) ==> rows.contains_key(k) && p.rows[k]
            == rows[k]
}

proof fn lemma_single(k: Seq<Seq<char>>)
    requires
        k.len() == 1,
    ensures
        k == table::k1(k[0]),
{
    assert(k =~= table::k1(k[0]));
}

proof fn lemma_observed_changes(
    rows: Map<Seq<Seq<char>>, RowView>,
    counter: int,
    observed: Seq<ConfigObservation>,
    n: nat,
)
    requires
        single_keys(rows),
        distinct(observed),
        n <= observed.len(),
    ensures
        ({
            let p = Publication { rows, counter, changed: Seq::empty() };
            let q = observed_first(p, observed, n);
            &&& single_keys(q.rows)
            &&& q.changed == replaced_keys(rows, observed.take(n as int))
            &&& numbered(q, counter)
            &&& else_kept(rows, q)
            &&& forall|k: Seq<Seq<char>>| #[trigger] rows.contains_key(k) ==> q.rows.contains_key(k)
            &&& forall|i: int|
                0 <= i < n ==> q.rows.contains_key(table::k1((#[trigger] observed[i]).key@))
            &&& forall|i: int|
                n <= i < observed.len() ==> !q.changed.contains((#[trigger] observed[i]).key@)
            &&& forall|i: int|
                #![trigger q.changed[i]]
                0 <= i < q.changed.len() ==> is_observed(observed, q.changed[i])
        }),
    decreases n,
{
    let p = Publication { rows, counter, changed: Seq::empty() };
    if n == 0 {
        assert(observed.take(0) =~= Seq::empty());
    } else {
        lemma_observed_changes(rows, counter, observed, (n - 1) as nat);
        let before = observed_first(p, observed, (n - 1) as nat);
        let o = observed[n - 1];
        let q = observed_first(p, observed, n);
        let key = table::k1(o.key@);
        assert(key[0] == o.key@);
        assert(observed.take(n as int).drop_last() =~= observed.take(n - 1));
        assert(!before.changed.contains(o.key@));
        assert(replaces(before.rows, o) == replaces(rows, o));
        assert forall|i: int|
            #![trigger q.changed[i]]
            0 <= i < q.changed.len() implies is_observed(observed, q.changed[i])
            && q.rows.contains_key(table::k1(q.changed[i]))
            && q.rows[table::k1(q.changed[i])].generation == counter + 1 + i by {
            if i < before.changed.len() {
                assert(q.changed[i] == before.changed[i]);
                assert(before.changed.contains(before.changed[i]));
                table::lemma_k1(before.changed[i], o.key@);
            } else {
                assert(observed[n - 1].key@ == q.changed[i]);
            }
        }
        assert forall|k: Seq<Seq<char>>| #[trigger]
            q.rows.contains_key(k) && !q.changed.contains(k[0]) implies rows.contains_key(k)
            && q.rows[k] == rows[k] by {
            if replaces(before.rows, o) {
                assert(q.changed[before.changed.len() as int] == o.key@);
                assert(k != key);
                if before.changed.contains(k[0]) {
                    let i = before.changed.index_of(k[0]);
                    assert(q.changed[i] == k[0]);
                }
            }
        }
        assert forall|i: int| n <= i < observed.len() implies !q.changed.contains(
            (#[trigger] observed[i]).key@,
        ) by {
            if q.changed.contains(observed[i].key@) {
                let j = q.changed.index_of(observed[i].key@);
                if j < before.changed.len() {
                    assert(before.changed[j] == q.changed[j]);
                    assert(before.changed.contains(observed[i].key@));
                } else {
                    assert(observed[n - 1].key@ == observed[i].key@);
                }
            }
        }
    }
}

proof fn lemma_buried_changes(
    rows: Map<Seq<Seq<char>>, RowView>,
    counter: int,
    observed: Seq<ConfigObservation>,
    order: Seq<Seq<Seq<char>>>,
    n: nat,
)
    requires
        single_keys(rows),
        distinct(observed),
        order_fits(rows, counter, observed, order),
        n <= order.len(),
    ensures
        ({
            let p = Publication { rows, counter, changed: Seq::empty() };
            let q = observed_first(p, observed, observed.len());
            let r = buried_first(q, observed, order, n);
            &&& single_keys(r.rows)
            &&& r.rows.dom() == q.rows.dom()
            &&& r.changed == q.changed + removed_keys(rows, observed, order.take(n as int))
            &&& numbered(r, counter)
            &&& else_kept(rows, r)
            &&& forall|i: int|
                n <= i < order.len() && !is_observed(observed, (#[trigger] order[i])[0])
                    ==> !r.changed.contains(order[i][0])
            &&& forall|i: int|
                0 <= i < n && !is_observed(observed, (#[trigger] order[i])[0]) ==> rows.contains_key(
                    order[i],
                ) && r.rows[order[i]] == buried(rows[order[i]], r.rows[order[i]].generation)
        }),
    decreases n,
{
    let p = Publication { rows, counter, changed: Seq::empty() };
    let q = observed_first(p, observed, observed.len());
    lemma_observed_changes(rows, counter, observed, observed.len());
    table::lemma_sorted_unique(order);
    if n == 0 {
        assert(order.take(0) =~= Seq::empty());
        assert(q.changed + Seq::<Seq<char>>::empty() =~= q.changed);
        assert forall|i: int|
            0 <= i < order.len() && !is_observed(observed, (#[trigger] order[i])[0]) implies !q.changed.contains(
            order[i][0],
        ) by {
            if q.changed.contains(order[i][0]) {
                let j = q.changed.index_of(order[i][0]);
                assert(is_observed(observed, q.changed[j]));
            }
        }
    } else {
        lemma_buried_changes(rows, counter, observed, order, (n - 1) as nat);
        let before = buried_first(q, observed, order, (n - 1) as nat);
        let r = buried_first(q, observed, order, n);
        let k = order[n - 1];
        assert(order.contains(k));
        assert(q.rows.dom().contains(k));
        assert(before.rows.contains_key(k));
        lemma_single(k);
        assert(order.take(n as int).drop_last() =~= order.take(n - 1));
        assert(order.take(n as int).last() == k);
        assert(r.rows.dom() =~= q.rows.dom());
        let removed = removed_keys(rows, observed, order.take(n as int));
        let head = removed_keys(rows, observed, order.take(n - 1));
        if !is_observed(observed, k[0]) {
            assert(!before.changed.contains(k[0]));
            assert(before.rows[k] == rows[k]);
        }
        assert(r.changed =~= q.changed + removed);
        assert forall|i: int|
            #![trigger r.changed[i]]
            0 <= i < r.changed.len() implies r.rows.contains_key(table::k1(r.changed[i]))
            && r.rows[table::k1(r.changed[i])].generation == counter + 1 + i by {
            if i < before.changed.len() {
                assert(r.changed[i] == before.changed[i]);
                assert(before.changed.contains(before.changed[i]));
                table::lemma_k1(before.changed[i], k[0]);
            }
        }
        assert forall|l: Seq<Seq<char>>| #[trigger]
            r.rows.contains_key(l) && !r.changed.contains(l[0]) implies rows.contains_key(l)
            && r.rows[l] == rows[l] by {
            assert(q.rows.dom().contains(l));
            assert(before.rows.contains_key(l));
            if before.changed.contains(l[0]) {
                let i = before.changed.index_of(l[0]);
                assert(r.changed[i] == l[0]);
            }
            if r.changed.len() > before.changed.len() {
                assert(r.changed[before.changed.len() as int] == k[0]);
            }
        }
        assert forall|i: int|
            n <= i < order.len() && !is_observed(observed, (#[trigger] order[i])[0]) implies !r.changed.contains(
            order[i][0],
        ) by {
            if r.changed.contains(order[i][0]) {
                let j = r.changed.index_of(order[i][0]);
                if j < before.changed.len() {
                    assert(before.changed[j] == r.changed[j]);
                    assert(before.changed.contains(order[i][0]));
                } else {
                    assert(order.contains(order[i]));
                    assert(q.rows.contains_key(order[i]));
                    lemma_single(order[i]);
                    assert(order[i] == k);
                }
            }
        }
        assert forall|i: int|
            0 <= i < n && !is_observed(observed, (#[trigger] order[i])[0]) implies rows.contains_key(
            order[i],
        ) && r.rows[order[i]] == buried(rows[order[i]], r.rows[order[i]].generation) by {
            if i < n - 1 {
                assert(order[i] != k);
            }
        }
    }
}

/// What becomes of a row whose key is observed no more, under a generation: a
/// tombstone.
pub open spec fn buried(row: RowView, generation: int) -> RowView {
    RowView { generation, body: None, ..row }
}

proof fn lemma_observed_kept(
    rows: Map<Seq<Seq<char>>, RowView>,
    counter: int,
    observed: Seq<ConfigObservation>,
    n: nat,
)
    requires
        single_keys(rows),
        n <= observed.len(),
    ensures
        ({
            let p = Publication { rows, counter, changed: Seq::empty() };
            let q = observed_first(p, observed, n);
            &&& q.counter == counter + q.changed.len()
            &&& else_kept(rows, q)
            &&& forall|k: Seq<Seq<char>>| #[trigger]
                q.rows.contains_key(k) ==> k.len() == 1 && (rows.contains_key(k) || is_observed(
                    observed,
                    k[0],
                ))
            &&& forall|k: Seq<Seq<char>>| #[trigger] rows.contains_key(k) ==> q.rows.contains_key(k)
            &&& forall|i: int|
                0 <= i < n ==> q.rows.contains_key(table::k1((#[trigger] observed[i]).key@))
        }),
    decreases n,
{
    if n > 0 {
        lemma_observed_kept(rows, counter, observed, (n - 1) as nat);
        let p = Publication { rows, counter, changed: Seq::empty() };
        let before = observed_first(p, observed, (n - 1) as nat);
        let q = observed_first(p, observed, n);
        let o = observed[n - 1];
        assert(table::k1(o.key@)[0] == o.key@);
        assert(is_observed(observed, o.key@));
        assert forall|k: Seq<Seq<char>>| #[trigger]
            q.rows.contains_key(k) && !q.changed.contains(k[0]) implies rows.contains_key(k)
            && q.rows[k] == rows[k] by {
            if replaces(before.rows, o) {
                assert(q.changed[before.changed.len() as int] == o.key@);
                if before.changed.contains(k[0]) {
                    assert(q.changed[before.changed.index_of(k[0])] == k[0]);
                }
            }
        }
    }
}

proof fn lemma_buried_kept(
    rows: Map<Seq<Seq<char>>, RowView>,
    counter: int,
    q: Publication,
    observed: Seq<ConfigObservation>,
    order: Seq<Seq<Seq<char>>>,
    n: nat,
)
    requires
        q.counter == counter + q.changed.len(),
        else_kept(rows, q),
        n <= order.len(),
        forall|i: int| 0 <= i < order.len() ==> q.rows.contains_key(#[trigger] order[i]),
    ensures
        ({
            let r = buried_first(q, observed, order, n);
            &&& r.counter == counter + r.changed.len()
            &&& else_kept(rows, r)
            &&& r.rows.dom() == q.rows.dom()
        }),
    decreases n,
{
    if n > 0 {
        lemma_buried_kept(rows, counter, q, observed, order, (n - 1) as nat);
        let before = buried_first(q, observed, order, (n - 1) as nat);
        let r = buried_first(q, observed, order, n);
        let k = order[n - 1];
        assert(q.rows.dom().contains(k));
        assert(before.rows.contains_key(k));
        assert(r.rows.dom() =~= q.rows.dom());
        assert forall|l: Seq<Seq<char>>| #[trigger]
            r.rows.contains_key(l) && !r.changed.contains(l[0]) implies rows.contains_key(l)
            && r.rows[l] == rows[l] by {
            if r.changed.len() > before.changed.len() {
                assert(r.changed[before.changed.len() as int] == k[0]);
                if before.changed.contains(l[0]) {
                    assert(r.changed[before.changed.index_of(l[0])] == l[0]);
                }
            }
            assert(before.rows.contains_key(l));
        }
    }
}

/// No key is ever lost and only observed ones are added, rows of keys that did
/// not change stay as they are, and where nothing changed nothing moves.
pub proof fn law_stamping_loses_no_key(
    rows: Map<Seq<Seq<char>>, RowView>,
    counter: int,
    observed: Seq<ConfigObservation>,
    order: Seq<Seq<Seq<char>>>,
)
    requires
        single_keys(rows),
        order_fits(rows, counter, observed, order),
    ensures
        ({
            let r = stamped(rows, counter, observed, order);
            &&& r.counter == counter + r.changed.len()
            &&& else_kept(rows, r)
            &&& r.changed.len() == 0 ==> r.rows == rows
            &&& forall|k: Seq<Seq<char>>| #[trigger]
                r.rows.contains_key(k) <==> rows.contains_key(k) || (k.len() == 1 && is_observed(
                    observed,
                    k[0],
                ))
        }),
{
    let p = Publication { rows, counter, changed: Seq::empty() };
    let q = observed_first(p, observed, observed.len());
    let r = stamped(rows, counter, observed, order);
    lemma_observed_kept(rows, counter, observed, observed.len());
    assert forall|i: int| 0 <= i < order.len() implies q.rows.contains_key(#[trigger] order[i]) by {
        assert(order.contains(order[i]));
    }
    lemma_buried_kept(rows, counter, q, observed, order, order.len());
    assert forall|k: Seq<Seq<char>>| #[trigger] r.rows.contains_key(k) <==> rows.contains_key(k) || (
    k.len() == 1 && is_observed(observed, k[0])) by {
        assert(q.rows.dom().contains(k) <==> r.rows.dom().contains(k));
        if k.len() == 1 && is_observed(observed, k[0]) {
            lemma_single(k);
            let i = choose|i: int| 0 <= i < observed.len() && (#[trigger] observed[i]).key@ == k[0];
            assert(q.rows.contains_key(table::k1(observed[i].key@)));
        }
    }
    if r.changed.len() == 0 {
        assert forall|k: Seq<Seq<char>>| #[trigger] rows.contains_key(k) == r.rows.contains_key(k) by {
            if r.rows.contains_key(k) {
                assert(!r.changed.contains(k[0]));
            }
        }
        assert(r.rows =~= rows);
    }
}

/// What stamping changes, exactly: the keys of the observations that replace
/// what is published, in their order, then the published keys that are
/// observed no more, by key. Each changed row gets the next generation.
pub proof fn law_what_stamping_changes(
    rows: Map<Seq<Seq<char>>, RowView>,
    counter: int,
    observed: Seq<ConfigObservation>,
    order: Seq<Seq<Seq<char>>>,
)
    requires
        single_keys(rows),
        distinct(observed),
        order_fits(rows, counter, observed, order),
    ensures
        ({
            let r = stamped(rows, counter, observed, order);
            &&& r.changed == replaced_keys(rows, observed) + removed_keys(rows, observed, order)
            &&& numbered(r, counter)
        }),
{
    lemma_observed_changes(rows, counter, observed, observed.len());
    lemma_buried_changes(rows, counter, observed, order, order.len());
    assert(observed.take(observed.len() as int) =~= observed);
    assert(order.take(order.len() as int) =~= order);
}

/// A published key that is observed no more is among the changes and becomes
/// a tombstone above every earlier generation, once: a tombstone that is not
/// observed stays as it is.
pub proof fn law_a_removed_key_is_buried_once(
    rows: Map<Seq<Seq<char>>, RowView>,
    counter: int,
    observed: Seq<ConfigObservation>,
    order: Seq<Seq<Seq<char>>>,
    key: Seq<Seq<char>>,
)
    requires
        single_keys(rows),
        distinct(observed),
        order_fits(rows, counter, observed, order),
        rows.contains_key(key),
        !is_observed(observed, key[0]),
    ensures
        ({
            let r = stamped(rows, counter, observed, order);
            if rows[key].body is Some {
                &&& r.changed.contains(key[0])
                &&& r.rows[key] == buried(rows[key], r.rows[key].generation)
                &&& r.rows[key].generation > counter
            } else {
                !r.changed.contains(key[0]) && r.rows[key] == rows[key]
            }
        }),
{
    let r = stamped(rows, counter, observed, order);
    let p = Publication { rows, counter, changed: Seq::empty() };
    let q = observed_first(p, observed, observed.len());
    lemma_observed_changes(rows, counter, observed, observed.len());
    lemma_buried_changes(rows, counter, observed, order, order.len());
    assert(q.rows.contains_key(key));
    assert(order.contains(key));
    let i = choose|i: int| 0 <= i < order.len() && order[i] == key;
    assert(order.take(order.len() as int) =~= order);
    lemma_removed_has(rows, observed, order, key);
    let removed = removed_keys(rows, observed, order);
    lemma_single(key);
    assert(r.rows.dom().contains(key));
    if rows[key].body is Some {
        let j = removed.index_of(key[0]);
        assert(r.changed[q.changed.len() + j] == key[0]);
        assert(order[i] == key);
    } else if r.changed.contains(key[0]) {
        let j = r.changed.index_of(key[0]);
        if j < q.changed.len() {
            assert(is_observed(observed, q.changed[j]));
        } else {
            assert(removed[j - q.changed.len()] == key[0]);
        }
    }
}

proof fn lemma_removed_has(
    rows: Map<Seq<Seq<char>>, RowView>,
    observed: Seq<ConfigObservation>,
    order: Seq<Seq<Seq<char>>>,
    key: Seq<Seq<char>>,
)
    requires
        single_keys(rows),
        rows.contains_key(key),
        !is_observed(observed, key[0]),
    ensures
        removed_keys(rows, observed, order).contains(key[0]) <==> order.contains(key)
            && rows[key].body is Some,
    decreases order.len(),
{
    if order.len() > 0 {
        let head = order.drop_last();
        let before = removed_keys(rows, observed, head);
        let all = removed_keys(rows, observed, order);
        lemma_removed_has(rows, observed, head, key);
        lemma_single(key);
        assert(order.contains(key) <==> head.contains(key) || order.last() == key) by {
            if order.contains(key) {
                let i = choose|i: int| 0 <= i < order.len() && order[i] == key;
                if i < head.len() {
                    assert(head[i] == key);
                }
            }
            if head.contains(key) {
                let i = choose|i: int| 0 <= i < head.len() && head[i] == key;
                assert(order[i] == key);
            }
        }
        assert(all.contains(key[0]) <==> before.contains(key[0]) || (all.len() > before.len()
            && order.last()[0] == key[0])) by {
            if all.contains(key[0]) {
                let i = all.index_of(key[0]);
                if i < before.len() {
                    assert(before[i] == key[0]);
                }
            }
            if before.contains(key[0]) {
                let i = before.index_of(key[0]);
                assert(all[i] == key[0]);
            }
            if all.len() > before.len() {
                assert(all[before.len() as int] == order.last()[0]);
            }
        }
        if all.len() > before.len() && order.last()[0] == key[0] {
            lemma_single(order.last());
        }
    }
}

/// What is above the old counter after a stamping is exactly what it changed,
/// in the order it changed it, under consecutive generations; nothing is above
/// the new counter.
pub proof fn law_what_is_above_is_what_changed(
    rows: Map<Seq<Seq<char>>, RowView>,
    counter: u64,
    observed: Seq<ConfigObservation>,
    table: Table<PublishedRow>,
    entries: Seq<StampedEntry>,
    at: Seq<int>,
)
    requires
        single_keys(rows),
        forall|k: Seq<Seq<char>>| #[trigger]
            rows.contains_key(k) ==> rows[k].generation <= counter,
        distinct(observed),
        table.wf(),
        order_fits(rows, counter as int, observed, table.order()),
        rows_view(table) == stamped(rows, counter as int, observed, table.order()).rows,
        are_above(table, counter, entries, at),
    ensures
        ({
            let r = stamped(rows, counter as int, observed, table.order());
            &&& entries.len() == r.changed.len()
            &&& forall|i: int|
                0 <= i < entries.len() ==> (#[trigger] entries[i]).key@ == r.changed[i]
                    && entries[i].generation == counter + 1 + i
            &&& forall|since: u64, later: Seq<StampedEntry>, places: Seq<int>|
                since >= r.counter && #[trigger] are_above(table, since, later, places)
                    ==> later.len() == 0
        }),
{
    let order = table.order();
    let r = stamped(rows, counter as int, observed, order);
    law_what_stamping_changes(rows, counter as int, observed, order);
    law_stamping_loses_no_key(rows, counter as int, observed, order);
    table::lemma_sorted_unique(order);
    assert forall|i: int| 0 <= i < order.len() implies generation_fits(
        r,
        counter as int,
        #[trigger] order[i],
        table.values@[i].generation as int,
    ) by {
        lemma_row_generation(rows, counter as int, observed, table, i);
    }
    assert forall|i: int| 0 <= i < r.changed.len() implies is_among(
        entries,
        #[trigger] r.changed[i],
        counter + 1 + i,
    ) by {
        let k = table::k1(r.changed[i]);
        assert(r.rows.contains_key(k));
        assert(table@.contains_key(k));
        let j = choose|j: int| 0 <= j < order.len() && order[j] == k;
        assert(generation_fits(r, counter as int, order[j], table.values@[j].generation as int));
        table::lemma_row_at(order, table.values@, j);
        assert(rows_view(table)[k] == table.values@[j]@);
        assert(table.values@[j].generation == counter + 1 + i);
        assert(at.contains(j));
        let n = choose|n: int| 0 <= n < at.len() && at[n] == j;
        assert(is_entry(table, entries[n], at[n]));
    }
    assert forall|i: int| 0 <= i < order.len() implies (#[trigger] order[i]).len() == 1 by {
        table::lemma_row_at(order, table.values@, i);
        assert(r.rows.contains_key(order[i]));
    }
    lemma_consecutive(table, counter, r, entries, at, entries.len() as int);
    assert forall|since: u64, later: Seq<StampedEntry>, places: Seq<int>|
        since >= r.counter && #[trigger] are_above(table, since, later, places) implies later.len()
        == 0 by {
        if later.len() > 0 {
            let j = places[0];
            assert(0 <= j < table.values@.len() && table.values@[j].generation > since);
            assert(generation_fits(r, counter as int, order[j], table.values@[j].generation as int));
        }
    }
}

/// A row above `counter` is that of a change, under the generation of it.
spec fn generation_fits(r: Publication, counter: int, k: Seq<Seq<char>>, g: int) -> bool {
    g <= counter || (counter < g <= counter + r.changed.len() && r.changed[g - counter - 1] == k[0])
}

/// One of the entries is of the key and the generation.
spec fn is_among(entries: Seq<StampedEntry>, key: Seq<char>, g: int) -> bool {
    exists|n: int|
        0 <= n < entries.len() && (#[trigger] entries[n]).key@ == key && entries[n].generation == g
}

proof fn lemma_row_generation(
    rows: Map<Seq<Seq<char>>, RowView>,
    counter: int,
    observed: Seq<ConfigObservation>,
    table: Table<PublishedRow>,
    i: int,
)
    requires
        single_keys(rows),
        forall|k: Seq<Seq<char>>| #[trigger]
            rows.contains_key(k) ==> rows[k].generation <= counter,
        distinct(observed),
        table.wf(),
        order_fits(rows, counter, observed, table.order()),
        rows_view(table) == stamped(rows, counter, observed, table.order()).rows,
        0 <= i < table.order().len(),
    ensures
        generation_fits(
            stamped(rows, counter, observed, table.order()),
            counter,
            table.order()[i],
            table.values@[i].generation as int,
        ),
{
    let order = table.order();
    let r = stamped(rows, counter, observed, order);
    let k = order[i];
    law_what_stamping_changes(rows, counter, observed, order);
    law_stamping_loses_no_key(rows, counter, observed, order);
    table::lemma_row_at(order, table.values@, i);
    assert(rows_view(table).contains_key(k));
    assert(rows_view(table)[k] == table.values@[i]@);
    assert(r.rows.contains_key(k));
    if r.changed.contains(k[0]) {
        let j = r.changed.index_of(k[0]);
        lemma_single(k);
        assert(r.rows[table::k1(r.changed[j])].generation == counter + 1 + j);
    }
}

proof fn lemma_consecutive(
    table: Table<PublishedRow>,
    counter: u64,
    r: Publication,
    entries: Seq<StampedEntry>,
    at: Seq<int>,
    n: int,
)
    requires
        are_above(table, counter, entries, at),
        table.wf(),
        forall|i: int|
            0 <= i < table.order().len() ==> generation_fits(
                r,
                counter as int,
                #[trigger] table.order()[i],
                table.values@[i].generation as int,
            ),
        forall|i: int|
            0 <= i < r.changed.len() ==> is_among(entries, #[trigger] r.changed[i], counter + 1 + i),
        table.order().no_duplicates(),
        forall|i: int|
            0 <= i < table.order().len() ==> (#[trigger] table.order()[i]).len() == 1,
        0 <= n <= entries.len(),
    ensures
        n <= r.changed.len(),
        n == entries.len() ==> n == r.changed.len(),
        forall|i: int|
            0 <= i < n ==> (#[trigger] entries[i]).key@ == r.changed[i] && entries[i].generation
                == counter + 1 + i,
    decreases n,
{
    let order = table.order();
    if n > 0 {
        let m = n - 1;
        lemma_consecutive(table, counter, r, entries, at, m);
        let a = at[m];
        assert(is_entry(table, entries[m], a));
        let g = table.values@[a].generation as int;
        assert(generation_fits(r, counter as int, order[a], g));
        assert(g > counter);
        if m > 0 {
            let b = at[m - 1];
            assert(comes_before(table, b, a));
            assert(is_entry(table, entries[m - 1], b));
            assert(generation_fits(r, counter as int, order[b], table.values@[b].generation as int));
            if table.values@[b].generation == g {
                lemma_single(order[a]);
                lemma_single(order[b]);
                assert(order[a] == order[b]);
            }
        }
        assert(g >= counter + 1 + m);
        assert(m < r.changed.len());
        assert(is_among(entries, r.changed[m], counter + 1 + m));
        let q = choose|q: int|
            0 <= q < entries.len() && (#[trigger] entries[q]).key@ == r.changed[m]
                && entries[q].generation == counter + 1 + m;
        assert(is_entry(table, entries[q], at[q]));
        if q < m {
            assert(entries[q].generation == counter + 1 + q);
        } else if q > m {
            assert(comes_before(table, a, at[q]));
        }
        assert(g == counter + 1 + m);
    }
    if n == entries.len() && n < r.changed.len() {
        assert(is_among(entries, r.changed[n], counter + 1 + n));
    }
}

/// An observation is taken exactly where its key is new or buried, or its
/// content differs and it is not of an older version. It then gets the next
/// generation; one that is not taken changes nothing.
pub proof fn law_when_an_observation_is_taken(p: Publication, o: ConfigObservation)
    ensures
        ({
            let key = seq![o.key@];
            let row = p.rows[key];
            let taken = !p.rows.contains_key(key) || row.body is None || (row.digest != o.digest@
                && o.natural_version >= row.natural_version);
            let q = observed_one(p, o);
            &&& taken ==> q.counter == p.counter + 1 && q.changed == p.changed.push(o.key@)
                && q.rows == p.rows.insert(
                key,
                RowView {
                    generation: p.counter + 1,
                    natural_version: o.natural_version as int,
                    digest: o.digest@,
                    body: Some(o.body@),
                },
            )
            &&& !taken ==> q == p
        }),
{
}

/// A key that is published and was not observed is buried: its body goes, under
/// the next generation, and its version and digest stay. Every other key stays.
pub proof fn law_when_a_key_is_buried(
    p: Publication,
    observed: Seq<ConfigObservation>,
    key: Seq<Seq<char>>,
)
    ensures
        ({
            let row = p.rows[key];
            let goes = row.body is Some && forall|i: int|
                0 <= i < observed.len() ==> (#[trigger] observed[i]).key@ != key[0];
            let q = buried_one(p, observed, key);
            &&& goes ==> q.counter == p.counter + 1 && q.changed == p.changed.push(key[0]) && q.rows
                == p.rows.insert(
                key,
                RowView {
                    generation: p.counter + 1,
                    natural_version: row.natural_version,
                    digest: row.digest,
                    body: None,
                },
            )
            &&& !goes ==> q == p
        }),
{
}

/// A stamping that changed nothing is answered at once. One that changed
/// something is written under the lock where nobody stamped meanwhile; else it
/// starts again, and the third time it keeps the lock.
pub proof fn law_how_a_stamping_goes_on(lost: usize, event: StampEvent)
    requires
        lost < 3,
    ensures
        event is Stamped && event->changed == 0 ==> next_of(lost, event) == (
            lost,
            StampStep::Answer,
        ),
        event is Stamped && event->changed > 0 ==> next_of(lost, event) == (lost, StampStep::Lock),
        event is Locked && event->read == event->now ==> next_of(lost, event) == (
            lost,
            StampStep::Write,
        ),
        event is Locked && event->read != event->now && lost < 2 ==> next_of(lost, event) == (
            (lost + 1) as usize,
            StampStep::Again,
        ),
        event is Locked && event->read != event->now && lost == 2 ==> next_of(lost, event) == (
            3usize,
            StampStep::StampLocked,
        ),
{
}

} // verus!
