//! Which samples of a round measure an idle environment.

use vstd::prelude::*;

use crate::table;
use crate::table::{Key, Table};

verus! {

/// Whether each environment was idle in the last round, by environment.
pub type LastRound = Table<bool>;

/// One environment of a round.
#[derive(Debug, PartialEq, Eq)]
pub struct RoundEntry {
    pub environment: String,
    pub idle: bool,
}

/// The environment was idle in the last round and is idle now.
pub open spec fn stayed_idle(last: Map<Seq<Seq<char>>, bool>, entry: RoundEntry) -> bool {
    let key = table::k1(entry.environment@);
    entry.idle && last.contains_key(key) && last[key]
}

/// What the first `n` entries of a round say, the later ones over the earlier.
pub open spec fn round_of(round: Seq<RoundEntry>, n: nat) -> Map<Seq<Seq<char>>, bool>
    decreases n,
{
    if n == 0 {
        Map::empty()
    } else {
        round_of(round, (n - 1) as nat).insert(
            table::k1(round[n - 1].environment@),
            round[n - 1].idle,
        )
    }
}

/// Take a round of samples. An entry is measured when its environment was
/// idle in both this and the last round; environments missing from the round
/// are forgotten.
pub fn sample_round(last: &mut LastRound, round: &Vec<RoundEntry>) -> (r: Vec<bool>)
    requires
        old(last).wf(),
    ensures
        final(last).wf(),
        final(last)@ == round_of(round@, round@.len()),
        r@.len() == round@.len(),
        forall|i: int|
            0 <= i < round@.len() ==> #[trigger] r@[i] == stayed_idle(old(last)@, round@[i]),
{
    let mut measured: Vec<bool> = Vec::new();
    let mut next: LastRound = Table::new();
    let mut i: usize = 0;
    while i < round.len()
        invariant
            last.wf(),
            *last == *old(last),
            next.wf(),
            i <= round@.len(),
            next@ == round_of(round@, i as nat),
            measured@.len() == i,
            forall|j: int|
                0 <= j < i ==> #[trigger] measured@[j] == stayed_idle(last@, round@[j]),
        decreases round@.len() - i,
    {
        let entry = &round[i];
        let key = Key::one(entry.environment.as_str());
        let was_idle = match last.get(&key) {
            Some(idle) => *idle,
            None => false,
        };
        measured.push(entry.idle && was_idle);
        next.set(key, entry.idle);
        i += 1;
    }
    *last = next;
    measured
}

/// An environment that was not in a round is measured by no later entry until
/// it was idle in a round again.
pub proof fn law_a_missing_environment_is_forgotten(
    round: Seq<RoundEntry>,
    n: nat,
    entry: RoundEntry,
)
    requires
        n <= round.len(),
        forall|i: int| 0 <= i < n ==> (#[trigger] round[i]).environment@ != entry.environment@,
    ensures
        !stayed_idle(round_of(round, n), entry),
    decreases n,
{
    if n > 0 {
        law_a_missing_environment_is_forgotten(round, (n - 1) as nat, entry);
        table::lemma_k1(entry.environment@, round[n - 1].environment@);
    }
}

} // verus!
