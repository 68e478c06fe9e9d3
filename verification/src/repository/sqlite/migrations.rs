//! Forward-only schema migrations.
//!
//! One row is kept per applied migration. Opening a store applies every
//! pending migration in one transaction and refuses a database whose version
//! is newer than the last one: there is no down migration.
//!
//! Rules for a new migration: append, never edit an applied one; expand
//! first, switch readers and writers in code, and contract only in a later
//! migration once nothing reads what is dropped.

use vstd::prelude::*;

use crate::repository::{RepoError, RepoErrorView};
use crate::text;

verus! {

/// Every step by its version and its name, the oldest first.
pub const MIGRATIONS: [(i64, &'static str); 5] = [
    (1, "initial"),
    (2, "output_retention"),
    (3, "slot_leases"),
    (4, "config_publication"),
    (5, "object_refs"),
];

/// The version of the last step.
pub const LATEST: i64 = 5;

/// One step of the schema.
#[derive(Debug, Clone, Copy, PartialEq, Eq)]
pub struct Migration {
    pub version: i64,
    pub name: &'static str,
}

/// A database that a newer gateway has written.
pub open spec fn too_new(current: int) -> RepoErrorView {
    RepoErrorView::Refused(
        "state.db is at schema version "@ + text::dec_int(current)
            + ", newer than this binary supports ("@ + text::dec_int(LATEST as int)
            + "). Migrations are forward-only: run a newer gateway, or restore the database from before the upgrade"@,
    )
}

/// The steps a database at `current` still needs to get to `target`, and no
/// others.
pub open spec fn is_pending(steps: Seq<Migration>, current: i64, target: i64) -> bool {
    let first = if current < 0 {
        0
    } else {
        current as int
    };
    let last = if target > LATEST {
        LATEST as int
    } else {
        target as int
    };
    &&& steps.len() == if last > first {
        last - first
    } else {
        0
    }
    &&& forall|i: int|
        0 <= i < steps.len() ==> {
            &&& (#[trigger] steps[i]).version == first + i + 1
            &&& steps[i].name@ == MIGRATIONS[first + i].1@
        }
}

/// The steps a database at `current` needs to get to `target`, in their
/// order. A database newer than the last step is refused.
pub fn pending(current: i64, target: i64) -> (r: Result<Vec<Migration>, RepoError>)
    ensures
        r is Err <==> current > LATEST,
        r is Err ==> r->Err_0@ == too_new(current as int),
        r is Ok ==> is_pending(r->Ok_0@, current, target),
{
    if current > LATEST {
        let mut m = text::owned("state.db is at schema version ");
        text::push_i64(&mut m, current);
        m.append(", newer than this binary supports (");
        text::push_i64(&mut m, LATEST);
        m.append(
            "). Migrations are forward-only: run a newer gateway, or restore the database from before the upgrade",
        );
        return Err(RepoError::Refused(m));
    }
    let first: usize = if current < 0 {
        0
    } else {
        current as usize
    };
    let mut steps: Vec<Migration> = Vec::new();
    let mut i: usize = first;
    while i < 5 && (i as i64) < target
        invariant
            first <= i <= 5,
            first == if current < 0 {
                0
            } else {
                current as int
            },
            current <= LATEST,
            i > first ==> i <= target,
            steps@.len() == i - first,
            forall|j: int|
                0 <= j < steps@.len() ==> {
                    &&& (#[trigger] steps@[j]).version == first + j + 1
                    &&& steps@[j].name@ == MIGRATIONS[first + j].1@
                },
        decreases 5 - i,
    {
        let (version, name) = MIGRATIONS[i];
        assert(version == i + 1);
        steps.push(Migration { version, name });
        i += 1;
    }
    Ok(steps)
}

/// A step that the database refused.
pub open spec fn failed_step(step: Migration, words: Seq<char>) -> RepoErrorView {
    RepoErrorView::Store(
        "migration "@ + three_digits(step.version as nat) + "_"@ + step.name@ + " failed: "@
            + words,
    )
}

/// A step that the database refused.
pub fn failed(step: &Migration, words: &str) -> (r: RepoError)
    requires
        0 <= step.version,
    ensures
        r@ == failed_step(*step, words@),
{
    let mut m = text::owned("migration ");
    if step.version < 100 {
        m.append("0");
    }
    if step.version < 10 {
        m.append("0");
    }
    text::push_u64(&mut m, step.version as u64);
    assert(m@ =~= "migration "@ + three_digits(step.version as nat));
    m.append("_");
    m.append(step.name);
    m.append(" failed: ");
    m.append(words);
    RepoError::Store(m)
}

/// A number with at least three digits.
pub open spec fn three_digits(n: nat) -> Seq<char> {
    let tens = if n < 100 {
        "0"@
    } else {
        Seq::empty()
    };
    let ones = if n < 10 {
        "0"@
    } else {
        Seq::empty()
    };
    tens + ones + text::dec(n)
}

/// The versions are contiguous from 1 up to the last one.
pub proof fn law_versions_are_contiguous(i: int)
    requires
        0 <= i < MIGRATIONS@.len(),
    ensures
        MIGRATIONS@[i].0 == i + 1,
        MIGRATIONS@.len() == LATEST,
{
}

/// Migrating in two parts is migrating at once, and a database that is up to
/// date needs nothing.
pub proof fn law_migrating_in_parts(
    current: i64,
    middle: i64,
    first: Seq<Migration>,
    second: Seq<Migration>,
)
    requires
        0 <= current <= middle <= LATEST,
        is_pending(first, current, middle),
        is_pending(second, middle, LATEST),
    ensures
        is_pending(first + second, current, LATEST),
        middle == LATEST ==> second.len() == 0,
{
    let all = first + second;
    assert forall|i: int| 0 <= i < all.len() implies {
        &&& (#[trigger] all[i]).version == current + i + 1
        &&& all[i].name@ == MIGRATIONS[current + i].1@
    } by {
        if i < first.len() {
            assert(all[i] == first[i]);
        } else {
            assert(all[i] == second[i - first.len()]);
        }
    }
}

} // verus!
