//! Ledger side of object retention.
//!
//! The object store never decides on its own whether an object may go. The
//! ledger records which invocation references which object, and collection
//! asks it before deleting anything:
//!
//! - attaching records a reference. It is refused when the invocation belongs
//!   to another tenant than the object, and when the object has already been
//!   claimed for collection;
//! - a claim for collection writes a tombstone only when no non-terminal
//!   invocation references the object and, for an orphan sweep, when nothing
//!   references it at all;
//! - an attach of an object that is older than the tombstones are kept is
//!   refused outright, so purging a tombstone never re-opens the race.

use vstd::prelude::*;

use crate::domain::invocation::Invocation;
use crate::repository::outbox::ObjectRef;
use crate::repository::sqlite;
use crate::repository::{RepoError, RepoErrorView};
use crate::text;
use crate::time;
use crate::time::{Span, Timestamp};

verus! {

/// How long a collection tombstone is kept, and the maximum age of an object
/// that can still be attached to an invocation.
pub const TOMBSTONE_RETENTION_DAYS: i64 = 30;

/// Nanoseconds a tombstone is kept.
pub const TOMBSTONE_RETENTION: i128 = 2_592_000_000_000_000;

/// An object is too old to be attached: it was created, in milliseconds,
/// before the horizon of the tombstones.
pub open spec fn too_old(created_at_ms: u64, now: Timestamp) -> bool {
    created_at_ms < time::count(time::after(now, (-TOMBSTONE_RETENTION) as Span)) / 1_000_000
}

/// Whether an object may still be attached.
pub open spec fn attachable_rule(object: Seq<char>, created_at_ms: u64, now: Timestamp) -> Result<
    (),
    RepoErrorView,
> {
    if too_old(created_at_ms, now) {
        Err(
            RepoErrorView::Refused(
                "object "@ + object
                    + " is older than 30 days and can no longer be attached; store it again"@,
            ),
        )
    } else {
        Ok(())
    }
}

/// Refuse attaching an object, created at `created_at_ms`, that is older than
/// the tombstone retention.
pub fn check_attachable(object: &str, created_at_ms: u64, now: Timestamp) -> (r: Result<
    (),
    RepoError,
>)
    requires
        time::in_reach(now, (-TOMBSTONE_RETENTION) as Span),
    ensures
        crate::repository::agrees(r, attachable_rule(object@, created_at_ms, now)),
{
    let limit: i128 = time::nanos_since_epoch(time::plus(now, -TOMBSTONE_RETENTION));
    proof {
        let c = created_at_ms as int;
        assert(c < limit as int / 1_000_000 <==> (c + 1) * 1_000_000 <= limit as int) by {
            lemma_below(c, limit as int);
        }
    }
    if (created_at_ms as i128 + 1) * 1_000_000 <= limit {
        let mut m = text::owned("object ");
        m.append(object);
        m.append(" is older than 30 days and can no longer be attached; store it again");
        return Err(RepoError::Refused(m));
    }
    Ok(())
}

proof fn lemma_below(c: int, limit: int)
    ensures
        c < limit / 1_000_000 <==> (c + 1) * 1_000_000 <= limit,
{
}

/// Why an object is to be collected.
#[derive(Debug, Clone, Copy, PartialEq, Eq, Structural)]
pub enum CollectReason {
    /// Its time has passed.
    Expired,
    /// Older than the orphan grace period and never referenced.
    Orphan,
}

impl CollectReason {
    /// Name of the reason.
    pub open spec fn spec_name(self) -> Seq<char> {
        match self {
            CollectReason::Expired => "expired"@,
            CollectReason::Orphan => "orphan"@,
        }
    }

    /// Name of the reason.
    pub fn as_str(&self) -> (r: &'static str)
        ensures
            r@ == self.spec_name(),
    {
        match self {
            CollectReason::Expired => "expired",
            CollectReason::Orphan => "orphan",
        }
    }
}

/// What a claim for collection comes to.
#[derive(Debug, Clone, Copy, PartialEq, Eq, Structural)]
pub enum CollectDecision {
    /// Tombstoned (now or earlier): delete the files, then forget the object.
    Collect,
    /// A non-terminal invocation references it: keep.
    InUse { invocations: usize },
    /// Some terminal invocation references it, so it is not an orphan.
    Referenced,
}

/// What attaching an object to an invocation comes to, given the reason of a
/// tombstone it may have.
pub open spec fn attach_rule(
    object: ObjectRef,
    invocation: Seq<char>,
    stored: Option<&Invocation>,
    tombstone: Option<Seq<char>>,
) -> Result<(), RepoErrorView> {
    match stored {
        None => Err(sqlite::missing_row("invocation"@, invocation)),
        Some(inv) => if inv.tenant_id@ != object.tenant_id@ {
            Err(
                RepoErrorView::Refused(
                    "object "@ + object.id@ + " belongs to another tenant than invocation "@
                        + invocation,
                ),
            )
        } else if tombstone is Some {
            Err(
                RepoErrorView::Refused(
                    "object "@ + object.id@ + " is being collected ("@ + tombstone->0
                        + "); store it again"@,
                ),
            )
        } else {
            Ok(())
        },
    }
}

/// Whether an object may be attached to an invocation. The reference is to be
/// written unless it exists.
pub fn check_attach(
    object: &ObjectRef,
    invocation: &str,
    stored: Option<&Invocation>,
    tombstone: &Option<String>,
) -> (r: Result<(), RepoError>)
    ensures
        crate::repository::agrees(
            r,
            attach_rule(*object, invocation@, stored, text::opt_view(*tombstone)),
        ),
{
    let inv = match stored {
        Some(i) => i,
        None => return Err(sqlite::missing("invocation", invocation)),
    };
    if !text::same_text(inv.tenant_id.as_str(), object.tenant_id.as_str()) {
        let mut m = text::owned("object ");
        m.append(object.id.as_str());
        m.append(" belongs to another tenant than invocation ");
        m.append(invocation);
        return Err(RepoError::Refused(m));
    }
    if let Some(reason) = tombstone {
        let mut m = text::owned("object ");
        m.append(object.id.as_str());
        m.append(" is being collected (");
        m.append(reason.as_str());
        m.append("); store it again");
        return Err(RepoError::Refused(m));
    }
    Ok(())
}

/// What a claim for collection comes to: `live` references are of invocations
/// that are not terminal, or not in the ledger (which then cannot prove that
/// they finished); `references` counts every one.
pub open spec fn collect_rule(
    tombstoned: bool,
    live: usize,
    references: usize,
    reason: CollectReason,
) -> CollectDecision {
    if tombstoned {
        CollectDecision::Collect
    } else if live > 0 {
        CollectDecision::InUse { invocations: live }
    } else if reason is Orphan && references > 0 {
        CollectDecision::Referenced
    } else {
        CollectDecision::Collect
    }
}

/// Decide a claim for collection. An object that is collected gets its
/// tombstone unless it has one.
pub fn claim_for_collection(
    tombstoned: bool,
    live: usize,
    references: usize,
    reason: CollectReason,
) -> (r: CollectDecision)
    ensures
        r == collect_rule(tombstoned, live, references, reason),
{
    if tombstoned {
        return CollectDecision::Collect;
    }
    if live > 0 {
        return CollectDecision::InUse { invocations: live };
    }
    if reason == CollectReason::Orphan && references > 0 {
        return CollectDecision::Referenced;
    }
    CollectDecision::Collect
}

/// Whichever of an attach and a claim for collection comes first, the other
/// one fails: what was tombstoned is never attached, and what a non-terminal
/// invocation references is never collected.
pub proof fn law_an_attach_and_a_collection_exclude_each_other(
    object: ObjectRef,
    invocation: Seq<char>,
    stored: Option<&Invocation>,
    reason: CollectReason,
    live: usize,
    references: usize,
)
    ensures
        attach_rule(object, invocation, stored, Some(reason.spec_name())) is Err,
        live > 0 ==> collect_rule(false, live, references, reason) == (CollectDecision::InUse {
            invocations: live,
        }),
{
}

/// Purging a tombstone re-opens nothing: an object that was tombstoned after
/// it was created is too old to be attached once the tombstone's retention
/// has passed, but for the millisecond its creation is counted in. A tombstone
/// of a leap second is another matter: its nanoseconds are counted as those of
/// the second after.
pub proof fn law_a_purged_tombstone_reopens_nothing(
    created_at_ms: u64,
    tombstoned_at: Timestamp,
    now: Timestamp,
)
    requires
        (created_at_ms + 1) * 1_000_000 <= time::count(tombstoned_at),
        time::nanos_of(tombstoned_at) < time::SECOND,
        time::in_reach(now, (-TOMBSTONE_RETENTION) as Span),
        tombstoned_at <= time::after(now, (-TOMBSTONE_RETENTION) as Span),
    ensures
        too_old(created_at_ms, now),
{
    lemma_below(
        created_at_ms as int,
        time::count(time::after(now, (-TOMBSTONE_RETENTION) as Span)),
    );
}

} // verus!
