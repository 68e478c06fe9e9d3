//! Counters of the asynchronous dispatcher. Every label value is a fixed
//! text: no tenant, function or invocation is named.

use vstd::prelude::*;

use crate::metrics::tally;
use crate::metrics::tally::Tally;

verus! {

/// Outcomes of one delivery.
pub const DELIVERY_OUTCOMES: [&'static str; 10] = [
    "completed",
    "rescheduled",
    "dead_lettered",
    "skipped_terminal",
    "skipped_stale",
    "skipped_claimed",
    "not_due",
    "poison",
    "failed",
    "lost_claim",
];

/// Queue operations.
pub const QUEUE_OPERATIONS: [&'static str; 3] = ["ack", "nak", "term"];

/// Kinds of scheduled next tries.
pub const RETRY_KINDS: [&'static str; 2] = ["retry", "deferral"];

/// Dead-letter reasons.
pub const DEAD_LETTER_REASONS: [&'static str; 6] = [
    "non_retryable",
    "attempts_exhausted",
    "expired",
    "function_deleted",
    "revision_unavailable",
    "poison",
];

/// Reaper actions.
pub const REAPER_ACTIONS: [&'static str; 5] = [
    "abandoned",
    "republished",
    "dead_lettered",
    "lost",
    "failed",
];

/// The counters.
pub struct AsyncDispatchMetrics {
    /// By outcome.
    pub deliveries: Tally,
    /// By operation and result.
    pub queue_operations: Tally,
    /// By kind.
    pub retries: Tally,
    /// By reason.
    pub dead_letters: Tally,
    pub redrives: u64,
    /// By action.
    pub reaper: Tally,
    pub in_flight: u64,
}

/// A copy for rendering.
pub struct AsyncDispatchSnapshot {
    pub deliveries: Tally,
    pub queue_operations: Tally,
    pub retries: Tally,
    pub dead_letters: Tally,
    pub redrives: u64,
    pub reaper: Tally,
    pub in_flight: u64,
}

impl AsyncDispatchSnapshot {
    /// The counters are tallies.
    pub open spec fn wf(&self) -> bool {
        self.deliveries.wf() && self.queue_operations.wf() && self.retries.wf()
            && self.dead_letters.wf() && self.reaper.wf()
    }
}

/// A tally that counted `n` more under two labels.
pub open spec fn bumped(
    before: Tally,
    after: Tally,
    first: Seq<char>,
    second: Seq<char>,
    n: nat,
) -> bool {
    forall|a: Seq<char>, b: Seq<char>| #[trigger]
        after.count(a, b) == if a == first && b == second {
            tally::grown(before.count(a, b), n)
        } else {
            before.count(a, b)
        }
}

/// The label of a call of the queue that went well, or not.
pub open spec fn result_of(ok: bool) -> Seq<char> {
    if ok {
        "ok"@
    } else {
        "error"@
    }
}

/// The label of a next try: a retry where it counts as an attempt.
pub open spec fn kind_of_retry(counted: bool) -> Seq<char> {
    if counted {
        "retry"@
    } else {
        "deferral"@
    }
}

/// One run more; the gauge wraps around.
pub open spec fn one_more(n: u64) -> u64 {
    if n == u64::MAX {
        0
    } else {
        (n + 1) as u64
    }
}

/// One run less; the gauge wraps around.
pub open spec fn one_less(n: u64) -> u64 {
    if n == 0 {
        u64::MAX
    } else {
        (n - 1) as u64
    }
}

impl AsyncDispatchMetrics {
    /// The counters are tallies.
    pub open spec fn wf(&self) -> bool {
        self.deliveries.wf() && self.queue_operations.wf() && self.retries.wf()
            && self.dead_letters.wf() && self.reaper.wf()
    }

    /// Nothing counted.
    pub fn new() -> (r: Self)
        ensures
            r.wf(),
            r.redrives == 0,
            r.in_flight == 0,
            r.deliveries.rows@.dom() == Set::<Seq<Seq<char>>>::empty(),
            r.queue_operations.rows@.dom() == Set::<Seq<Seq<char>>>::empty(),
            r.retries.rows@.dom() == Set::<Seq<Seq<char>>>::empty(),
            r.dead_letters.rows@.dom() == Set::<Seq<Seq<char>>>::empty(),
            r.reaper.rows@.dom() == Set::<Seq<Seq<char>>>::empty(),
    {
        let r = AsyncDispatchMetrics {
            deliveries: Tally::new(),
            queue_operations: Tally::new(),
            retries: Tally::new(),
            dead_letters: Tally::new(),
            redrives: 0,
            reaper: Tally::new(),
            in_flight: 0,
        };
        proof {
            assert(r.deliveries.rows@.dom() =~= Set::<Seq<Seq<char>>>::empty());
        }
        r
    }

    /// A delivery was handled.
    pub fn delivery(&mut self, outcome: &str)
        requires
            old(self).wf(),
        ensures
            final(self).wf(),
            bumped(old(self).deliveries, final(self).deliveries, outcome@, ""@, 1),
            *final(self) == (AsyncDispatchMetrics {
                deliveries: final(self).deliveries,
                ..*old(self)
            }),
    {
        self.deliveries.bump(outcome, "", 1);
    }

    /// The queue was called.
    pub fn queue_operation(&mut self, operation: &str, ok: bool)
        requires
            old(self).wf(),
        ensures
            final(self).wf(),
            bumped(
                old(self).queue_operations,
                final(self).queue_operations,
                operation@,
                result_of(ok),
                1,
            ),
            *final(self) == (AsyncDispatchMetrics {
                queue_operations: final(self).queue_operations,
                ..*old(self)
            }),
    {
        let result = if ok {
            "ok"
        } else {
            "error"
        };
        self.queue_operations.bump(operation, result, 1);
    }

    /// A next try was scheduled.
    pub fn retry_scheduled(&mut self, counted: bool)
        requires
            old(self).wf(),
        ensures
            final(self).wf(),
            bumped(
                old(self).retries,
                final(self).retries,
                kind_of_retry(counted),
                ""@,
                1,
            ),
            *final(self) == (AsyncDispatchMetrics { retries: final(self).retries, ..*old(self) }),
    {
        let kind = if counted {
            "retry"
        } else {
            "deferral"
        };
        self.retries.bump(kind, "", 1);
    }

    /// An invocation was dead-lettered.
    pub fn dead_letter(&mut self, reason: &str)
        requires
            old(self).wf(),
        ensures
            final(self).wf(),
            bumped(old(self).dead_letters, final(self).dead_letters, reason@, ""@, 1),
            *final(self) == (AsyncDispatchMetrics {
                dead_letters: final(self).dead_letters,
                ..*old(self)
            }),
    {
        self.dead_letters.bump(reason, "", 1);
    }

    /// A dead letter was redriven.
    pub fn redrive(&mut self)
        ensures
            *final(self) == (AsyncDispatchMetrics {
                redrives: tally::grown(old(self).redrives as nat, 1) as u64,
                ..*old(self)
            }),
    {
        self.redrives = tally::grow(self.redrives, 1);
    }

    /// The reaper did something `n` times. Nothing is counted for zero.
    pub fn reaper(&mut self, action: &str, n: u64)
        requires
            old(self).wf(),
        ensures
            final(self).wf(),
            n == 0 ==> *final(self) == *old(self),
            bumped(old(self).reaper, final(self).reaper, action@, ""@, n as nat),
            *final(self) == (AsyncDispatchMetrics { reaper: final(self).reaper, ..*old(self) }),
    {
        if n == 0 {
            return;
        }
        self.reaper.bump(action, "", n);
    }

    /// A run started.
    pub fn run_started(&mut self)
        ensures
            *final(self) == (AsyncDispatchMetrics {
                in_flight: one_more(old(self).in_flight),
                ..*old(self)
            }),
    {
        self.in_flight = self.in_flight.wrapping_add(1);
    }

    /// A run finished.
    pub fn run_finished(&mut self)
        ensures
            *final(self) == (AsyncDispatchMetrics {
                in_flight: one_less(old(self).in_flight),
                ..*old(self)
            }),
    {
        self.in_flight = self.in_flight.wrapping_sub(1);
    }

    /// A copy for rendering.
    pub fn snapshot(&self) -> (r: AsyncDispatchSnapshot)
        requires
            self.wf(),
        ensures
            r.wf(),
            r.deliveries.rows@ == self.deliveries.rows@,
            r.queue_operations.rows@ == self.queue_operations.rows@,
            r.retries.rows@ == self.retries.rows@,
            r.dead_letters.rows@ == self.dead_letters.rows@,
            r.redrives == self.redrives,
            r.reaper.rows@ == self.reaper.rows@,
            r.in_flight == self.in_flight,
    {
        AsyncDispatchSnapshot {
            deliveries: self.deliveries.copy(),
            queue_operations: self.queue_operations.copy(),
            retries: self.retries.copy(),
            dead_letters: self.dead_letters.copy(),
            redrives: self.redrives,
            reaper: self.reaper.copy(),
            in_flight: self.in_flight,
        }
    }
}

/// A run that started and finished leaves the number of runs as it was.
pub proof fn law_a_finished_run_is_not_in_flight(
    before: AsyncDispatchMetrics,
    running: AsyncDispatchMetrics,
    after: AsyncDispatchMetrics,
)
    requires
        running.in_flight == if before.in_flight == u64::MAX {
            0
        } else {
            before.in_flight + 1
        },
        after.in_flight == if running.in_flight == 0 {
            u64::MAX as int
        } else {
            running.in_flight - 1
        },
    ensures
        after.in_flight == before.in_flight,
{
}

} // verus!
