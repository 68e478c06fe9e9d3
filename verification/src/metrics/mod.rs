//! Reuse and scaling metrics.
//!
//! Two kinds of numbers end up in the exposition: state that is read when it
//! is asked for, and events that are recorded by the code that makes them
//! happen. The events live in [`Metrics`]: attempts by start kind with their
//! phase durations, boot identity checks, refusals of the invoke gate and
//! dispatcher heartbeats. What is written of both is decided by [`render`].

use vstd::prelude::*;

use crate::domain::invocation::StartKind;
use crate::metrics::tally::Tally;
use crate::table;
use crate::table::{Key, Table};
use crate::text;

pub mod caps;
pub mod catalog;
pub mod count_laws;
pub mod dispatch;
pub mod exposition;
pub mod idle;
pub mod input;
pub mod names;
pub mod order;
pub mod render;
pub mod series;
pub mod shown;
pub mod sorting;
pub mod tally;

verus! {

/// Upper bounds of the histogram buckets, in milliseconds. They separate a
/// warm dispatch (milliseconds), a process cold start (tens to hundreds of
/// milliseconds) and the boot of a machine (seconds).
pub const PHASE_BUCKETS_MS: [u64; 14] = [
    5,
    10,
    25,
    50,
    100,
    250,
    500,
    1000,
    2500,
    5000,
    10000,
    30000,
    60000,
    300000,
];

/// Number of bounds.
pub const PHASE_BOUNDS: usize = 14;

/// Environments whose first boot is remembered.
pub const MAX_TRACKED_BOOTS: usize = 4096;

/// The phases of an attempt.
pub const PHASES: [&'static str; 6] = ["queue_wait", "boot", "init", "resume", "handler", "total"];

/// A histogram over [`PHASE_BUCKETS_MS`].
#[derive(Debug, PartialEq, Eq)]
pub struct Histogram {
    /// Count per bucket, not cumulative; the last slot has no upper bound.
    pub buckets: Vec<u64>,
    /// Milliseconds in all.
    pub sum_ms: u64,
    pub count: u64,
}

/// Content of a histogram.
pub ghost struct HistogramView {
    pub buckets: Seq<u64>,
    pub sum_ms: u64,
    pub count: u64,
}

impl View for Histogram {
    type V = HistogramView;

    open spec fn view(&self) -> HistogramView {
        HistogramView { buckets: self.buckets@, sum_ms: self.sum_ms, count: self.count }
    }
}

/// A histogram that nothing was recorded in.
pub open spec fn empty_histogram() -> HistogramView {
    HistogramView { buckets: Seq::new(15, |i: int| 0u64), sum_ms: 0, count: 0 }
}

/// The bucket of a duration: the first one whose bound it does not exceed.
pub open spec fn is_slot(ms: u64, slot: int) -> bool {
    &&& 0 <= slot <= PHASE_BOUNDS
    &&& slot < PHASE_BOUNDS ==> ms <= PHASE_BUCKETS_MS[slot]
    &&& forall|j: int| 0 <= j < slot ==> ms > #[trigger] PHASE_BUCKETS_MS[j]
}

/// The bucket of a duration.
pub open spec fn slot_of(ms: u64) -> int {
    choose|slot: int| is_slot(ms, slot)
}

/// A histogram with one more duration.
pub open spec fn observed(h: HistogramView, ms: u64) -> HistogramView {
    HistogramView {
        buckets: h.buckets.update(
            slot_of(ms),
            tally::grown(h.buckets[slot_of(ms)] as nat, 1) as u64,
        ),
        sum_ms: tally::grown(h.sum_ms as nat, ms as nat) as u64,
        count: tally::grown(h.count as nat, 1) as u64,
    }
}

/// The bounds ascend, so a duration has one bucket.
proof fn lemma_one_slot(ms: u64, a: int, b: int)
    requires
        is_slot(ms, a),
        is_slot(ms, b),
    ensures
        a == b,
{
    if a < b {
        assert(ms > PHASE_BUCKETS_MS[a]);
    } else if b < a {
        assert(ms > PHASE_BUCKETS_MS[b]);
    }
}

impl Histogram {
    /// One bucket per bound, and one above them.
    pub open spec fn wf(&self) -> bool {
        self.buckets@.len() == 15
    }

    /// Nothing recorded.
    pub fn new() -> (r: Histogram)
        ensures
            r.wf(),
            r@ == empty_histogram(),
    {
        let mut buckets: Vec<u64> = Vec::new();
        let mut i: usize = 0;
        while i < 15
            invariant
                i <= 15,
                buckets@ == Seq::new(i as nat, |j: int| 0u64),
            decreases 15 - i,
        {
            buckets.push(0);
            proof {
                assert(buckets@ =~= Seq::new((i + 1) as nat, |j: int| 0u64));
            }
            i += 1;
        }
        Histogram { buckets, sum_ms: 0, count: 0 }
    }

    /// Record a duration.
    pub fn observe(&mut self, ms: u64)
        requires
            old(self).wf(),
        ensures
            final(self).wf(),
            final(self)@ == observed(old(self)@, ms),
    {
        let mut slot: usize = 0;
        while slot < PHASE_BOUNDS && ms > PHASE_BUCKETS_MS[slot]
            invariant
                slot <= PHASE_BOUNDS,
                forall|j: int| 0 <= j < slot ==> ms > #[trigger] PHASE_BUCKETS_MS[j],
            decreases PHASE_BOUNDS - slot,
        {
            slot += 1;
        }
        proof {
            assert(is_slot(ms, slot as int));
            lemma_one_slot(ms, slot as int, slot_of(ms));
        }
        let n: u64 = tally::grow(self.buckets[slot], 1);
        self.buckets.set(slot, n);
        self.sum_ms = tally::grow(self.sum_ms, ms);
        self.count = tally::grow(self.count, 1);
    }

    /// A copy.
    pub fn copy(&self) -> (r: Histogram)
        ensures
            r@ == self@,
    {
        let buckets = self.buckets.clone();
        assert(buckets@ =~= self.buckets@);
        Histogram { buckets, sum_ms: self.sum_ms, count: self.count }
    }
}

/// How many of the first `n` buckets' counts there are in all.
pub open spec fn total(buckets: Seq<u64>, n: nat) -> nat
    decreases n,
{
    if n == 0 {
        0
    } else {
        total(buckets, (n - 1) as nat) + buckets[n - 1] as nat
    }
}

/// Every recorded duration is in exactly one bucket: while the counts fit, the
/// buckets count what the histogram counts.
pub proof fn law_every_duration_is_in_one_bucket(h: HistogramView, ms: u64)
    requires
        h.buckets.len() == 15,
        total(h.buckets, 15) == h.count,
        h.count < u64::MAX,
    ensures
        observed(h, ms).buckets.len() == 15,
        total(observed(h, ms).buckets, 15) == observed(h, ms).count,
        observed(h, ms).count == h.count + 1,
        total(empty_histogram().buckets, 15) == 0,
{
    lemma_slot_exists(ms);
    let slot = slot_of(ms);
    lemma_total_bound(h.buckets, 15, slot);
    lemma_total_update(h.buckets, 15, slot, (h.buckets[slot] + 1) as u64);
    lemma_total_zero(15);
}

pub(crate) proof fn lemma_slot_exists(ms: u64)
    ensures
        is_slot(ms, slot_of(ms)),
{
    lemma_slot_from(ms, 0);
}

proof fn lemma_slot_from(ms: u64, from: int)
    requires
        0 <= from <= PHASE_BOUNDS,
        forall|j: int| 0 <= j < from ==> ms > #[trigger] PHASE_BUCKETS_MS[j],
    ensures
        exists|slot: int| is_slot(ms, slot),
    decreases PHASE_BOUNDS - from,
{
    if from == PHASE_BOUNDS || ms <= PHASE_BUCKETS_MS[from] {
        assert(is_slot(ms, from));
    } else {
        lemma_slot_from(ms, from + 1);
    }
}

proof fn lemma_total_bound(buckets: Seq<u64>, n: nat, i: int)
    requires
        0 <= i < n <= buckets.len(),
    ensures
        buckets[i] <= total(buckets, n),
    decreases n,
{
    if i < n - 1 {
        lemma_total_bound(buckets, (n - 1) as nat, i);
    }
}

proof fn lemma_total_update(buckets: Seq<u64>, n: nat, i: int, v: u64)
    requires
        0 <= i < buckets.len(),
        n <= buckets.len(),
    ensures
        total(buckets.update(i, v), n) == total(buckets, n) + if i < n {
            v - buckets[i]
        } else {
            0
        },
    decreases n,
{
    if n > 0 {
        lemma_total_update(buckets, (n - 1) as nat, i, v);
    }
}

proof fn lemma_total_zero(n: nat)
    requires
        n <= 15,
    ensures
        total(empty_histogram().buckets, n) == 0,
    decreases n,
{
    if n > 0 {
        lemma_total_zero((n - 1) as nat);
    }
}

/// Label of a start kind.
pub open spec fn kind_label(kind: StartKind) -> Seq<char> {
    match kind {
        StartKind::Cold => "cold"@,
        StartKind::Warm => "warm"@,
        StartKind::Restored => "restored"@,
    }
}

/// Label of a start kind.
pub fn start_kind_label(kind: StartKind) -> (r: &'static str)
    ensures
        r@ == kind_label(kind),
{
    match kind {
        StartKind::Cold => "cold",
        StartKind::Warm => "warm",
        StartKind::Restored => "restored",
    }
}

/// An attempt's boot id compared with the one its environment first reported.
#[derive(Debug, Clone, Copy, PartialEq, Eq, Structural)]
pub enum BootCheck {
    /// The environment's first dispatch: its boot id is remembered.
    FirstBoot,
    /// A later dispatch reported the same boot id: the same guest served it.
    SameBoot,
    /// A later dispatch reported a different boot id: must never happen.
    BootChanged,
    /// No boot id.
    Unreported,
}

impl BootCheck {
    /// Name of the result.
    pub open spec fn spec_name(self) -> Seq<char> {
        match self {
            BootCheck::FirstBoot => "first_boot"@,
            BootCheck::SameBoot => "same_boot"@,
            BootCheck::BootChanged => "boot_changed"@,
            BootCheck::Unreported => "unreported"@,
        }
    }

    /// Name of the result.
    pub fn as_str(&self) -> (r: &'static str)
        ensures
            r@ == self.spec_name(),
    {
        match self {
            BootCheck::FirstBoot => "first_boot",
            BootCheck::SameBoot => "same_boot",
            BootCheck::BootChanged => "boot_changed",
            BootCheck::Unreported => "unreported",
        }
    }
}

/// How often each result of a boot check came.
#[derive(Debug, Clone, Copy, PartialEq, Eq, Structural)]
pub struct BootCounts {
    pub first_boot: u64,
    pub same_boot: u64,
    pub boot_changed: u64,
    pub unreported: u64,
}

impl BootCounts {
    /// The counts after one more result.
    pub open spec fn after(self, check: BootCheck) -> BootCounts {
        match check {
            BootCheck::FirstBoot => BootCounts {
                first_boot: tally::grown(self.first_boot as nat, 1) as u64,
                ..self
            },
            BootCheck::SameBoot => BootCounts {
                same_boot: tally::grown(self.same_boot as nat, 1) as u64,
                ..self
            },
            BootCheck::BootChanged => BootCounts {
                boot_changed: tally::grown(self.boot_changed as nat, 1) as u64,
                ..self
            },
            BootCheck::Unreported => BootCounts {
                unreported: tally::grown(self.unreported as nat, 1) as u64,
                ..self
            },
        }
    }

    fn bump(&mut self, check: BootCheck)
        ensures
            *final(self) == old(self).after(check),
    {
        match check {
            BootCheck::FirstBoot => {
                self.first_boot = tally::grow(self.first_boot, 1);
            },
            BootCheck::SameBoot => {
                self.same_boot = tally::grow(self.same_boot, 1);
            },
            BootCheck::BootChanged => {
                self.boot_changed = tally::grow(self.boot_changed, 1);
            },
            BootCheck::Unreported => {
                self.unreported = tally::grow(self.unreported, 1);
            },
        }
    }
}

/// Host-measured durations of one attempt, in milliseconds.
#[derive(Debug, Clone, Copy, PartialEq, Eq, Structural)]
pub struct AttemptTimings {
    pub queue_wait_ms: Option<u64>,
    pub environment_boot_ms: Option<u64>,
    pub runtime_init_ms: Option<u64>,
    pub resume_ms: Option<u64>,
    pub readiness_ms: Option<u64>,
    pub handler_ms: Option<u64>,
    pub response_ms: Option<u64>,
    pub total_ms: Option<u64>,
}

/// Histograms by phase and start kind.
pub type Phases = Map<Seq<Seq<char>>, HistogramView>;

/// Content of the histograms.
pub open spec fn phases_view(t: Table<Histogram>) -> Phases {
    Map::new(|k: Seq<Seq<char>>| t@.contains_key(k), |k: Seq<Seq<char>>| t@[k]@)
}

/// Histograms with all their buckets, by two texts.
pub open spec fn are_phases(t: Table<Histogram>) -> bool {
    &&& t.wf()
    &&& forall|k: Seq<Seq<char>>| #[trigger] t@.contains_key(k) ==> k.len() == 2 && t@[k].wf()
}

/// The key and the histogram at a place.
pub proof fn lemma_phase_at(t: Table<Histogram>, i: int)
    requires
        are_phases(t),
        0 <= i < t.values@.len(),
    ensures
        t.order()[i].len() == 2,
        t.keys@[i].parts@.len() == 2,
        t.keys@[i].parts@[0]@ == t.order()[i][0],
        t.keys@[i].parts@[1]@ == t.order()[i][1],
        t.values@[i].wf(),
{
    table::lemma_row_at(t.order(), t.values@, i);
    assert(t@.contains_key(t.order()[i]));
    assert(t.keys@[i]@ == t.order()[i]);
}

/// The histogram of a phase and a start kind.
pub open spec fn histogram_of(phases: Phases, key: Seq<Seq<char>>) -> HistogramView {
    if phases.contains_key(key) {
        phases[key]
    } else {
        empty_histogram()
    }
}

/// The histograms after a phase took `ms`, if it was timed.
pub open spec fn recorded(
    phases: Phases,
    phase: Seq<char>,
    kind: Seq<char>,
    ms: Option<u64>,
) -> Phases {
    match ms {
        Some(ms) => phases.insert(
            table::k2(phase, kind),
            observed(histogram_of(phases, table::k2(phase, kind)), ms),
        ),
        None => phases,
    }
}

/// A duration that counts only for starts that booted.
pub open spec fn if_booted(ms: Option<u64>, kind: StartKind) -> Option<u64> {
    if kind is Warm {
        None
    } else {
        ms
    }
}

/// The histograms after an attempt: every phase that was timed, boot and init
/// only for starts that booted, so that a warm start does not pull them
/// towards zero.
pub open spec fn attempt_recorded(phases: Phases, kind: StartKind, t: AttemptTimings) -> Phases {
    let k = kind_label(kind);
    let p1 = recorded(phases, "queue_wait"@, k, t.queue_wait_ms);
    let p2 = recorded(p1, "boot"@, k, if_booted(t.environment_boot_ms, kind));
    let p3 = recorded(p2, "init"@, k, if_booted(t.runtime_init_ms, kind));
    let p4 = recorded(p3, "resume"@, k, t.resume_ms);
    let p5 = recorded(p4, "handler"@, k, t.handler_ms);
    recorded(p5, "total"@, k, t.total_ms)
}

/// The first boots that are remembered, and the environments in the order in
/// which they came.
pub ghost struct Boots {
    pub first: Map<Seq<Seq<char>>, Seq<char>>,
    pub order: Seq<Seq<char>>,
}

/// Room for one more: the oldest environment is forgotten when there are too
/// many.
pub open spec fn with_room(b: Boots) -> Boots {
    if b.first.dom().len() >= MAX_TRACKED_BOOTS && b.order.len() > 0 {
        Boots { first: b.first.remove(table::k1(b.order[0])), order: b.order.drop_first() }
    } else {
        b
    }
}

/// What a boot id says about an environment.
pub open spec fn boot_check(b: Boots, environment: Seq<char>, id: Option<Seq<char>>) -> BootCheck {
    match id {
        None => BootCheck::Unreported,
        Some(id) => if !b.first.contains_key(table::k1(environment)) {
            BootCheck::FirstBoot
        } else if b.first[table::k1(environment)] == id {
            BootCheck::SameBoot
        } else {
            BootCheck::BootChanged
        },
    }
}

/// The boots after a boot id was reported.
pub open spec fn boots_after(b: Boots, environment: Seq<char>, id: Option<Seq<char>>) -> Boots {
    if boot_check(b, environment, id) is FirstBoot {
        let room = with_room(b);
        Boots {
            first: room.first.insert(table::k1(environment), id->0),
            order: room.order.push(environment),
        }
    } else {
        b
    }
}

/// Event counters and histograms.
pub struct Metrics {
    /// By start kind and status.
    pub attempts: Tally,
    /// By phase and start kind.
    pub phases: Table<Histogram>,
    pub boot_checks: BootCounts,
    /// First boot ids by environment.
    pub boots: Table<String>,
    pub boot_order: Vec<String>,
    pub gate_refusals: Tally,
    pub heartbeats: Tally,
    pub slot_lease_renewals: u64,
}

/// A copy of [`Metrics`] for rendering, with what was measured of idle
/// environments. Real numbers are given by their bits.
pub struct MetricsSnapshot {
    pub attempts: Tally,
    pub phases: Table<Histogram>,
    pub boot_checks: BootCounts,
    pub gate_refusals: Tally,
    pub heartbeats: Tally,
    pub slot_lease_renewals: u64,
    pub idle_cpu_seconds: u64,
    pub idle_round: IdleCpuRound,
}

/// What one round of samples says about idle environments.
#[derive(Debug, Clone, Copy, PartialEq, Eq, Structural)]
pub struct IdleCpuRound {
    /// Idle environments with a usable previous sample.
    pub sampled: u64,
    /// Bits of the highest CPU seconds per wall second over them.
    pub max_ratio: u64,
}

/// Every environment whose first boot is remembered is in the order, once.
pub open spec fn ordered(b: Boots) -> bool {
    &&& b.order.no_duplicates()
    &&& b.first.dom().finite()
    &&& b.first.dom().len() == b.order.len()
    &&& forall|i: int| 0 <= i < b.order.len() ==> b.first.contains_key(table::k1(#[trigger] b.order[i]))
}

impl Metrics {
    /// What is remembered of boots.
    pub open spec fn boots_view(&self) -> Boots {
        Boots {
            first: Map::new(
                |k: Seq<Seq<char>>| self.boots@.contains_key(k),
                |k: Seq<Seq<char>>| self.boots@[k]@,
            ),
            order: text::texts_view(self.boot_order@),
        }
    }

    /// Counters are tallies (refusals by one label), histograms have all their
    /// buckets, and the order of the boots is that of the boots remembered.
    pub open spec fn wf(&self) -> bool {
        &&& self.attempts.wf()
        &&& are_phases(self.phases)
        &&& self.boots.wf()
        &&& self.gate_refusals.wf()
        &&& self.gate_refusals.one_label()
        &&& self.heartbeats.wf()
        &&& ordered(self.boots_view())
        &&& self.boot_order@.len() <= MAX_TRACKED_BOOTS
    }

    /// Nothing recorded.
    pub fn new() -> (r: Metrics)
        ensures
            r.wf(),
            forall|a: Seq<char>, b: Seq<char>| #[trigger] r.attempts.count(a, b) == 0,
            phases_view(r.phases) == Map::<Seq<Seq<char>>, HistogramView>::empty(),
            r.boot_checks == (BootCounts {
                first_boot: 0,
                same_boot: 0,
                boot_changed: 0,
                unreported: 0,
            }),
            r.boots_view().order.len() == 0,
            forall|a: Seq<char>, b: Seq<char>| #[trigger] r.gate_refusals.count(a, b) == 0,
            forall|a: Seq<char>, b: Seq<char>| #[trigger] r.heartbeats.count(a, b) == 0,
            r.slot_lease_renewals == 0,
    {
        let r = Metrics {
            attempts: Tally::new(),
            phases: Table::new(),
            boot_checks: BootCounts { first_boot: 0, same_boot: 0, boot_changed: 0, unreported: 0 },
            boots: Table::new(),
            boot_order: Vec::new(),
            gate_refusals: Tally::new(),
            heartbeats: Tally::new(),
            slot_lease_renewals: 0,
        };
        proof {
            assert(phases_view(r.phases) =~= Map::<Seq<Seq<char>>, HistogramView>::empty());
            assert(r.boots_view().first =~= Map::<Seq<Seq<char>>, Seq<char>>::empty());
        }
        r
    }

    fn record_phase(&mut self, phase: &str, kind: &str, ms: Option<u64>)
        requires
            old(self).wf(),
        ensures
            final(self).wf(),
            phases_view(final(self).phases) == recorded(
                phases_view(old(self).phases),
                phase@,
                kind@,
                ms,
            ),
            *final(self) == (Metrics { phases: final(self).phases, ..*old(self) }),
    {
        if let Some(ms) = ms {
            let key = Key::two(phase, kind);
            let ghost before = phases_view(self.phases);
            let ghost at = key@;
            let mut h = match self.phases.get(&key) {
                Some(h) => h.copy(),
                None => Histogram::new(),
            };
            h.observe(ms);
            self.phases.set(key, h);
            proof {
                assert(phases_view(self.phases) =~= recorded(before, phase@, kind@, Some(ms)));
            }
        }
    }

    fn check_boot(&mut self, environment: &str, id: Option<&str>) -> (r: BootCheck)
        requires
            old(self).wf(),
        ensures
            final(self).wf(),
            r == boot_check(
                old(self).boots_view(),
                environment@,
                match id {
                    Some(id) => Some(id@),
                    None => None,
                },
            ),
            final(self).boots_view() == boots_after(
                old(self).boots_view(),
                environment@,
                match id {
                    Some(id) => Some(id@),
                    None => None,
                },
            ),
            *final(self) == (Metrics {
                boots: final(self).boots,
                boot_order: final(self).boot_order,
                ..*old(self)
            }),
    {
        let id = match id {
            Some(id) => id,
            None => return BootCheck::Unreported,
        };
        let key = Key::one(environment);
        if let Some(first) = self.boots.get(&key) {
            return if text::same_text(first.as_str(), id) {
                BootCheck::SameBoot
            } else {
                BootCheck::BootChanged
            };
        }
        let ghost was = self.boots_view();
        proof {
            self.boots.lemma_len();
            assert(was.first.dom() =~= self.boots@.dom());
        }
        if self.boots.len() >= MAX_TRACKED_BOOTS && self.boot_order.len() > 0 {
            let oldest = self.boot_order.remove(0);
            let _dropped = self.boots.remove(&Key::one(oldest.as_str()));
            proof {
                assert(oldest@ == was.order[0]);
                assert(self.boots_view().order =~= was.order.drop_first());
                assert(self.boots_view().first =~= was.first.remove(table::k1(was.order[0])));
            }
        }
        let ghost room = self.boots_view();
        proof {
            lemma_room_is_ordered(was);
            assert(room == with_room(was));
            assert(!room.first.contains_key(key@));
            lemma_remembered_is_ordered(room, environment@, id@);
        }
        self.boots.set(key, text::owned(id));
        self.boot_order.push(text::owned(environment));
        proof {
            assert(self.boots_view().first =~= room.first.insert(table::k1(environment@), id@));
            assert(self.boots_view().order =~= room.order.push(environment@));
        }
        BootCheck::FirstBoot
    }

    /// One finished attempt: its start kind, final status and timings, and the
    /// boot id its environment reported.
    pub fn observe_attempt(
        &mut self,
        environment: &str,
        start_kind: StartKind,
        status: &str,
        timings: &AttemptTimings,
        guest_boot_id: Option<&str>,
    ) -> (r: BootCheck)
        requires
            old(self).wf(),
        ensures
            final(self).wf(),
            ({
                let id = match guest_boot_id {
                    Some(id) => Some(id@),
                    None => None,
                };
                &&& r == boot_check(old(self).boots_view(), environment@, id)
                &&& final(self).boots_view() == boots_after(
                    old(self).boots_view(),
                    environment@,
                    id,
                )
            }),
            final(self).boot_checks == old(self).boot_checks.after(r),
            forall|a: Seq<char>, b: Seq<char>| #[trigger]
                final(self).attempts.count(a, b) == if a == kind_label(start_kind) && b == status@ {
                    tally::grown(old(self).attempts.count(a, b), 1)
                } else {
                    old(self).attempts.count(a, b)
                },
            phases_view(final(self).phases) == attempt_recorded(
                phases_view(old(self).phases),
                start_kind,
                *timings,
            ),
            final(self).gate_refusals == old(self).gate_refusals,
            final(self).heartbeats == old(self).heartbeats,
            final(self).slot_lease_renewals == old(self).slot_lease_renewals,
    {
        let kind = start_kind_label(start_kind);
        self.attempts.bump(kind, status, 1);
        let booted = start_kind != StartKind::Warm;
        let boot_ms = if booted {
            timings.environment_boot_ms
        } else {
            None
        };
        let init_ms = if booted {
            timings.runtime_init_ms
        } else {
            None
        };
        self.record_phase("queue_wait", kind, timings.queue_wait_ms);
        self.record_phase("boot", kind, boot_ms);
        self.record_phase("init", kind, init_ms);
        self.record_phase("resume", kind, timings.resume_ms);
        self.record_phase("handler", kind, timings.handler_ms);
        self.record_phase("total", kind, timings.total_ms);
        let check = self.check_boot(environment, guest_boot_id);
        self.boot_checks.bump(check);
        check
    }

    /// The invoke gate refused new work or a cold start.
    pub fn gate_refusal(&mut self, error_type: &str)
        requires
            old(self).wf(),
        ensures
            final(self).wf(),
            forall|a: Seq<char>, b: Seq<char>| #[trigger]
                final(self).gate_refusals.count(a, b) == if a == error_type@ && b == ""@ {
                    tally::grown(old(self).gate_refusals.count(a, b), 1)
                } else {
                    old(self).gate_refusals.count(a, b)
                },
            *final(self) == (Metrics { gate_refusals: final(self).gate_refusals, ..*old(self) }),
    {
        self.gate_refusals.bump(error_type, "", 1);
        proof {
            let was = old(self).gate_refusals.rows@;
            let rows = self.gate_refusals.rows@;
            assert forall|k: Seq<Seq<char>>| #[trigger] rows.contains_key(k) implies rows[k].second@
                == ""@ by {
                let first = if was.contains_key(k) {
                    was[k].first@
                } else {
                    error_type@
                };
                table::lemma_k2(rows[k].first@, rows[k].second@, first, ""@);
            }
        }
    }

    /// One dispatcher heartbeat, with the slot leases it renewed.
    pub fn heartbeat(&mut self, result: &str, slot_leases: u64)
        requires
            old(self).wf(),
        ensures
            final(self).wf(),
            forall|a: Seq<char>, b: Seq<char>| #[trigger]
                final(self).heartbeats.count(a, b) == if a == result@ && b == ""@ {
                    tally::grown(old(self).heartbeats.count(a, b), 1)
                } else {
                    old(self).heartbeats.count(a, b)
                },
            final(self).slot_lease_renewals == tally::grown(
                old(self).slot_lease_renewals as nat,
                slot_leases as nat,
            ),
            *final(self) == (Metrics {
                heartbeats: final(self).heartbeats,
                slot_lease_renewals: final(self).slot_lease_renewals,
                ..*old(self)
            }),
    {
        self.heartbeats.bump(result, "", 1);
        self.slot_lease_renewals = tally::grow(self.slot_lease_renewals, slot_leases);
    }

    /// A copy for rendering.
    pub fn snapshot(&self, idle_cpu_seconds: u64, idle_round: IdleCpuRound) -> (r: MetricsSnapshot)
        requires
            self.wf(),
        ensures
            r.wf(),
            r.attempts.rows@ == self.attempts.rows@,
            phases_view(r.phases) == phases_view(self.phases),
            r.boot_checks == self.boot_checks,
            r.gate_refusals.rows@ == self.gate_refusals.rows@,
            r.heartbeats.rows@ == self.heartbeats.rows@,
            r.slot_lease_renewals == self.slot_lease_renewals,
            r.idle_cpu_seconds == idle_cpu_seconds,
            r.idle_round == idle_round,
    {
        MetricsSnapshot {
            attempts: self.attempts.copy(),
            phases: copy_phases(&self.phases),
            boot_checks: self.boot_checks,
            gate_refusals: self.gate_refusals.copy(),
            heartbeats: self.heartbeats.copy(),
            slot_lease_renewals: self.slot_lease_renewals,
            idle_cpu_seconds,
            idle_round,
        }
    }
}

impl MetricsSnapshot {
    /// Counters are tallies (refusals by one label), and histograms have all
    /// their buckets.
    pub open spec fn wf(&self) -> bool {
        &&& self.attempts.wf()
        &&& are_phases(self.phases)
        &&& self.gate_refusals.wf()
        &&& self.gate_refusals.one_label()
        &&& self.heartbeats.wf()
    }
}

fn copy_phases(phases: &Table<Histogram>) -> (r: Table<Histogram>)
    requires
        are_phases(*phases),
    ensures
        are_phases(r),
        phases_view(r) == phases_view(*phases),
{
    let mut out: Table<Histogram> = Table::new();
    let mut i: usize = 0;
    while i < phases.values.len()
        invariant
            are_phases(*phases),
            out.wf(),
            i <= phases.values@.len(),
            forall|k: Seq<Seq<char>>| #[trigger]
                out@.contains_key(k) <==> exists|j: int|
                    0 <= j < i && #[trigger] phases.order()[j] == k,
            forall|k: Seq<Seq<char>>| #[trigger]
                out@.contains_key(k) ==> phases@.contains_key(k) && out@[k]@ == phases@[k]@,
        decreases phases.values@.len() - i,
    {
        let ghost was = out@;
        proof {
            table::lemma_row_at(phases.order(), phases.values@, i as int);
        }
        out.set(phases.keys[i].copy(), phases.values[i].copy());
        proof {
            let at = phases.order()[i as int];
            assert(phases.keys@[i as int]@ == at);
            assert forall|k: Seq<Seq<char>>| #[trigger]
                out@.contains_key(k) <==> exists|j: int|
                    0 <= j < i + 1 && #[trigger] phases.order()[j] == k by {
                if out@.contains_key(k) {
                    if k == at {
                        assert(phases.order()[i as int] == k);
                    } else {
                        assert(was.contains_key(k));
                        let j = choose|j: int| 0 <= j < i && #[trigger] phases.order()[j] == k;
                        assert(phases.order()[j] == k);
                    }
                }
                if exists|j: int| 0 <= j < i + 1 && #[trigger] phases.order()[j] == k {
                    let j = choose|j: int| 0 <= j < i + 1 && #[trigger] phases.order()[j] == k;
                    if j < i {
                        assert(was.contains_key(k));
                    }
                }
            }
        }
        i += 1;
    }
    proof {
        assert forall|k: Seq<Seq<char>>| out@.contains_key(k) <==> #[trigger] phases@.contains_key(k) by {
            if phases@.contains_key(k) {
                let j = choose|j: int| 0 <= j < phases.order().len() && phases.order()[j] == k;
                assert(phases.order()[j] == k);
            }
        }
        assert(phases_view(out) =~= phases_view(*phases));
    }
    out
}

proof fn lemma_room_is_ordered(b: Boots)
    requires
        ordered(b),
    ensures
        ordered(with_room(b)),
        b.first.dom().len() <= MAX_TRACKED_BOOTS ==> with_room(b).first.dom().len()
            < MAX_TRACKED_BOOTS,
{
    if b.first.dom().len() >= MAX_TRACKED_BOOTS && b.order.len() > 0 {
        let r = with_room(b);
        assert(b.first.contains_key(table::k1(b.order[0])));
        assert(r.first.dom() =~= b.first.dom().remove(table::k1(b.order[0])));
        assert forall|i: int| 0 <= i < r.order.len() implies r.first.contains_key(
            table::k1(#[trigger] r.order[i]),
        ) by {
            assert(r.order[i] == b.order[i + 1]);
            table::lemma_k1(b.order[i + 1], b.order[0]);
        }
    }
}

proof fn lemma_remembered_is_ordered(b: Boots, environment: Seq<char>, id: Seq<char>)
    requires
        ordered(b),
        !b.first.contains_key(table::k1(environment)),
    ensures
        ordered(
            Boots {
                first: b.first.insert(table::k1(environment), id),
                order: b.order.push(environment),
            },
        ),
{
    let r = Boots {
        first: b.first.insert(table::k1(environment), id),
        order: b.order.push(environment),
    };
    assert(r.first.dom() =~= b.first.dom().insert(table::k1(environment)));
    assert forall|i: int| 0 <= i < r.order.len() implies r.first.contains_key(
        table::k1(#[trigger] r.order[i]),
    ) by {
        if i < b.order.len() {
            assert(r.order[i] == b.order[i]);
        }
    }
    assert forall|i: int, j: int| 0 <= i < r.order.len() && 0 <= j < r.order.len() && i
        != j implies r.order[i] != r.order[j] by {
        if i == b.order.len() {
            assert(b.first.contains_key(table::k1(b.order[j])));
        } else if j == b.order.len() {
            assert(b.first.contains_key(table::k1(b.order[i])));
        }
    }
}

/// An environment that keeps its boot id keeps answering `same_boot`, and one
/// that changes it is found out, for as long as it is remembered.
pub proof fn law_a_changed_boot_is_found_out(
    b: Boots,
    environment: Seq<char>,
    first: Seq<char>,
    later: Seq<char>,
)
    requires
        boot_check(b, environment, Some(first)) is FirstBoot,
    ensures
        boot_check(boots_after(b, environment, Some(first)), environment, Some(later)) == if later
            == first {
            BootCheck::SameBoot
        } else {
            BootCheck::BootChanged
        },
{
}

/// A warm start feeds neither the boot nor the init histogram.
pub proof fn law_a_warm_start_skips_the_boot_phases(phases: Phases, t: AttemptTimings)
    ensures
        ({
            let after = attempt_recorded(phases, StartKind::Warm, t);
            let boot = table::k2("boot"@, "warm"@);
            let init = table::k2("init"@, "warm"@);
            &&& histogram_of(after, boot) == histogram_of(phases, boot)
            &&& histogram_of(after, init) == histogram_of(phases, init)
        }),
{
    reveal_strlit("boot");
    reveal_strlit("init");
    reveal_strlit("queue_wait");
    reveal_strlit("resume");
    reveal_strlit("handler");
    reveal_strlit("total");
    assert("boot"@.len() == 4 && "init"@.len() == 4 && "queue_wait"@.len() == 10);
    assert("resume"@.len() == 6 && "handler"@.len() == 7 && "total"@.len() == 5);
    table::lemma_k2("boot"@, "warm"@, "queue_wait"@, "warm"@);
    table::lemma_k2("boot"@, "warm"@, "resume"@, "warm"@);
    table::lemma_k2("boot"@, "warm"@, "handler"@, "warm"@);
    table::lemma_k2("boot"@, "warm"@, "total"@, "warm"@);
    table::lemma_k2("init"@, "warm"@, "queue_wait"@, "warm"@);
    table::lemma_k2("init"@, "warm"@, "resume"@, "warm"@);
    table::lemma_k2("init"@, "warm"@, "handler"@, "warm"@);
    table::lemma_k2("init"@, "warm"@, "total"@, "warm"@);
}

} // verus!
