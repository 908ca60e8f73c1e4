//! The adaptive controller: the signals that it reads, what it recommends, and what becomes of
//! a recommendation.
use vstd::prelude::*;

use crate::config::{AdaptiveConfig, Config};
use crate::double::Double;
use crate::mirror::{MirrorObservation, MirrorTaskStatus};
use crate::modes::AdaptiveMode;
use crate::snapshot::{BackpressureSnapshot, LimitsSnapshot, PoolSnapshot};
use crate::text::{decimal, join2, join3, join4, same_text, u64_text, usize_text};

verus! {

/// What the controller can turn.
#[derive(Clone, Copy, Debug, PartialEq, Eq, Structural)]
pub enum TunableKnob {
    PoolSize,
    BackpressureThresholds,
    MirrorSampling,
    Timeout,
}

impl TunableKnob {
    /// The name under which the value is written.
    pub open spec fn name(self) -> Seq<char> {
        match self {
            TunableKnob::PoolSize => "pool_size"@,
            TunableKnob::BackpressureThresholds => "backpressure_thresholds"@,
            TunableKnob::MirrorSampling => "mirror_sampling"@,
            TunableKnob::Timeout => "timeout"@,
        }
    }

    /// The name under which the value is written.
    pub fn as_str(self) -> (r: &'static str)
        ensures
            r@ == self.name(),
    {
        match self {
            TunableKnob::PoolSize => "pool_size",
            TunableKnob::BackpressureThresholds => "backpressure_thresholds",
            TunableKnob::MirrorSampling => "mirror_sampling",
            TunableKnob::Timeout => "timeout",
        }
    }

    /// What each value is written as.
    pub proof fn law_written_as(self)
        ensures
            self is PoolSize ==> self.name() == "pool_size"@,
            self is BackpressureThresholds ==> self.name() == "backpressure_thresholds"@,
            self is MirrorSampling ==> self.name() == "mirror_sampling"@,
            self is Timeout ==> self.name() == "timeout"@,
    {
    }

    /// No two values have the same name.
    pub proof fn law_names_differ(a: TunableKnob, b: TunableKnob)
        requires
            a.name() == b.name(),
        ensures
            a == b,
    {
        reveal_strlit("pool_size");
        reveal_strlit("backpressure_thresholds");
        reveal_strlit("mirror_sampling");
        reveal_strlit("timeout");
        assert("pool_size"@.len() == 9);
        assert("backpressure_thresholds"@.len() == 23);
        assert("mirror_sampling"@.len() == 15);
        assert("timeout"@.len() == 7);
    }
}

/// Reads the value that a name stands for.
pub fn parse_tunable_knob(value: &str) -> (r: Result<TunableKnob, String>)
    ensures
        match r {
            Ok(parsed) => value@ == parsed.name(),
            Err(message) => (forall|other: TunableKnob| value@ != #[trigger] other.name()) && message@
                == "unsupported tunable knob '"@ + value@ + "'"@,
        },
{
    if same_text(value, "pool_size") {
        Ok(TunableKnob::PoolSize)
    } else if same_text(value, "backpressure_thresholds") {
        Ok(TunableKnob::BackpressureThresholds)
    } else if same_text(value, "mirror_sampling") {
        Ok(TunableKnob::MirrorSampling)
    } else if same_text(value, "timeout") {
        Ok(TunableKnob::Timeout)
    } else {
        Err(join3("unsupported tunable knob '", value, "'"))
    }
}

/// What made the controller recommend something.
#[derive(Clone, Copy, Debug, PartialEq, Eq, Structural)]
pub enum AdaptiveSignal {
    PoolSizePressure,
    BackpressureThresholdPressure,
    MirrorSamplingPressure,
}

impl AdaptiveSignal {
    /// The name under which the value is written.
    pub open spec fn name(self) -> Seq<char> {
        match self {
            AdaptiveSignal::PoolSizePressure => "pool_size_pressure"@,
            AdaptiveSignal::BackpressureThresholdPressure => "backpressure_threshold_pressure"@,
            AdaptiveSignal::MirrorSamplingPressure => "mirror_sampling_pressure"@,
        }
    }

    /// The name under which the value is written.
    pub fn as_str(self) -> (r: &'static str)
        ensures
            r@ == self.name(),
    {
        match self {
            AdaptiveSignal::PoolSizePressure => "pool_size_pressure",
            AdaptiveSignal::BackpressureThresholdPressure => "backpressure_threshold_pressure",
            AdaptiveSignal::MirrorSamplingPressure => "mirror_sampling_pressure",
        }
    }

    /// What each value is written as.
    pub proof fn law_written_as(self)
        ensures
            self is PoolSizePressure ==> self.name() == "pool_size_pressure"@,
            self is BackpressureThresholdPressure ==> self.name() == "backpressure_threshold_pressure"@,
            self is MirrorSamplingPressure ==> self.name() == "mirror_sampling_pressure"@,
    {
    }

    /// No two values have the same name.
    pub proof fn law_names_differ(a: AdaptiveSignal, b: AdaptiveSignal)
        requires
            a.name() == b.name(),
        ensures
            a == b,
    {
        reveal_strlit("pool_size_pressure");
        reveal_strlit("backpressure_threshold_pressure");
        reveal_strlit("mirror_sampling_pressure");
        assert("pool_size_pressure"@.len() == 18);
        assert("backpressure_threshold_pressure"@.len() == 31);
        assert("mirror_sampling_pressure"@.len() == 24);
    }
}

/// What became of a recommendation.
#[derive(Clone, Copy, Debug, PartialEq, Eq, Structural)]
pub enum AdaptiveOutcome {
    Recommended,
    Applied,
    Skipped,
    Rejected,
}

impl AdaptiveOutcome {
    /// The name under which the value is written.
    pub open spec fn name(self) -> Seq<char> {
        match self {
            AdaptiveOutcome::Recommended => "recommended"@,
            AdaptiveOutcome::Applied => "applied"@,
            AdaptiveOutcome::Skipped => "skipped"@,
            AdaptiveOutcome::Rejected => "rejected"@,
        }
    }

    /// The name under which the value is written.
    pub fn as_str(self) -> (r: &'static str)
        ensures
            r@ == self.name(),
    {
        match self {
            AdaptiveOutcome::Recommended => "recommended",
            AdaptiveOutcome::Applied => "applied",
            AdaptiveOutcome::Skipped => "skipped",
            AdaptiveOutcome::Rejected => "rejected",
        }
    }

    /// What each value is written as.
    pub proof fn law_written_as(self)
        ensures
            self is Recommended ==> self.name() == "recommended"@,
            self is Applied ==> self.name() == "applied"@,
            self is Skipped ==> self.name() == "skipped"@,
            self is Rejected ==> self.name() == "rejected"@,
    {
    }

    /// No two values have the same name.
    pub proof fn law_names_differ(a: AdaptiveOutcome, b: AdaptiveOutcome)
        requires
            a.name() == b.name(),
        ensures
            a == b,
    {
        reveal_strlit("recommended");
        reveal_strlit("applied");
        reveal_strlit("skipped");
        reveal_strlit("rejected");
        assert("recommended"@.len() == 11 && "recommended"@[0] == 'r');
        assert("applied"@.len() == 7 && "applied"@[0] == 'a');
        assert("skipped"@.len() == 7 && "skipped"@[0] == 's');
        assert("rejected"@.len() == 8 && "rejected"@[0] == 'r');
    }
}

/// How far a change may go.
#[derive(Clone, Copy, Debug, PartialEq, Eq, Structural)]
pub enum TuningBound {
    Percent(u8),
    Unbounded,
}

impl TuningBound {
    /// The largest change in percent, where there is one.
    pub open spec fn percent(self) -> Option<u8> {
        match self {
            TuningBound::Percent(percent) => Some(percent),
            TuningBound::Unbounded => None,
        }
    }

    /// The largest change in percent, where there is one.
    pub fn max_change_percent(self) -> (r: Option<u8>)
        ensures
            r == self.percent(),
    {
        match self {
            TuningBound::Percent(percent) => Some(percent),
            TuningBound::Unbounded => None,
        }
    }
}

/// Why a recommendation was refused.
#[derive(Clone, Copy, Debug, PartialEq)]
pub enum AdaptiveApplyError {
    /// The confidence is below the least that is asked for.
    ConfidenceFloor { confidence: Double, minimum: Double },
    /// The knob is not on the list of those that may be turned.
    NotAllowed { knob: TunableKnob },
    /// The change has no bound.
    UnboundedChange,
    /// The change may go further than is allowed.
    MaxChangePercent { percent: u8, limit: u8 },
}

/// A change that the controller recommends.
#[derive(Clone, Debug)]
pub struct AdaptiveRecommendation {
    pub signal: AdaptiveSignal,
    pub knob: TunableKnob,
    pub confidence: Double,
    pub reason: String,
    pub window_ms: u64,
    pub safety_bound: TuningBound,
}

impl AdaptiveApplyError {
    /// What is said of a refused recommendation. `confidence` and `minimum` are the two
    /// confidences with three digits behind the point.
    pub open spec fn text(self, confidence: Seq<char>, minimum: Seq<char>) -> Seq<char> {
        match self {
            AdaptiveApplyError::ConfidenceFloor { confidence: _, minimum: _ } =>
                "adaptive recommendation confidence "@ + confidence + " is below the minimum "@
                    + minimum,
            AdaptiveApplyError::NotAllowed { knob } => "adaptive knob '"@ + knob.name()
                + "' is not on the apply allowlist"@,
            AdaptiveApplyError::UnboundedChange => "adaptive apply rejected an unbounded change"@,
            AdaptiveApplyError::MaxChangePercent { percent, limit } => "adaptive change percent "@
                + decimal(percent as nat) + " exceeds the configured limit "@ + decimal(
                limit as nat,
            ),
        }
    }

    /// What is said of a refused recommendation.
    pub fn message(self, confidence: &str, minimum: &str) -> (r: String)
        ensures
            r@ == self.text(confidence@, minimum@),
    {
        match self {
            AdaptiveApplyError::ConfidenceFloor { confidence: _, minimum: _ } => join4(
                "adaptive recommendation confidence ",
                confidence,
                " is below the minimum ",
                minimum,
            ),
            AdaptiveApplyError::NotAllowed { knob } => join3(
                "adaptive knob '",
                knob.as_str(),
                "' is not on the apply allowlist",
            ),
            AdaptiveApplyError::UnboundedChange =>
                "adaptive apply rejected an unbounded change".to_owned(),
            AdaptiveApplyError::MaxChangePercent { percent, limit } => join4(
                "adaptive change percent ",
                u64_text(percent as u64).as_str(),
                " exceeds the configured limit ",
                u64_text(limit as u64).as_str(),
            ),
        }
    }
}

// ---------------------------------------------------------------------------
// Signals
// ---------------------------------------------------------------------------

/// How many outcomes of each kind are kept.
pub const DEFAULT_HISTORY_CAPACITY: usize = 64;

/// From how many waiting clients on the pool counts as too small.
pub const HIGH_POOL_WAIT_THRESHOLD: usize = 8;

/// From how many turned away requests on the proxy counts as overloaded.
pub const HIGH_OVERLOAD_THRESHOLD: u64 = 3;

/// From how many dropped requests on too much is mirrored.
pub const MIRROR_DROP_THRESHOLD: usize = 1;

/// The bits of one quarter.
pub const QUARTER_BITS: u64 = 0x3fd0_0000_0000_0000;

/// Where the knobs stand.
#[derive(Clone, Debug)]
pub struct AdaptiveTuningSnapshot {
    pub pool_size: usize,
    pub backpressure_thresholds: usize,
    pub mirror_sample_rate: Double,
    pub checkout_timeout_ms: u64,
}

impl AdaptiveTuningSnapshot {
    /// Where the settings put the knobs.
    pub fn from_config(config: &Config) -> (r: AdaptiveTuningSnapshot)
        ensures
            r.pool_size == config.capacity.max_backends,
            r.backpressure_thresholds == config.qos.max_route_waiters,
            r.mirror_sample_rate.bits == QUARTER_BITS,
            r.checkout_timeout_ms == config.performance.checkout_timeout_ms,
    {
        AdaptiveTuningSnapshot {
            pool_size: config.capacity.max_backends,
            backpressure_thresholds: config.qos.max_route_waiters,
            mirror_sample_rate: Double::from_bits(QUARTER_BITS),
            checkout_timeout_ms: config.performance.checkout_timeout_ms,
        }
    }
}

/// What the controller reads.
#[derive(Clone, Copy, Debug, PartialEq, Eq, Structural)]
pub struct AdaptiveSignalSnapshot {
    pub pool_waiting_clients: usize,
    pub pool_active_backends: usize,
    pub pool_configured_backends: usize,
    pub max_backends: usize,
    pub max_checkout_waiters: usize,
    pub max_route_waiters: usize,
    pub checkout_timeout_ms: u64,
    pub backpressure_waiting: usize,
    pub backpressure_rejected: u64,
    pub backpressure_timed_out: u64,
    pub backpressure_canceled: u64,
    pub mirror_observations: usize,
    pub mirror_completed: usize,
    pub mirror_timed_out: usize,
    pub mirror_dropped: usize,
    pub mirror_skipped: usize,
    pub mirror_rejected: usize,
    pub mirror_errors: usize,
}

impl AdaptiveSignalSnapshot {
    /// How many requests were turned away.
    pub open spec fn overloads(self) -> int {
        self.backpressure_rejected + self.backpressure_timed_out + self.backpressure_canceled
    }

    /// How many requests were turned away.
    pub fn overload_events(&self) -> (r: u64)
        requires
            self.overloads() <= u64::MAX,
        ensures
            r == self.overloads(),
    {
        self.backpressure_rejected + self.backpressure_timed_out + self.backpressure_canceled
    }
}

/// How many of some outcomes are of a kind.
pub open spec fn count_outcomes(
    observations: Seq<MirrorObservation>,
    kind: spec_fn(MirrorTaskStatus) -> bool,
) -> nat
    decreases observations.len(),
{
    if observations.len() == 0 {
        0
    } else {
        count_outcomes(observations.drop_last(), kind) + if kind(observations.last().status) {
            1nat
        } else {
            0nat
        }
    }
}

/// The sum of one number of each of some queues.
pub open spec fn sum_queues(
    queues: Seq<BackpressureSnapshot>,
    number: spec_fn(BackpressureSnapshot) -> int,
) -> int
    decreases queues.len(),
{
    if queues.len() == 0 {
        0
    } else {
        sum_queues(queues.drop_last(), number) + number(queues.last())
    }
}

/// How many clients wait in some queues.
pub open spec fn waiting_sum(queues: Seq<BackpressureSnapshot>) -> int {
    sum_queues(queues, |queue: BackpressureSnapshot| queue.waiting as int)
}

/// How many clients were turned away from some queues at once.
pub open spec fn rejected_sum(queues: Seq<BackpressureSnapshot>) -> int {
    sum_queues(queues, |queue: BackpressureSnapshot| queue.rejected as int)
}

/// How many clients waited too long in some queues.
pub open spec fn timed_out_sum(queues: Seq<BackpressureSnapshot>) -> int {
    sum_queues(queues, |queue: BackpressureSnapshot| queue.timed_out as int)
}

/// How many clients left some queues by themselves.
pub open spec fn canceled_sum(queues: Seq<BackpressureSnapshot>) -> int {
    sum_queues(queues, |queue: BackpressureSnapshot| queue.canceled as int)
}

/// That the sums over some queues can be counted.
pub open spec fn sums_fit(queues: Seq<BackpressureSnapshot>) -> bool {
    &&& waiting_sum(queues) <= usize::MAX
    &&& rejected_sum(queues) <= u64::MAX
    &&& timed_out_sum(queues) <= u64::MAX
    &&& canceled_sum(queues) <= u64::MAX
}

proof fn lemma_sums_grow(
    queues: Seq<BackpressureSnapshot>,
    number: spec_fn(BackpressureSnapshot) -> int,
    k: int,
)
    requires
        0 <= k <= queues.len(),
        forall|queue: BackpressureSnapshot| #[trigger] number(queue) >= 0,
    ensures
        0 <= sum_queues(queues.take(k), number) <= sum_queues(queues, number),
    decreases queues.len() - k, k,
{
    if k < queues.len() {
        lemma_sums_grow(queues, number, k + 1);
        assert(queues.take(k + 1).drop_last() =~= queues.take(k));
        lemma_sum_positive(queues.take(k), number);
    } else {
        assert(queues.take(k) =~= queues);
        lemma_sum_positive(queues, number);
    }
}

proof fn lemma_sum_positive(
    queues: Seq<BackpressureSnapshot>,
    number: spec_fn(BackpressureSnapshot) -> int,
)
    requires
        forall|queue: BackpressureSnapshot| #[trigger] number(queue) >= 0,
    ensures
        sum_queues(queues, number) >= 0,
    decreases queues.len(),
{
    if queues.len() > 0 {
        lemma_sum_positive(queues.drop_last(), number);
    }
}

/// Adds up some queues: who waits, and who was turned away, waited too long or left.
pub fn aggregate_backpressure(queues: &Vec<BackpressureSnapshot>) -> (r: (usize, u64, u64, u64))
    requires
        sums_fit(queues@),
    ensures
        r.0 == waiting_sum(queues@),
        r.1 == rejected_sum(queues@),
        r.2 == timed_out_sum(queues@),
        r.3 == canceled_sum(queues@),
{
    let mut waiting: usize = 0;
    let mut rejected: u64 = 0;
    let mut timed_out: u64 = 0;
    let mut canceled: u64 = 0;
    let mut i: usize = 0;
    assert(queues@.take(0) =~= Seq::empty());
    while i < queues.len()
        invariant
            i <= queues@.len(),
            sums_fit(queues@),
            waiting == waiting_sum(queues@.take(i as int)),
            rejected == rejected_sum(queues@.take(i as int)),
            timed_out == timed_out_sum(queues@.take(i as int)),
            canceled == canceled_sum(queues@.take(i as int)),
        decreases queues@.len() - i,
    {
        proof {
            assert(queues@.take(i + 1).drop_last() =~= queues@.take(i as int));
            lemma_sums_grow(queues@, |queue: BackpressureSnapshot| queue.waiting as int, i + 1);
            lemma_sums_grow(queues@, |queue: BackpressureSnapshot| queue.rejected as int, i + 1);
            lemma_sums_grow(queues@, |queue: BackpressureSnapshot| queue.timed_out as int, i + 1);
            lemma_sums_grow(queues@, |queue: BackpressureSnapshot| queue.canceled as int, i + 1);
        }
        waiting += queues[i].waiting;
        rejected += queues[i].rejected;
        timed_out += queues[i].timed_out;
        canceled += queues[i].canceled;
        i += 1;
    }
    assert(queues@.take(i as int) =~= queues@);
    (waiting, rejected, timed_out, canceled)
}

/// Reads the signals off what the proxy tells of itself.
#[derive(Clone, Copy, Debug)]
pub struct AdaptiveSignalCollector;

/// Whether a mirrored request came to its end.
pub open spec fn was_completed() -> spec_fn(MirrorTaskStatus) -> bool {
    |status: MirrorTaskStatus| status is Completed
}

/// Whether a mirrored request took too long.
pub open spec fn was_timed_out() -> spec_fn(MirrorTaskStatus) -> bool {
    |status: MirrorTaskStatus| status is TimedOut
}

/// Whether a request was left out of the sample, or found no room.
pub open spec fn was_dropped() -> spec_fn(MirrorTaskStatus) -> bool {
    |status: MirrorTaskStatus| status is Dropped
}

/// Whether a request was passed over.
pub open spec fn was_skipped() -> spec_fn(MirrorTaskStatus) -> bool {
    |status: MirrorTaskStatus| status is Skipped
}

/// Whether a request must not be mirrored.
pub open spec fn was_rejected() -> spec_fn(MirrorTaskStatus) -> bool {
    |status: MirrorTaskStatus| status is Rejected
}

/// Whether a mirrored request failed.
pub open spec fn was_failed() -> spec_fn(MirrorTaskStatus) -> bool {
    |status: MirrorTaskStatus| status is Error
}

/// Every outcome is counted once, under its own kind.
pub proof fn law_outcomes_counted_once(observations: Seq<MirrorObservation>)
    ensures
        count_outcomes(observations, was_completed()) + count_outcomes(
            observations,
            was_timed_out(),
        ) + count_outcomes(observations, was_dropped()) + count_outcomes(
            observations,
            was_skipped(),
        ) + count_outcomes(observations, was_rejected()) + count_outcomes(
            observations,
            was_failed(),
        ) == observations.len(),
    decreases observations.len(),
{
    if observations.len() > 0 {
        law_outcomes_counted_once(observations.drop_last());
    }
}

impl AdaptiveSignalCollector {
    /// Reads the signals.
    pub fn collect(
        pool: &PoolSnapshot,
        limits: &LimitsSnapshot,
        queues: &Vec<BackpressureSnapshot>,
        observations: &Vec<MirrorObservation>,
    ) -> (r: AdaptiveSignalSnapshot)
        requires
            sums_fit(queues@),
        ensures
            r.pool_waiting_clients == pool.waiting_clients,
            r.pool_active_backends == pool.active_backends,
            r.pool_configured_backends == pool.configured_backends,
            r.max_backends == limits.max_backends,
            r.max_checkout_waiters == limits.max_checkout_waiters,
            r.max_route_waiters == limits.max_route_waiters,
            r.checkout_timeout_ms == (limits.checkout_timeout@ / 1_000_000)
                % 0x1_0000_0000_0000_0000,
            r.backpressure_waiting == waiting_sum(queues@),
            r.backpressure_rejected == rejected_sum(queues@),
            r.backpressure_timed_out == timed_out_sum(queues@),
            r.backpressure_canceled == canceled_sum(queues@),
            r.mirror_observations == observations@.len(),
            r.mirror_completed == count_outcomes(observations@, was_completed()),
            r.mirror_timed_out == count_outcomes(observations@, was_timed_out()),
            r.mirror_dropped == count_outcomes(observations@, was_dropped()),
            r.mirror_skipped == count_outcomes(observations@, was_skipped()),
            r.mirror_rejected == count_outcomes(observations@, was_rejected()),
            r.mirror_errors == count_outcomes(observations@, was_failed()),
    {
        let mut completed: usize = 0;
        let mut timed_out: usize = 0;
        let mut dropped: usize = 0;
        let mut skipped: usize = 0;
        let mut rejected: usize = 0;
        let mut errors: usize = 0;
        let mut i: usize = 0;
        assert(observations@.take(0) =~= Seq::empty());
        while i < observations.len()
            invariant
                i <= observations@.len(),
                completed == count_outcomes(observations@.take(i as int), was_completed()),
                timed_out == count_outcomes(observations@.take(i as int), was_timed_out()),
                dropped == count_outcomes(observations@.take(i as int), was_dropped()),
                skipped == count_outcomes(observations@.take(i as int), was_skipped()),
                rejected == count_outcomes(observations@.take(i as int), was_rejected()),
                errors == count_outcomes(observations@.take(i as int), was_failed()),
                completed <= i && timed_out <= i && dropped <= i && skipped <= i && rejected <= i
                    && errors <= i,
            decreases observations@.len() - i,
        {
            assert(observations@.take(i + 1).drop_last() =~= observations@.take(i as int));
            match observations[i].status {
                MirrorTaskStatus::Completed => {
                    completed += 1;
                },
                MirrorTaskStatus::TimedOut => {
                    timed_out += 1;
                },
                MirrorTaskStatus::Dropped { reason: _ } => {
                    dropped += 1;
                },
                MirrorTaskStatus::Skipped { reason: _ } => {
                    skipped += 1;
                },
                MirrorTaskStatus::Rejected { reason: _ } => {
                    rejected += 1;
                },
                MirrorTaskStatus::Error => {
                    errors += 1;
                },
            }
            i += 1;
        }
        assert(observations@.take(i as int) =~= observations@);
        let (waiting, turned_away, waited_too_long, canceled) = aggregate_backpressure(queues);
        let timeout: u128 = limits.checkout_timeout.as_millis();
        AdaptiveSignalSnapshot {
            pool_waiting_clients: pool.waiting_clients,
            pool_active_backends: pool.active_backends,
            pool_configured_backends: pool.configured_backends,
            max_backends: limits.max_backends,
            max_checkout_waiters: limits.max_checkout_waiters,
            max_route_waiters: limits.max_route_waiters,
            checkout_timeout_ms: (timeout % 0x1_0000_0000_0000_0000) as u64,
            backpressure_waiting: waiting,
            backpressure_rejected: turned_away,
            backpressure_timed_out: waited_too_long,
            backpressure_canceled: canceled,
            mirror_observations: observations.len(),
            mirror_completed: completed,
            mirror_timed_out: timed_out,
            mirror_dropped: dropped,
            mirror_skipped: skipped,
            mirror_rejected: rejected,
            mirror_errors: errors,
        }
    }
}

// ---------------------------------------------------------------------------
// Recommendations
// ---------------------------------------------------------------------------

/// A recommendation as plain values.
pub struct RecommendationFacts {
    pub signal: AdaptiveSignal,
    pub knob: TunableKnob,
    pub confidence: Double,
    pub reason: Seq<char>,
    pub window_ms: u64,
    pub bound: TuningBound,
}

impl View for AdaptiveRecommendation {
    type V = RecommendationFacts;

    open spec fn view(&self) -> RecommendationFacts {
        RecommendationFacts {
            signal: self.signal,
            knob: self.knob,
            confidence: self.confidence,
            reason: self.reason@,
            window_ms: self.window_ms,
            bound: self.safety_bound,
        }
    }
}

/// Recommendations as plain values.
pub open spec fn recommendation_facts(list: Seq<AdaptiveRecommendation>) -> Seq<
    RecommendationFacts,
> {
    list.map_values(|item: AdaptiveRecommendation| item@)
}

/// Why the pool should be looked at.
pub open spec fn pool_reason(waiting: nat) -> Seq<char> {
    decimal(waiting)
        + " checkout waiters are elevated; review pool sizing and backpressure thresholds"@
}

/// Why the queues should be looked at.
pub open spec fn overload_reason(events: nat) -> Seq<char> {
    decimal(events) + " overload events were recorded; tighten backpressure or review capacity"@
}

/// Why less should be mirrored. `rate` is the share of requests that are mirrored now, with three
/// digits behind the point.
pub open spec fn mirror_reason(dropped: nat, rate: Seq<char>) -> Seq<char> {
    decimal(dropped) + " mirror drops were observed at a "@ + rate
        + " sample rate; lower the mirror sample rate"@
}

/// What is recommended on some signals, where requests are mirrored at a sample rate, which `rate`
/// writes out. `confidence` is how sure the controller is.
pub open spec fn recommended(
    signals: AdaptiveSignalSnapshot,
    sample_rate: Double,
    adaptive: AdaptiveConfig,
    confidence: Double,
    rate: Seq<char>,
) -> Seq<RecommendationFacts> {
    let bound = TuningBound::Percent(adaptive.guardrail.adaptive_max_change_percent);
    let advice = |signal: AdaptiveSignal, knob: TunableKnob, reason: Seq<char>|
        RecommendationFacts {
            signal,
            knob,
            confidence,
            reason,
            window_ms: adaptive.adaptive_window_ms,
            bound,
        };
    let pool = if signals.pool_waiting_clients >= HIGH_POOL_WAIT_THRESHOLD {
        seq![
            advice(
                AdaptiveSignal::PoolSizePressure,
                TunableKnob::PoolSize,
                pool_reason(signals.pool_waiting_clients as nat),
            ),
        ]
    } else {
        Seq::empty()
    };
    let overload = if signals.overloads() >= HIGH_OVERLOAD_THRESHOLD {
        seq![
            advice(
                AdaptiveSignal::BackpressureThresholdPressure,
                TunableKnob::BackpressureThresholds,
                overload_reason(signals.overloads() as nat),
            ),
        ]
    } else {
        Seq::empty()
    };
    let mirror = if signals.mirror_dropped >= MIRROR_DROP_THRESHOLD && (Double { bits: 0 }).less(
        sample_rate,
    ) {
        seq![
            advice(
                AdaptiveSignal::MirrorSamplingPressure,
                TunableKnob::MirrorSampling,
                mirror_reason(signals.mirror_dropped as nat, rate),
            ),
        ]
    } else {
        Seq::empty()
    };
    pool + overload + mirror
}

/// Says which knobs should be turned.
#[derive(Clone, Copy, Debug)]
pub struct AdaptiveRecommendationEngine;

impl AdaptiveRecommendationEngine {
    /// An engine. It keeps nothing from one call to the next.
    pub fn new() -> (r: AdaptiveRecommendationEngine)
        ensures
            r == AdaptiveRecommendationEngine,
    {
        AdaptiveRecommendationEngine
    }

    /// Says which knobs should be turned.
    pub fn recommend(
        &self,
        signals: &AdaptiveSignalSnapshot,
        tuning: &AdaptiveTuningSnapshot,
        adaptive: &AdaptiveConfig,
        confidence: Double,
        rate: &str,
    ) -> (r: Vec<AdaptiveRecommendation>)
        requires
            signals.overloads() <= u64::MAX,
        ensures
            recommendation_facts(r@) == recommended(
                *signals,
                tuning.mirror_sample_rate,
                *adaptive,
                confidence,
                rate@,
            ),
    {
        let mut list: Vec<AdaptiveRecommendation> = Vec::new();
        let window_ms = adaptive.adaptive_window_ms;
        let safety_bound = adaptive.guardrail.safety_bound();
        if signals.pool_waiting_clients >= HIGH_POOL_WAIT_THRESHOLD {
            let reason = join2(
                usize_text(signals.pool_waiting_clients).as_str(),
                " checkout waiters are elevated; review pool sizing and backpressure thresholds",
            );
            list.push(
                AdaptiveRecommendation {
                    signal: AdaptiveSignal::PoolSizePressure,
                    knob: TunableKnob::PoolSize,
                    confidence,
                    reason,
                    window_ms,
                    safety_bound,
                },
            );
        }
        let events = signals.overload_events();
        if events >= HIGH_OVERLOAD_THRESHOLD {
            let reason = join2(
                u64_text(events).as_str(),
                " overload events were recorded; tighten backpressure or review capacity",
            );
            list.push(
                AdaptiveRecommendation {
                    signal: AdaptiveSignal::BackpressureThresholdPressure,
                    knob: TunableKnob::BackpressureThresholds,
                    confidence,
                    reason,
                    window_ms,
                    safety_bound,
                },
            );
        }
        if signals.mirror_dropped >= MIRROR_DROP_THRESHOLD && Double::zero().below(
            tuning.mirror_sample_rate,
        ) {
            let reason = join4(
                usize_text(signals.mirror_dropped).as_str(),
                " mirror drops were observed at a ",
                rate,
                " sample rate; lower the mirror sample rate",
            );
            list.push(
                AdaptiveRecommendation {
                    signal: AdaptiveSignal::MirrorSamplingPressure,
                    knob: TunableKnob::MirrorSampling,
                    confidence,
                    reason,
                    window_ms,
                    safety_bound,
                },
            );
        }
        assert(recommendation_facts(list@) =~= recommended(
            *signals,
            tuning.mirror_sample_rate,
            *adaptive,
            confidence,
            rate@,
        ));
        list
    }
}

// ---------------------------------------------------------------------------
// What becomes of recommendations
// ---------------------------------------------------------------------------

/// A recommendation as it is kept.
#[derive(Clone, Debug)]
pub struct AdaptiveRecommendationSnapshot {
    pub signal: AdaptiveSignal,
    pub knob: TunableKnob,
    pub confidence: String,
    pub reason: String,
}

/// A kept recommendation as plain values.
pub struct KeptFacts {
    pub signal: AdaptiveSignal,
    pub knob: TunableKnob,
    pub confidence: Seq<char>,
    pub reason: Seq<char>,
}

impl View for AdaptiveRecommendationSnapshot {
    type V = KeptFacts;

    open spec fn view(&self) -> KeptFacts {
        KeptFacts {
            signal: self.signal,
            knob: self.knob,
            confidence: self.confidence@,
            reason: self.reason@,
        }
    }
}

impl AdaptiveRecommendationSnapshot {
    /// A recommendation as it is kept, with its confidence as it is written.
    pub fn from_recommendation(recommendation: &AdaptiveRecommendation, confidence: &str) -> (r:
        AdaptiveRecommendationSnapshot)
        ensures
            r@ == kept(recommendation@, confidence@),
    {
        AdaptiveRecommendationSnapshot {
            signal: recommendation.signal,
            knob: recommendation.knob,
            confidence: confidence.to_owned(),
            reason: recommendation.reason.clone(),
        }
    }
}

/// A recommendation as it is kept.
pub open spec fn kept(recommendation: RecommendationFacts, confidence: Seq<char>) -> KeptFacts {
    KeptFacts {
        signal: recommendation.signal,
        knob: recommendation.knob,
        confidence,
        reason: recommendation.reason,
    }
}

/// What became of a recommendation.
#[derive(Clone, Debug)]
pub struct AdaptiveOutcomeSnapshot {
    pub signal: AdaptiveSignal,
    pub knob: TunableKnob,
    pub outcome: AdaptiveOutcome,
    pub reason: String,
    pub before_value: Option<Double>,
    pub after_value: Option<Double>,
    pub max_change_percent: Option<u8>,
    pub disabled_by_reload: bool,
}

/// What became of a recommendation, as plain values.
pub struct OutcomeFacts {
    pub signal: AdaptiveSignal,
    pub knob: TunableKnob,
    pub outcome: AdaptiveOutcome,
    pub reason: Seq<char>,
    pub before: Option<Double>,
    pub after: Option<Double>,
    pub percent: Option<u8>,
    pub disabled: bool,
}

impl View for AdaptiveOutcomeSnapshot {
    type V = OutcomeFacts;

    open spec fn view(&self) -> OutcomeFacts {
        OutcomeFacts {
            signal: self.signal,
            knob: self.knob,
            outcome: self.outcome,
            reason: self.reason@,
            before: self.before_value,
            after: self.after_value,
            percent: self.max_change_percent,
            disabled: self.disabled_by_reload,
        }
    }
}

/// A knob's value before and after it is turned.
#[derive(Clone, Copy, Debug)]
pub struct KnobChange {
    pub before: Double,
    pub after: Double,
}

/// Every knob's value before and after it is turned, and how the confidences are written.
#[derive(Clone, Debug)]
pub struct TickValues {
    pub confidence: Double,
    pub confidence_text: String,
    pub minimum_text: String,
    pub rate_text: String,
    pub pool_size: KnobChange,
    pub backpressure_thresholds: KnobChange,
    pub mirror_sampling: KnobChange,
    pub timeout: KnobChange,
}

impl TickValues {
    /// A knob's value before and after it is turned.
    pub open spec fn turned(self, knob: TunableKnob) -> KnobChange {
        match knob {
            TunableKnob::PoolSize => self.pool_size,
            TunableKnob::BackpressureThresholds => self.backpressure_thresholds,
            TunableKnob::MirrorSampling => self.mirror_sampling,
            TunableKnob::Timeout => self.timeout,
        }
    }

    /// A knob's value before and after it is turned.
    pub fn change(&self, knob: TunableKnob) -> (r: KnobChange)
        ensures
            r == self.turned(knob),
    {
        match knob {
            TunableKnob::PoolSize => self.pool_size,
            TunableKnob::BackpressureThresholds => self.backpressure_thresholds,
            TunableKnob::MirrorSampling => self.mirror_sampling,
            TunableKnob::Timeout => self.timeout,
        }
    }
}

/// What becomes of a recommendation under some settings.
pub open spec fn applied(
    adaptive: AdaptiveConfig,
    recommendation: RecommendationFacts,
    values: TickValues,
) -> OutcomeFacts {
    let plain = OutcomeFacts {
        signal: recommendation.signal,
        knob: recommendation.knob,
        outcome: AdaptiveOutcome::Rejected,
        reason: recommendation.reason,
        before: None,
        after: None,
        percent: recommendation.bound.percent(),
        disabled: false,
    };
    let off = adaptive.adaptive_mode != AdaptiveMode::Apply
        || !adaptive.apply.adaptive_apply_enabled;
    match adaptive.judged(recommendation.confidence, recommendation.knob, recommendation.bound) {
        Ok(AdaptiveOutcome::Applied) => OutcomeFacts {
            outcome: AdaptiveOutcome::Applied,
            before: Some(values.turned(recommendation.knob).before),
            after: Some(values.turned(recommendation.knob).after),
            ..plain
        },
        Ok(AdaptiveOutcome::Rejected) => plain,
        Ok(outcome) => OutcomeFacts { outcome, disabled: off, ..plain },
        Err(error) => OutcomeFacts {
            reason: error.text(values.confidence_text@, values.minimum_text@),
            ..plain
        },
    }
}

/// Nothing is ever turned unless the settings say that recommendations are to be applied, that
/// the knob may be turned and that the change is no larger than allowed.
pub proof fn law_applied_only_when_allowed(
    adaptive: AdaptiveConfig,
    recommendation: RecommendationFacts,
    values: TickValues,
)
    ensures
        applied(adaptive, recommendation, values).outcome == AdaptiveOutcome::Applied ==> {
            &&& adaptive.adaptive_mode == AdaptiveMode::Apply
            &&& adaptive.apply.adaptive_apply_enabled
            &&& adaptive.apply.adaptive_apply_allowlist@.contains(recommendation.knob)
            &&& !recommendation.confidence.less(adaptive.adaptive_min_confidence)
            &&& recommendation.bound is Percent
            &&& recommendation.bound->Percent_0 <= adaptive.guardrail.adaptive_max_change_percent
        },
        applied(adaptive, recommendation, values).after is Some ==> applied(
            adaptive,
            recommendation,
            values,
        ).outcome == AdaptiveOutcome::Applied,
{
}

/// Turns knobs, or says why not.
#[derive(Clone, Copy, Debug)]
pub struct AdaptiveApplyEngine;

impl AdaptiveApplyEngine {
    /// An engine. It keeps nothing from one call to the next.
    pub fn new() -> (r: AdaptiveApplyEngine)
        ensures
            r == AdaptiveApplyEngine,
    {
        AdaptiveApplyEngine
    }

    /// Says what becomes of a recommendation.
    pub fn apply(
        &self,
        config: &Config,
        recommendation: &AdaptiveRecommendation,
        values: &TickValues,
    ) -> (r: AdaptiveOutcomeSnapshot)
        ensures
            r@ == applied(config.runtime.production.adaptive, recommendation@, *values),
    {
        let adaptive = &config.runtime.production.adaptive;
        let off = !adaptive.adaptive_mode.is_apply() || !adaptive.apply.adaptive_apply_enabled;
        let percent = recommendation.safety_bound.max_change_percent();
        match adaptive.evaluate(recommendation) {
            Ok(AdaptiveOutcome::Applied) => {
                let change = values.change(recommendation.knob);
                AdaptiveOutcomeSnapshot {
                    signal: recommendation.signal,
                    knob: recommendation.knob,
                    outcome: AdaptiveOutcome::Applied,
                    reason: recommendation.reason.clone(),
                    before_value: Some(change.before),
                    after_value: Some(change.after),
                    max_change_percent: percent,
                    disabled_by_reload: false,
                }
            },
            Ok(outcome) => {
                let disabled = match outcome {
                    AdaptiveOutcome::Rejected => false,
                    _ => off,
                };
                AdaptiveOutcomeSnapshot {
                    signal: recommendation.signal,
                    knob: recommendation.knob,
                    outcome,
                    reason: recommendation.reason.clone(),
                    before_value: None,
                    after_value: None,
                    max_change_percent: percent,
                    disabled_by_reload: disabled,
                }
            },
            Err(error) => AdaptiveOutcomeSnapshot {
                signal: recommendation.signal,
                knob: recommendation.knob,
                outcome: AdaptiveOutcome::Rejected,
                reason: error.message(
                    values.confidence_text.as_str(),
                    values.minimum_text.as_str(),
                ),
                before_value: None,
                after_value: None,
                max_change_percent: percent,
                disabled_by_reload: false,
            },
        }
    }
}

// ---------------------------------------------------------------------------
// History
// ---------------------------------------------------------------------------

/// A list of bounded length behind which something is added: the oldest makes room.
pub open spec fn added<T>(list: Seq<T>, item: T, capacity: nat) -> Seq<T> {
    if list.len() == capacity {
        list.skip(1).push(item)
    } else {
        list.push(item)
    }
}

/// Recommendations as they are kept, as plain values.
pub open spec fn kept_facts(list: Seq<AdaptiveRecommendationSnapshot>) -> Seq<KeptFacts> {
    list.map_values(|item: AdaptiveRecommendationSnapshot| item@)
}

/// Outcomes as plain values.
pub open spec fn outcome_facts(list: Seq<AdaptiveOutcomeSnapshot>) -> Seq<OutcomeFacts> {
    list.map_values(|item: AdaptiveOutcomeSnapshot| item@)
}

/// The latest recommendations and what became of them.
#[derive(Debug)]
pub struct AdaptiveHistory {
    capacity: usize,
    recommendations: Vec<AdaptiveRecommendationSnapshot>,
    outcomes: Vec<AdaptiveOutcomeSnapshot>,
}

/// The latest recommendations and what became of them, as plain values.
pub struct HistoryFacts {
    pub capacity: nat,
    pub recommendations: Seq<KeptFacts>,
    pub outcomes: Seq<OutcomeFacts>,
}

impl View for AdaptiveHistory {
    type V = HistoryFacts;

    closed spec fn view(&self) -> HistoryFacts {
        HistoryFacts {
            capacity: self.capacity as nat,
            recommendations: kept_facts(self.recommendations@),
            outcomes: outcome_facts(self.outcomes@),
        }
    }
}

impl HistoryFacts {
    /// The history with one more recommendation.
    pub open spec fn with_recommendation(self, item: KeptFacts) -> HistoryFacts {
        HistoryFacts {
            recommendations: added(self.recommendations, item, self.capacity),
            ..self
        }
    }

    /// The history with one more outcome.
    pub open spec fn with_outcome(self, item: OutcomeFacts) -> HistoryFacts {
        HistoryFacts { outcomes: added(self.outcomes, item, self.capacity), ..self }
    }

    /// The history after some recommendations, each with what became of it.
    pub open spec fn after(
        self,
        list: Seq<RecommendationFacts>,
        adaptive: AdaptiveConfig,
        values: TickValues,
    ) -> HistoryFacts
        decreases list.len(),
    {
        if list.len() == 0 {
            self
        } else {
            self.after(list.drop_last(), adaptive, values).with_recommendation(
                kept(list.last(), values.confidence_text@),
            ).with_outcome(applied(adaptive, list.last(), values))
        }
    }
}

impl AdaptiveHistory {
    /// That nothing is kept beyond the capacity.
    pub closed spec fn wf(self) -> bool {
        &&& self.capacity >= 1
        &&& self.recommendations@.len() <= self.capacity
        &&& self.outcomes@.len() <= self.capacity
    }

    /// However much was recorded, no more is kept than there is room for.
    pub proof fn law_history_bounded(self)
        requires
            self.wf(),
        ensures
            1 <= self@.capacity,
            self@.recommendations.len() <= self@.capacity,
            self@.outcomes.len() <= self@.capacity,
    {
    }

    /// A history with room for some entries, one at least.
    pub fn new(capacity: usize) -> (r: AdaptiveHistory)
        ensures
            r.wf(),
            r@ == (HistoryFacts {
                capacity: if capacity == 0 {
                    1
                } else {
                    capacity as nat
                },
                recommendations: Seq::empty(),
                outcomes: Seq::empty(),
            }),
    {
        let history = AdaptiveHistory {
            capacity: if capacity == 0 {
                1
            } else {
                capacity
            },
            recommendations: Vec::new(),
            outcomes: Vec::new(),
        };
        assert(history@.recommendations =~= Seq::empty());
        assert(history@.outcomes =~= Seq::empty());
        history
    }

    /// Keeps a recommendation; the oldest makes room.
    pub fn record_recommendation(&mut self, snapshot: AdaptiveRecommendationSnapshot)
        requires
            old(self).wf(),
        ensures
            final(self).wf(),
            final(self)@ == old(self)@.with_recommendation(snapshot@),
    {
        if self.recommendations.len() == self.capacity {
            self.recommendations.remove(0);
        }
        self.recommendations.push(snapshot);
        assert(self@.recommendations =~= old(self)@.with_recommendation(snapshot@).recommendations);
    }

    /// Keeps an outcome; the oldest makes room.
    pub fn record_outcome(&mut self, snapshot: AdaptiveOutcomeSnapshot)
        requires
            old(self).wf(),
        ensures
            final(self).wf(),
            final(self)@ == old(self)@.with_outcome(snapshot@),
    {
        if self.outcomes.len() == self.capacity {
            self.outcomes.remove(0);
        }
        self.outcomes.push(snapshot);
        assert(self@.outcomes =~= old(self)@.with_outcome(snapshot@).outcomes);
    }

    /// The kept recommendations, the oldest first.
    pub fn recommendations(&self) -> (r: &Vec<AdaptiveRecommendationSnapshot>)
        ensures
            kept_facts(r@) == self@.recommendations,
    {
        &self.recommendations
    }

    /// The kept outcomes, the oldest first.
    pub fn outcomes(&self) -> (r: &Vec<AdaptiveOutcomeSnapshot>)
        ensures
            outcome_facts(r@) == self@.outcomes,
    {
        &self.outcomes
    }
}

impl Default for AdaptiveHistory {
    fn default() -> (r: AdaptiveHistory)
        ensures
            r.wf(),
            r@ == (HistoryFacts {
                capacity: DEFAULT_HISTORY_CAPACITY as nat,
                recommendations: Seq::empty(),
                outcomes: Seq::empty(),
            }),
    {
        AdaptiveHistory::new(DEFAULT_HISTORY_CAPACITY)
    }
}

/// Looks at the signals, recommends, and records what becomes of each recommendation.
#[derive(Debug)]
pub struct AdaptiveController {
    recommendation_engine: AdaptiveRecommendationEngine,
    apply_engine: AdaptiveApplyEngine,
    history: AdaptiveHistory,
}

impl AdaptiveController {
    /// What is recorded.
    pub closed spec fn record(self) -> HistoryFacts {
        self.history@
    }

    /// That the history is kept within its bounds.
    pub closed spec fn wf(self) -> bool {
        self.history.wf()
    }

    /// A controller that has recommended nothing yet.
    pub fn new() -> (r: AdaptiveController)
        ensures
            r.wf(),
            r.record() == (HistoryFacts {
                capacity: DEFAULT_HISTORY_CAPACITY as nat,
                recommendations: Seq::empty(),
                outcomes: Seq::empty(),
            }),
    {
        AdaptiveController {
            recommendation_engine: AdaptiveRecommendationEngine::new(),
            apply_engine: AdaptiveApplyEngine::new(),
            history: AdaptiveHistory::default(),
        }
    }

    /// What is recorded.
    pub fn history(&self) -> (r: &AdaptiveHistory)
        ensures
            r@ == self.record(),
    {
        &self.history
    }

    /// Looks once: nothing happens while the controller is switched off.
    pub fn tick(
        &mut self,
        config: &Config,
        signals: &AdaptiveSignalSnapshot,
        values: &TickValues,
    ) -> (r: Vec<AdaptiveRecommendation>)
        requires
            old(self).wf(),
            signals.overloads() <= u64::MAX,
        ensures
            final(self).wf(),
            ({
                let adaptive = config.runtime.production.adaptive;
                let list = recommendation_facts(r@);
                if config.runtime.production.adaptive_enabled {
                    &&& list == recommended(
                        *signals,
                        Double { bits: QUARTER_BITS },
                        adaptive,
                        values.confidence,
                        values.rate_text@,
                    )
                    &&& final(self).record() == old(self).record().after(list, adaptive, *values)
                } else {
                    r@.len() == 0 && final(self).record() == old(self).record()
                }
            }),
    {
        let ghost start = self.history@;
        if !config.runtime.production.adaptive_enabled {
            return Vec::new();
        }
        let tuning = AdaptiveTuningSnapshot::from_config(config);
        let adaptive = &config.runtime.production.adaptive;
        let list = self.recommendation_engine.recommend(
            signals,
            &tuning,
            adaptive,
            values.confidence,
            values.rate_text.as_str(),
        );
        let ghost facts = recommendation_facts(list@);
        let mut i: usize = 0;
        assert(facts.take(0) =~= Seq::empty());
        while i < list.len()
            invariant
                i <= list@.len(),
                facts == recommendation_facts(list@),
                adaptive == &config.runtime.production.adaptive,
                self.history.wf(),
                self.history@ == start.after(facts.take(i as int), *adaptive, *values),
            decreases list@.len() - i,
        {
            proof {
                assert(facts.take(i + 1).drop_last() =~= facts.take(i as int));
                assert(facts.take(i + 1).last() == list@[i as int]@);
            }
            self.history.record_recommendation(
                AdaptiveRecommendationSnapshot::from_recommendation(
                    &list[i],
                    values.confidence_text.as_str(),
                ),
            );
            let outcome = self.apply_engine.apply(config, &list[i], values);
            self.history.record_outcome(outcome);
            i += 1;
        }
        assert(facts.take(i as int) =~= facts);
        list
    }
}

/// Which knobs are recommended: the pool's size from eight waiting clients on, the backpressure
/// from three overloads on, and the share that is mirrored from one lost request on, where anything
/// is mirrored; in this order, each at most once.
pub proof fn law_recommended_exactly_where(
    signals: AdaptiveSignalSnapshot,
    sample_rate: Double,
    adaptive: AdaptiveConfig,
    confidence: Double,
    rate: Seq<char>,
)
    ensures
        ({
            let list = recommended(signals, sample_rate, adaptive, confidence, rate);
            let pool = signals.pool_waiting_clients >= 8;
            let overload = signals.backpressure_rejected + signals.backpressure_timed_out
                + signals.backpressure_canceled >= 3;
            let mirror = signals.mirror_dropped >= 1 && 0 < sample_rate.bits
                <= 0x7ff0_0000_0000_0000;
            let first = if pool {
                1int
            } else {
                0int
            };
            let second = first + (if overload {
                1int
            } else {
                0int
            });
            &&& list.len() == second + (if mirror {
                1int
            } else {
                0int
            })
            &&& pool ==> list[0].signal is PoolSizePressure && list[0].knob is PoolSize
            &&& overload ==> list[first].signal is BackpressureThresholdPressure
                && list[first].knob is BackpressureThresholds
            &&& mirror ==> list[second].signal is MirrorSamplingPressure
                && list[second].knob is MirrorSampling
            &&& forall|i: int|
                0 <= i < list.len() ==> (#[trigger] list[i]).confidence == confidence
                    && list[i].window_ms == adaptive.adaptive_window_ms && list[i].bound
                    == TuningBound::Percent(adaptive.guardrail.adaptive_max_change_percent)
        }),
{
}

/// What becomes of a recommendation: it is refused where its confidence is too low, only kept where
/// changes are not made, passed over where they are switched off, refused where the knob is not
/// listed or the change is not bounded well enough, and made otherwise, with the knob's own values.
pub proof fn law_outcome_of_recommendation(
    adaptive: AdaptiveConfig,
    recommendation: RecommendationFacts,
    values: TickValues,
)
    ensures
        ({
            let outcome = applied(adaptive, recommendation, values);
            let confident = !recommendation.confidence.less(adaptive.adaptive_min_confidence);
            let listed = adaptive.apply.adaptive_apply_allowlist@.contains(recommendation.knob);
            let bounded = recommendation.bound is Percent && recommendation.bound->Percent_0
                <= adaptive.guardrail.adaptive_max_change_percent;
            let applies = adaptive.adaptive_mode is Apply;
            let enabled = adaptive.apply.adaptive_apply_enabled;
            &&& outcome.signal == recommendation.signal
            &&& outcome.knob == recommendation.knob
            &&& outcome.outcome is Applied <==> confident && applies && enabled && listed && bounded
            &&& outcome.outcome is Recommended <==> confident && !applies
            &&& outcome.outcome is Skipped <==> confident && applies && !enabled
            &&& outcome.outcome is Rejected <==> !confident || (applies && enabled && !(listed
                && bounded))
            &&& outcome.disabled <==> confident && (!applies || !enabled)
            &&& outcome.before is Some <==> outcome.outcome is Applied
            &&& outcome.after is Some <==> outcome.outcome is Applied
            &&& outcome.outcome is Applied ==> {
                let change = match recommendation.knob {
                    TunableKnob::PoolSize => values.pool_size,
                    TunableKnob::BackpressureThresholds => values.backpressure_thresholds,
                    TunableKnob::MirrorSampling => values.mirror_sampling,
                    TunableKnob::Timeout => values.timeout,
                };
                outcome.before == Some(change.before) && outcome.after == Some(change.after)
            }
            &&& !(outcome.outcome is Rejected) ==> outcome.reason == recommendation.reason
        }),
{
}

/// The newest entry of a history stands last, and only the oldest makes room.
pub proof fn law_history_keeps_the_newest<T>(list: Seq<T>, item: T, capacity: nat)
    requires
        list.len() <= capacity,
        capacity >= 1,
    ensures
        added(list, item, capacity).last() == item,
        added(list, item, capacity).len() <= capacity,
        list.len() < capacity ==> added(list, item, capacity) == list.push(item),
        list.len() == capacity ==> forall|i: int|
            0 <= i < list.len() - 1 ==> #[trigger] added(list, item, capacity)[i] == list[i + 1],
{
}

/// What the queues say is summed over all of them.
pub proof fn law_queue_sums_add_up(queues: Seq<BackpressureSnapshot>, queue: BackpressureSnapshot)
    ensures
        waiting_sum(queues.push(queue)) == waiting_sum(queues) + queue.waiting,
        rejected_sum(queues.push(queue)) == rejected_sum(queues) + queue.rejected,
        timed_out_sum(queues.push(queue)) == timed_out_sum(queues) + queue.timed_out,
        canceled_sum(queues.push(queue)) == canceled_sum(queues) + queue.canceled,
        waiting_sum(Seq::empty()) == 0,
        rejected_sum(Seq::empty()) == 0,
        timed_out_sum(Seq::empty()) == 0,
        canceled_sum(Seq::empty()) == 0,
{
    assert(queues.push(queue).drop_last() =~= queues);
}

/// Each request that was to be mirrored is counted under what became of it.
pub proof fn law_outcome_counted_under_its_kind(
    observations: Seq<MirrorObservation>,
    observation: MirrorObservation,
)
    ensures
        ({
            let all = observations.push(observation);
            let one = |is: bool| if is { 1int } else { 0int };
            &&& count_outcomes(all, was_completed()) == count_outcomes(observations, was_completed())
                + one(observation.status is Completed)
            &&& count_outcomes(all, was_timed_out()) == count_outcomes(observations, was_timed_out())
                + one(observation.status is TimedOut)
            &&& count_outcomes(all, was_dropped()) == count_outcomes(observations, was_dropped())
                + one(observation.status is Dropped)
            &&& count_outcomes(all, was_skipped()) == count_outcomes(observations, was_skipped())
                + one(observation.status is Skipped)
            &&& count_outcomes(all, was_rejected()) == count_outcomes(observations, was_rejected())
                + one(observation.status is Rejected)
            &&& count_outcomes(all, was_failed()) == count_outcomes(observations, was_failed())
                + one(observation.status is Error)
        }),
{
    assert(observations.push(observation).drop_last() =~= observations);
}

} // verus!
