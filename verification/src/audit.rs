//! The audit trail: which queries are recorded, what a record says, and a bounded queue that never
//! makes a query wait.
use vstd::prelude::*;

use crate::auth::hex_digit;
use crate::clock::Duration;
use crate::double::Double;
use crate::text::{join5, push_char};

verus! {

/// How many records may wait to be written.
pub const CHANNEL_CAPACITY: usize = 256;

/// Which queries are recorded, and where.
#[derive(Clone, Debug, PartialEq)]
pub struct AuditConfig {
    pub enabled: bool,
    pub sink: Option<String>,
    pub sample_rate: Double,
    pub include_reads: bool,
}

impl Default for AuditConfig {
    fn default() -> (r: AuditConfig)
        ensures
            !r.enabled,
            r.sink is None,
            r.sample_rate.bits == crate::double::one_bits(),
            !r.include_reads,
    {
        AuditConfig { enabled: false, sink: None, sample_rate: Double::one(), include_reads: false }
    }
}

/// What is recorded of a query. It holds no value that the query was given.
#[derive(Clone, Debug, PartialEq, Eq)]
pub struct AuditRecord {
    pub route: String,
    pub identity: String,
    pub fingerprint: String,
    pub template: String,
    pub query_class: String,
    pub outcome: String,
    pub latency_ms: u64,
    pub rows: u64,
}

/// A record as plain values.
pub struct RecordFacts {
    pub route: Seq<char>,
    pub identity: Seq<char>,
    pub fingerprint: Seq<char>,
    pub template: Seq<char>,
    pub query_class: Seq<char>,
    pub outcome: Seq<char>,
    pub latency_ms: u64,
    pub rows: u64,
}

impl View for AuditRecord {
    type V = RecordFacts;

    open spec fn view(&self) -> RecordFacts {
        RecordFacts {
            route: self.route@,
            identity: self.identity@,
            fingerprint: self.fingerprint@,
            template: self.template@,
            query_class: self.query_class@,
            outcome: self.outcome@,
            latency_ms: self.latency_ms,
            rows: self.rows,
        }
    }
}

/// The records that wait to be written, and how many were lost.
#[derive(Debug)]
pub struct AuditDispatcher {
    queue: Vec<AuditRecord>,
    capacity: usize,
    connected: bool,
    dropped: u64,
}

/// What each record says.
pub open spec fn record_views(queue: Seq<AuditRecord>) -> Seq<RecordFacts> {
    Seq::new(queue.len(), |i: int| queue[i]@)
}

/// A queue as plain values.
pub struct QueueFacts {
    pub waiting: Seq<RecordFacts>,
    pub capacity: nat,
    pub connected: bool,
    pub dropped: int,
}

impl View for AuditDispatcher {
    type V = QueueFacts;

    closed spec fn view(&self) -> QueueFacts {
        QueueFacts {
            waiting: record_views(self.queue@),
            capacity: self.capacity as nat,
            connected: self.connected,
            dropped: self.dropped as int,
        }
    }
}

/// Whether a record finds room.
pub open spec fn has_room(queue: QueueFacts) -> bool {
    queue.connected && queue.waiting.len() < queue.capacity
}

/// The queue after a record was handed to it: one more waits, or one more was lost.
pub open spec fn enqueued(queue: QueueFacts, record: RecordFacts) -> QueueFacts {
    if has_room(queue) {
        QueueFacts { waiting: queue.waiting.push(record), ..queue }
    } else {
        QueueFacts { dropped: (queue.dropped + 1) % 0x1_0000_0000_0000_0000, ..queue }
    }
}

impl AuditDispatcher {
    /// A queue where the trail is on.
    pub fn from_config(config: &AuditConfig) -> (r: Option<AuditDispatcher>)
        ensures
            match r {
                Some(dispatcher) => config.enabled && dispatcher@ == (QueueFacts {
                    waiting: Seq::empty(),
                    capacity: CHANNEL_CAPACITY as nat,
                    connected: true,
                    dropped: 0,
                }),
                None => !config.enabled,
            },
            r is Some <==> config.enabled,
            r matches Some(dispatcher) ==> dispatcher@.capacity == 256,
    {
        if !config.enabled {
            return None;
        }
        Some(AuditDispatcher::with_capacity(CHANNEL_CAPACITY))
    }

    /// A queue with room for so many records.
    pub fn with_capacity(capacity: usize) -> (r: AuditDispatcher)
        ensures
            r@ == (QueueFacts {
                waiting: Seq::empty(),
                capacity: capacity as nat,
                connected: true,
                dropped: 0,
            }),
    {
        let dispatcher = AuditDispatcher {
            queue: Vec::new(),
            capacity,
            connected: true,
            dropped: 0,
        };
        assert(dispatcher@.waiting =~= Seq::empty());
        dispatcher
    }

    /// Says that nothing writes the records any more.
    pub fn disconnect(&mut self)
        ensures
            final(self)@ == (QueueFacts { connected: false, ..old(self)@ }),
    {
        self.connected = false;
    }

    /// Hands a record to the queue, which takes it at once or loses it.
    pub fn record(&mut self, record: AuditRecord) -> (r: bool)
        ensures
            r == has_room(old(self)@),
            final(self)@ == enqueued(old(self)@, record@),
    {
        assert(self@.waiting.len() == self.queue@.len());
        if self.connected && self.queue.len() < self.capacity {
            let ghost before = self.queue@;
            let ghost facts = record@;
            self.queue.push(record);
            assert(record_views(self.queue@) =~= record_views(before).push(facts));
            true
        } else {
            self.dropped = self.dropped.wrapping_add(1);
            false
        }
    }

    /// Takes the record that waits longest.
    pub fn take(&mut self) -> (r: Option<AuditRecord>)
        ensures
            match r {
                Some(record) => old(self)@.waiting.len() > 0 && record@ == old(self)@.waiting[0]
                    && final(self)@ == (QueueFacts {
                    waiting: old(self)@.waiting.drop_first(),
                    ..old(self)@
                }),
                None => old(self)@.waiting.len() == 0 && final(self)@ == old(self)@,
            },
    {
        assert(self@.waiting.len() == self.queue@.len());
        if self.queue.is_empty() {
            return None;
        }
        let ghost before = self.queue@;
        let record = self.queue.remove(0);
        assert(record_views(self.queue@) =~= record_views(before).drop_first());
        assert(record@ == record_views(before)[0]);
        Some(record)
    }

    /// How many records were lost.
    pub fn dropped(&self) -> (r: u64)
        ensures
            r == self@.dropped,
    {
        self.dropped
    }
}

/// The queue never grows past its room, and what waits keeps its order.
pub proof fn law_queue_bounded(queue: QueueFacts, record: RecordFacts)
    requires
        queue.waiting.len() <= queue.capacity,
    ensures
        enqueued(queue, record).waiting.len() <= queue.capacity,
        crate::text::has_prefix(enqueued(queue, record).waiting, queue.waiting),
{
    if has_room(queue) {
        assert(queue.waiting.push(record).take(queue.waiting.len() as int) =~= queue.waiting);
    } else {
        assert(queue.waiting.take(queue.waiting.len() as int) =~= queue.waiting);
    }
}

/// Every record that is handed over either waits or is counted as lost.
pub proof fn law_nothing_lost_silently(queue: QueueFacts, record: RecordFacts)
    requires
        0 <= queue.dropped < u64::MAX,
    ensures
        enqueued(queue, record).waiting.len() + enqueued(queue, record).dropped
            == queue.waiting.len() + queue.dropped + 1,
{
}

/// What happens to the queue.
pub enum QueueStep {
    /// A record is handed over.
    Record(RecordFacts),
    /// A record is taken out to be written.
    Take,
    /// Nobody takes records out any more.
    Disconnect,
}

/// The queue after a step.
pub open spec fn after_step(queue: QueueFacts, step: QueueStep) -> QueueFacts {
    match step {
        QueueStep::Record(record) => enqueued(queue, record),
        QueueStep::Take => if queue.waiting.len() > 0 {
            QueueFacts { waiting: queue.waiting.drop_first(), ..queue }
        } else {
            queue
        },
        QueueStep::Disconnect => QueueFacts { connected: false, ..queue },
    }
}

/// The queue after some steps.
pub open spec fn after_steps(queue: QueueFacts, steps: Seq<QueueStep>) -> QueueFacts
    decreases steps.len(),
{
    if steps.len() == 0 {
        queue
    } else {
        after_step(after_steps(queue, steps.drop_last()), steps.last())
    }
}

/// How many records were turned away in some steps.
pub open spec fn turned_away(queue: QueueFacts, steps: Seq<QueueStep>) -> nat
    decreases steps.len(),
{
    if steps.len() == 0 {
        0
    } else {
        turned_away(queue, steps.drop_last()) + if steps.last() is Record && !has_room(
            after_steps(queue, steps.drop_last()),
        ) {
            1nat
        } else {
            0nat
        }
    }
}

/// Whatever was handed over and taken out, the count of the lost records is that of the records
/// that were turned away.
pub proof fn law_lost_are_turned_away(queue: QueueFacts, steps: Seq<QueueStep>)
    requires
        queue.dropped == 0,
        steps.len() <= u64::MAX,
    ensures
        after_steps(queue, steps).dropped == turned_away(queue, steps),
        turned_away(queue, steps) <= steps.len(),
    decreases steps.len(),
{
    if steps.len() > 0 {
        law_lost_are_turned_away(queue, steps.drop_last());
    }
}

// ---------------------------------------------------------------------------
// Records
// ---------------------------------------------------------------------------

/// The sixteen hexadecimal digits of a number.
pub open spec fn hex16(value: u64) -> Seq<char> {
    Seq::new(16, |i: int| hex_digit((value as int / power16(15 - i)) % 16))
}

/// Sixteen to a power.
pub open spec fn power16(n: int) -> int
    decreases n,
{
    if n <= 0 {
        1
    } else {
        16 * power16(n - 1)
    }
}

/// A number under which a text can be found again, without the text.
pub open spec fn opaque_text(hash: u64) -> Seq<char> {
    "h"@ + hex16(hash)
}

proof fn lemma_power16()
    ensures
        power16(0) == 1,
        power16(1) == 0x10,
        power16(2) == 0x100,
        power16(3) == 0x1000,
        power16(4) == 0x1_0000,
        power16(5) == 0x10_0000,
        power16(6) == 0x100_0000,
        power16(7) == 0x1000_0000,
        power16(8) == 0x1_0000_0000,
        power16(9) == 0x10_0000_0000,
        power16(10) == 0x100_0000_0000,
        power16(11) == 0x1000_0000_0000,
        power16(12) == 0x1_0000_0000_0000,
        power16(13) == 0x10_0000_0000_0000,
        power16(14) == 0x100_0000_0000_0000,
        power16(15) == 0x1000_0000_0000_0000,
{
    reveal_with_fuel(power16, 16);
}

fn hex16_char(n: u64) -> (r: char)
    requires
        n < 16,
    ensures
        r == hex_digit(n as int),
{
    if n < 10 {
        (48u8 + n as u8) as char
    } else {
        (87u8 + n as u8) as char
    }
}

/// Writes a number under which a text can be found again.
pub fn opaque_id_of(hash: u64) -> (r: String)
    ensures
        r@ == opaque_text(hash),
{
    let mut out = "h".to_owned();
    let mut unit: u64 = 0x1000_0000_0000_0000;
    let mut i: usize = 0;
    proof {
        lemma_power16();
    }
    assert(out@ =~= "h"@ + hex16(hash).take(0));
    while i < 16
        invariant
            i <= 16,
            unit == (if i < 16 {
                power16(15 - i)
            } else {
                0
            }),
            out@ == "h"@ + hex16(hash).take(i as int),
        decreases 16 - i,
    {
        proof {
            lemma_power16();
        }
        push_char(&mut out, hex16_char((hash / unit) % 16));
        assert(out@ =~= "h"@ + hex16(hash).take(i + 1));
        i += 1;
        assert(i < 16 ==> unit / 16 == power16(15 - i)) by {
            lemma_power16();
        }
        unit = unit / 16;
        assert(i == 16 ==> unit == 0) by {
            lemma_power16();
        }
    }
    assert(hex16(hash).take(16) =~= hex16(hash));
    out
}

/// The number that a hasher made by `std::hash::DefaultHasher::new` gives a text.
pub uninterp spec fn text_hash_of(text: Seq<char>) -> u64;

/// Hashes a text with `std::hash::DefaultHasher`. Every hasher that `new` makes gives the same text
/// the same number; which number that is, is not specified.
#[verifier::external_body]
fn text_hash(value: &str) -> (r: u64)
    ensures
        r == text_hash_of(value@),
{
    let mut hasher = std::hash::DefaultHasher::new();
    std::hash::Hash::hash(value, &mut hasher);
    std::hash::Hasher::finish(&hasher)
}

/// A number under which a text can be found again, in sixteen digits, without the text.
pub fn opaque_id(value: &str) -> (r: String)
    ensures
        r@ == opaque_text(text_hash_of(value@)),
{
    let hash = text_hash(value);
    opaque_id_of(hash)
}

/// Whether a query is sampled at a rate, where `below` says whether the query's own number lies
/// below the rate: always from one on, and never at zero or below or where the rate is no number.
pub open spec fn is_sampled(rate: Double, below: bool) -> bool {
    if !rate.is_nan() && rate.rank() >= crate::double::one_bits() {
        true
    } else if !rate.finite() || rate.rank() <= 0 {
        false
    } else {
        below
    }
}

/// Whether a query is sampled at a rate, where `below` says whether the query's own number lies
/// below the rate.
pub fn sample(rate: Double, below: bool) -> (r: bool)
    ensures
        r == is_sampled(rate, below),
{
    if !rate.nan() && !rate.below(Double::one()) {
        return true;
    }
    if !rate.is_finite() || !Double::zero().below(rate) {
        return false;
    }
    below
}

/// What a query was, for the trail.
#[derive(Clone, Debug)]
pub struct AuditedQuery {
    pub route_label: String,
    pub database: String,
    pub user: String,
    pub application_name: Option<String>,
    pub query_class: String,
    pub routes_to_replica: bool,
    pub fingerprint: String,
    pub outcome: String,
    pub latency: Duration,
    pub rows: u64,
}

/// Whether a query is recorded.
pub open spec fn is_recorded(config: AuditConfig, query: AuditedQuery, below: bool) -> bool {
    (config.include_reads || !query.routes_to_replica) && is_sampled(
        config.sample_rate.clamped(),
        below,
    )
}

/// Whole milliseconds, as far as they can be counted.
pub open spec fn capped_millis(span: nat) -> u64 {
    if span / 1_000_000 <= u64::MAX {
        (span / 1_000_000) as u64
    } else {
        u64::MAX
    }
}

/// Who ran a query: database, user and application, with slashes between them.
pub open spec fn identity_text(query: AuditedQuery) -> Seq<char> {
    query.database@ + "/"@ + query.user@ + "/"@ + (match query.application_name {
        Some(name) => name@,
        None => "<none>"@,
    })
}

/// The record of a query: it names route and user by numbers alone, and the query by its
/// fingerprint.
pub open spec fn audit_record(query: AuditedQuery) -> RecordFacts {
    RecordFacts {
        route: opaque_text(text_hash_of(query.route_label@)),
        identity: opaque_text(text_hash_of(identity_text(query))),
        fingerprint: query.fingerprint@,
        template: query.fingerprint@,
        query_class: query.query_class@,
        outcome: query.outcome@,
        latency_ms: capped_millis(query.latency@),
        rows: query.rows,
    }
}

/// Writes the record of a query, given the numbers under which its route and its user are found
/// again.
pub fn record_of(query: &AuditedQuery, route_id: String, identity_id: String) -> (r: AuditRecord)
    ensures
        r@ == (RecordFacts {
            route: route_id@,
            identity: identity_id@,
            fingerprint: query.fingerprint@,
            template: query.fingerprint@,
            query_class: query.query_class@,
            outcome: query.outcome@,
            latency_ms: capped_millis(query.latency@),
            rows: query.rows,
        }),
{
    let millis = query.latency.as_millis();
    AuditRecord {
        route: route_id,
        identity: identity_id,
        fingerprint: query.fingerprint.clone(),
        template: query.fingerprint.clone(),
        query_class: query.query_class.clone(),
        outcome: query.outcome.clone(),
        latency_ms: if millis <= u64::MAX as u128 {
            millis as u64
        } else {
            u64::MAX
        },
        rows: query.rows,
    }
}

/// The number by which a query is sampled: its fingerprint's hash.
pub fn sample_hash(query: &AuditedQuery) -> (r: u64)
    ensures
        r == text_hash_of(query.fingerprint@),
{
    text_hash(query.fingerprint.as_str())
}

/// Records a query, where it is to be recorded. The answer is whether a record was handed over and
/// found room.
pub fn record_query(
    dispatcher: &mut AuditDispatcher,
    config: &AuditConfig,
    query: &AuditedQuery,
    below: bool,
) -> (r: bool)
    ensures
        r == (is_recorded(*config, *query, below) && has_room(old(dispatcher)@)),
        final(dispatcher)@ == if is_recorded(*config, *query, below) {
            enqueued(old(dispatcher)@, audit_record(*query))
        } else {
            old(dispatcher)@
        },
        r ==> final(dispatcher)@.waiting.len() == old(dispatcher)@.waiting.len() + 1,
        !r ==> final(dispatcher)@.waiting == old(dispatcher)@.waiting,
        query.routes_to_replica && !config.include_reads ==> !r && final(dispatcher)@ == old(
            dispatcher,
        )@,
{
    if !config.include_reads && query.routes_to_replica {
        return false;
    }
    if !sample(config.sample_rate.clamp_unit(), below) {
        return false;
    }
    let application = match &query.application_name {
        Some(name) => name.clone(),
        None => "<none>".to_owned(),
    };
    let identity = join5(
        query.database.as_str(),
        "/",
        query.user.as_str(),
        "/",
        application.as_str(),
    );
    let record = record_of(
        query,
        opaque_id(query.route_label.as_str()),
        opaque_id(identity.as_str()),
    );
    dispatcher.record(record)
}

/// A record is kept exactly where somebody takes records and fewer wait than may; otherwise it is
/// counted as lost, and what waits stays.
pub proof fn law_record_kept_or_lost(queue: QueueFacts, record: RecordFacts)
    requires
        0 <= queue.dropped < u64::MAX,
    ensures
        ({
            let next = enqueued(queue, record);
            &&& next.capacity == queue.capacity
            &&& next.connected == queue.connected
            &&& queue.connected && queue.waiting.len() < queue.capacity ==> next.waiting
                == queue.waiting.push(record) && next.dropped == queue.dropped
            &&& !(queue.connected && queue.waiting.len() < queue.capacity) ==> next.waiting
                == queue.waiting && next.dropped == queue.dropped + 1
        }),
{
}

/// A request is recorded exactly where its kind is and it falls into the sample: all of them at a
/// rate of one or more, none at zero or below or where the rate is no number. Reads on replicas are
/// recorded only where that is set.
pub proof fn law_recorded_exactly_where(config: AuditConfig, query: AuditedQuery, below: bool)
    ensures
        query.routes_to_replica && !config.include_reads ==> !is_recorded(config, query, below),
        ({
            let bits = config.sample_rate.bits;
            &&& config.include_reads || !query.routes_to_replica ==> {
                &&& 0x3ff0_0000_0000_0000 <= bits < 0x7ff0_0000_0000_0000 ==> is_recorded(
                    config,
                    query,
                    below,
                )
                &&& 0 < bits < 0x3ff0_0000_0000_0000 ==> is_recorded(config, query, below) == below
            }
            &&& bits == 0 || bits >= 0x7ff0_0000_0000_0000 ==> !is_recorded(config, query, below)
        }),
{
}

/// A record tells nothing of who made the request but a digest: neither its route nor its identity
/// stands in it. It keeps the statement's fingerprint, its kind, its outcome, its rows and its time
/// in whole milliseconds.
pub proof fn law_record_of_request(query: AuditedQuery)
    ensures
        ({
            let record = audit_record(query);
            &&& record.route == opaque_text(text_hash_of(query.route_label@))
            &&& record.identity == opaque_text(
                text_hash_of(
                    query.database@ + seq!['/'] + query.user@ + seq!['/'] + (
                    match query.application_name {
                        Some(name) => name@,
                        None => seq!['<', 'n', 'o', 'n', 'e', '>'],
                    }),
                ),
            )
            &&& record.fingerprint == query.fingerprint@
            &&& record.template == query.fingerprint@
            &&& record.query_class == query.query_class@
            &&& record.outcome == query.outcome@
            &&& record.rows == query.rows
            &&& query.latency@ / 1_000_000 <= u64::MAX ==> record.latency_ms == query.latency@
                / 1_000_000
            &&& query.latency@ / 1_000_000 > u64::MAX ==> record.latency_ms == u64::MAX
        }),
{
    reveal_strlit("/");
    reveal_strlit("<none>");
    assert("/"@ =~= seq!['/']);
    assert("<none>"@ =~= seq!['<', 'n', 'o', 'n', 'e', '>']);
}

} // verus!
