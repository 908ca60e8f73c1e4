//! Buffers that are kept from one session to the next, and what they cost.
use vstd::prelude::*;

use crate::buffer::{
    buffer_bytes, buffer_len, buffer_slice, clear_buffer, new_buffer, put_bytes, put_i32, put_u8,
    wrap_i32,
};
use crate::wire::{lemma_wrapped_field, Frame};

verus! {

/// How buffers begin, and how many sessions' buffers are kept.
#[derive(Clone, Copy, Debug, PartialEq, Eq, Structural)]
pub struct BufferReusePolicy {
    pub initial_capacity: usize,
    pub max_cached_sessions: usize,
}

impl Default for BufferReusePolicy {
    fn default() -> (r: BufferReusePolicy)
        ensures
            r.initial_capacity == 16_384,
            r.max_cached_sessions == 64,
    {
        BufferReusePolicy { initial_capacity: 16_384, max_cached_sessions: 64 }
    }
}

/// How large a buffer may be to be kept.
#[derive(Clone, Copy, Debug, PartialEq, Eq, Structural)]
pub struct OversizedBufferPolicy {
    pub max_retained_capacity: usize,
}

impl Default for OversizedBufferPolicy {
    fn default() -> (r: OversizedBufferPolicy)
        ensures
            r.max_retained_capacity == 65_536,
    {
        OversizedBufferPolicy { max_retained_capacity: 65_536 }
    }
}

/// What the buffers have cost so far. The counts start over once they are full.
#[derive(Clone, Copy, Debug, PartialEq, Eq, Structural)]
pub struct ProxyBufferStats {
    pub sessions_created: u64,
    pub sessions_reused: u64,
    pub allocations: u64,
    pub allocation_bytes: u64,
    pub copies: u64,
    pub copied_bytes: u64,
    pub frontend_to_backend_copies: u64,
    pub frontend_to_backend_copied_bytes: u64,
    pub backend_to_client_copies: u64,
    pub backend_to_client_copied_bytes: u64,
    pub oversized_buffers_released: u64,
}

/// A count after some more.
pub open spec fn more(count: u64, by: int) -> u64 {
    ((count + by) % 0x1_0000_0000_0000_0000) as u64
}

fn counted(count: u64, by: usize) -> (r: u64)
    ensures
        r == more(count, by as int),
{
    count.wrapping_add(by as u64)
}

impl Default for ProxyBufferStats {
    fn default() -> (r: ProxyBufferStats)
        ensures
            r == no_stats(),
    {
        ProxyBufferStats {
            sessions_created: 0,
            sessions_reused: 0,
            allocations: 0,
            allocation_bytes: 0,
            copies: 0,
            copied_bytes: 0,
            frontend_to_backend_copies: 0,
            frontend_to_backend_copied_bytes: 0,
            backend_to_client_copies: 0,
            backend_to_client_copied_bytes: 0,
            oversized_buffers_released: 0,
        }
    }
}

/// Nothing was counted yet.
pub open spec fn no_stats() -> ProxyBufferStats {
    ProxyBufferStats {
        sessions_created: 0,
        sessions_reused: 0,
        allocations: 0,
        allocation_bytes: 0,
        copies: 0,
        copied_bytes: 0,
        frontend_to_backend_copies: 0,
        frontend_to_backend_copied_bytes: 0,
        backend_to_client_copies: 0,
        backend_to_client_copied_bytes: 0,
        oversized_buffers_released: 0,
    }
}

/// The counts after a copy of a client's message.
pub open spec fn after_frontend_copy(stats: ProxyBufferStats, bytes: int) -> ProxyBufferStats {
    ProxyBufferStats {
        copies: more(stats.copies, 1),
        copied_bytes: more(stats.copied_bytes, bytes),
        frontend_to_backend_copies: more(stats.frontend_to_backend_copies, 1),
        frontend_to_backend_copied_bytes: more(stats.frontend_to_backend_copied_bytes, bytes),
        ..stats
    }
}

/// The counts after a copy of a server's message.
pub open spec fn after_backend_copy(stats: ProxyBufferStats, bytes: int) -> ProxyBufferStats {
    ProxyBufferStats {
        copies: more(stats.copies, 1),
        copied_bytes: more(stats.copied_bytes, bytes),
        backend_to_client_copies: more(stats.backend_to_client_copies, 1),
        backend_to_client_copied_bytes: more(stats.backend_to_client_copied_bytes, bytes),
        ..stats
    }
}

fn record_frontend_copy(stats: &mut ProxyBufferStats, payload_len: usize)
    ensures
        *final(stats) == after_frontend_copy(*old(stats), payload_len as int),
{
    stats.copies = counted(stats.copies, 1);
    stats.copied_bytes = counted(stats.copied_bytes, payload_len);
    stats.frontend_to_backend_copies = counted(stats.frontend_to_backend_copies, 1);
    stats.frontend_to_backend_copied_bytes = counted(
        stats.frontend_to_backend_copied_bytes,
        payload_len,
    );
}

fn record_backend_copy(stats: &mut ProxyBufferStats, payload_len: usize)
    ensures
        *final(stats) == after_backend_copy(*old(stats), payload_len as int),
{
    stats.copies = counted(stats.copies, 1);
    stats.copied_bytes = counted(stats.copied_bytes, payload_len);
    stats.backend_to_client_copies = counted(stats.backend_to_client_copies, 1);
    stats.backend_to_client_copied_bytes = counted(
        stats.backend_to_client_copied_bytes,
        payload_len,
    );
}

/// The counts after a buffer was found to have a capacity, where `known` was known of it.
pub open spec fn after_observed(
    stats: ProxyBufferStats,
    known: usize,
    capacity: usize,
) -> ProxyBufferStats {
    if capacity > known {
        ProxyBufferStats {
            allocations: more(stats.allocations, 1),
            allocation_bytes: more(stats.allocation_bytes, capacity - known),
            ..stats
        }
    } else {
        stats
    }
}

/// Takes in the capacity that a buffer has now. What it has more than was known was allocated.
pub fn observe_capacity(capacity: usize, known_capacity: &mut usize, stats: &mut ProxyBufferStats)
    ensures
        *final(stats) == after_observed(*old(stats), *old(known_capacity), capacity),
        *final(known_capacity) == if capacity > *old(known_capacity) {
            capacity
        } else {
            *old(known_capacity)
        },
{
    if capacity > *known_capacity {
        stats.allocations = counted(stats.allocations, 1);
        stats.allocation_bytes = counted(stats.allocation_bytes, capacity - *known_capacity);
        *known_capacity = capacity;
    }
}

/// The counts after an oversized buffer was given up for a new one.
pub open spec fn after_released(
    stats: ProxyBufferStats,
    initial_capacity: usize,
) -> ProxyBufferStats {
    ProxyBufferStats {
        oversized_buffers_released: more(stats.oversized_buffers_released, 1),
        allocations: more(stats.allocations, 1),
        allocation_bytes: more(stats.allocation_bytes, initial_capacity as int),
        ..stats
    }
}

/// The counts after some oversized buffers were given up for new ones.
pub open spec fn after_releases(
    stats: ProxyBufferStats,
    initial_capacity: usize,
    times: nat,
) -> ProxyBufferStats
    decreases times,
{
    if times == 0 {
        stats
    } else {
        after_released(
            after_releases(stats, initial_capacity, (times - 1) as nat),
            initial_capacity,
        )
    }
}

/// Whether a buffer is given up: it is empty and larger than may be kept.
pub open spec fn is_given_up(length: nat, capacity: usize, policy: OversizedBufferPolicy) -> bool {
    length == 0 && capacity > policy.max_retained_capacity
}

/// The capacity that is known of a buffer once it was looked at, where it is given up if it is
/// empty and larger than may be kept.
pub open spec fn known_after_trim(
    length: nat,
    known: usize,
    capacity: usize,
    initial_capacity: usize,
    policy: OversizedBufferPolicy,
) -> usize {
    if is_given_up(length, capacity, policy) {
        initial_capacity
    } else {
        known
    }
}

/// The counts once a buffer was looked at, where it is given up if it is empty and larger than
/// may be kept.
pub open spec fn stats_after_trim(
    length: nat,
    stats: ProxyBufferStats,
    capacity: usize,
    initial_capacity: usize,
    policy: OversizedBufferPolicy,
) -> ProxyBufferStats {
    if is_given_up(length, capacity, policy) {
        after_released(stats, initial_capacity)
    } else {
        stats
    }
}

/// Calls `BytesMut::capacity`: the buffer has room for what it holds. Nothing more is said of the
/// number: it is what the allocator gave.
#[verifier::external_body]
fn capacity_of(buffer: &bytes::BytesMut) -> (r: usize)
    ensures
        buffer_bytes(*buffer).len() <= r,
{
    buffer.capacity()
}

/// Calls `BytesMut::with_capacity`: the buffer is empty.
#[verifier::external_body]
fn buffer_with_capacity(capacity: usize) -> (r: bytes::BytesMut)
    requires
        capacity <= isize::MAX,
    ensures
        buffer_bytes(r) == Seq::<u8>::empty(),
{
    bytes::BytesMut::with_capacity(capacity)
}

/// The most that a list of frames may have room for without being shrunk once it is empty.
pub const MAX_RETAINED_FRAMES: usize = 1_024;

/// What a list of frames is shrunk to.
pub const SHRUNK_FRAMES: usize = 64;

/// Calls `Vec::capacity`: the list has room for what it holds. Nothing more is said of the number:
/// it is what the allocator gave.
#[verifier::external_body]
fn frames_capacity(frames: &Vec<([u8; 5], bytes::Bytes)>) -> (r: usize)
    ensures
        frames@.len() <= r,
{
    frames.capacity()
}

/// Calls `Vec::shrink_to`: the list holds what it held. How much room it has left is not said
/// here: it is what the allocator gave, with room for `least` frames where it had that much.
#[verifier::external_body]
fn shrink_frames(frames: &mut Vec<([u8; 5], bytes::Bytes)>, least: usize)
    ensures
        final(frames)@ == old(frames)@,
{
    frames.shrink_to(least)
}

/// What a list of frames with some capacity is shrunk to, if it is larger than may be kept.
pub fn frames_decision(capacity: usize) -> (r: Option<usize>)
    ensures
        r == if capacity > MAX_RETAINED_FRAMES {
            Some(SHRUNK_FRAMES)
        } else {
            None::<usize>
        },
{
    if capacity > MAX_RETAINED_FRAMES {
        Some(SHRUNK_FRAMES)
    } else {
        None
    }
}

/// Empties a list of frames, and shrinks it where it is larger than may be kept.
fn empty_frames(frames: &mut Vec<([u8; 5], bytes::Bytes)>)
    ensures
        final(frames)@ == Seq::<([u8; 5], bytes::Bytes)>::empty(),
{
    frames.clear();
    assert(frames@ =~= Seq::empty());
    if let Some(least) = frames_decision(frames_capacity(frames)) {
        shrink_frames(frames, least);
    }
}

/// Decides whether a buffer of some length and capacity is given up, and counts it.
pub fn trim_decision(
    length: usize,
    capacity: usize,
    known_capacity: &mut usize,
    initial_capacity: usize,
    policy: OversizedBufferPolicy,
    stats: &mut ProxyBufferStats,
) -> (r: bool)
    ensures
        r == is_given_up(length as nat, capacity, policy),
        *final(known_capacity) == if r {
            initial_capacity
        } else {
            *old(known_capacity)
        },
        *final(stats) == if r {
            after_released(*old(stats), initial_capacity)
        } else {
            *old(stats)
        },
{
    if length == 0 && capacity > policy.max_retained_capacity {
        *known_capacity = initial_capacity;
        stats.oversized_buffers_released = counted(stats.oversized_buffers_released, 1);
        stats.allocations = counted(stats.allocations, 1);
        stats.allocation_bytes = counted(stats.allocation_bytes, initial_capacity);
        true
    } else {
        false
    }
}

/// Gives a buffer up for a new one where it is empty and larger than may be kept. The answer is
/// the capacity that it was found to have.
fn trim_buffer(
    buffer: &mut bytes::BytesMut,
    known_capacity: &mut usize,
    initial_capacity: usize,
    policy: OversizedBufferPolicy,
    stats: &mut ProxyBufferStats,
) -> (r: usize)
    requires
        initial_capacity <= isize::MAX,
    ensures
        buffer_bytes(*final(buffer)) == buffer_bytes(*old(buffer)),
        buffer_bytes(*old(buffer)).len() <= r,
        *final(known_capacity) == known_after_trim(
            buffer_bytes(*old(buffer)).len(),
            *old(known_capacity),
            r,
            initial_capacity,
            policy,
        ),
        *final(stats) == stats_after_trim(
            buffer_bytes(*old(buffer)).len(),
            *old(stats),
            r,
            initial_capacity,
            policy,
        ),
{
    let capacity = capacity_of(buffer);
    let length = buffer_len(buffer);
    if trim_decision(length, capacity, known_capacity, initial_capacity, policy, stats) {
        *buffer = buffer_with_capacity(initial_capacity);
        assert(buffer_bytes(*buffer) =~= buffer_bytes(*old(buffer)));
    }
    capacity
}

/// Appends a message to a buffer.
pub fn append_frame(buffer: &mut bytes::BytesMut, tag: u8, payload: &[u8])
    ensures
        buffer_bytes(*final(buffer)) == buffer_bytes(*old(buffer)) + (Frame {
            tag,
            payload: payload@,
        }).encoded(),
{
    put_u8(buffer, tag);
    put_i32(buffer, wrap_i32(payload.len() as u128 + 4));
    put_bytes(buffer, payload);
    proof {
        lemma_wrapped_field(payload@.len() as int + 4);
        assert(buffer_bytes(*buffer) =~= buffer_bytes(*old(buffer)) + (Frame {
            tag,
            payload: payload@,
        }).encoded());
    }
}

/// The buffers of one session.
#[derive(Debug)]
pub struct SessionBufferSet {
    client_read: bytes::BytesMut,
    backend_read: bytes::BytesMut,
    backend_write: bytes::BytesMut,
    client_write: bytes::BytesMut,
    backend_frames: Vec<([u8; 5], bytes::Bytes)>,
    client_read_capacity: usize,
    backend_read_capacity: usize,
    backend_write_capacity: usize,
    client_write_capacity: usize,
    initial_capacity: usize,
    oversized_policy: OversizedBufferPolicy,
}

/// What the buffers of a session hold.
pub struct SetFacts {
    pub client_read: Seq<u8>,
    pub backend_read: Seq<u8>,
    pub backend_write: Seq<u8>,
    pub client_write: Seq<u8>,
    pub frames: Seq<([u8; 5], bytes::Bytes)>,
}

/// A capacity for each of a session's buffers.
pub struct Capacities {
    pub client_read: usize,
    pub backend_read: usize,
    pub backend_write: usize,
    pub client_write: usize,
}

/// Nothing is known of any capacity.
pub open spec fn no_capacities() -> Capacities {
    Capacities { client_read: 0, backend_read: 0, backend_write: 0, client_write: 0 }
}

/// Whether buffers of some capacities have room for what they hold.
pub open spec fn have_room(facts: SetFacts, found: Capacities) -> bool {
    &&& facts.client_read.len() <= found.client_read
    &&& facts.backend_read.len() <= found.backend_read
    &&& facts.backend_write.len() <= found.backend_write
    &&& facts.client_write.len() <= found.client_write
}

/// One where a buffer is given up, and nothing where it is not.
pub open spec fn given_up(length: nat, capacity: usize, policy: OversizedBufferPolicy) -> nat {
    if is_given_up(length, capacity, policy) {
        1
    } else {
        0
    }
}

/// How many of a session's buffers are given up.
pub open spec fn given_up_count(
    facts: SetFacts,
    found: Capacities,
    policy: OversizedBufferPolicy,
) -> nat {
    given_up(facts.client_read.len(), found.client_read, policy) + given_up(
        facts.backend_read.len(),
        found.backend_read,
        policy,
    ) + given_up(facts.backend_write.len(), found.backend_write, policy) + given_up(
        facts.client_write.len(),
        found.client_write,
        policy,
    )
}

/// The capacities that are known of a session's buffers once each was looked at.
pub open spec fn known_after_trims(
    facts: SetFacts,
    known: Capacities,
    found: Capacities,
    initial_capacity: usize,
    policy: OversizedBufferPolicy,
) -> Capacities {
    Capacities {
        client_read: known_after_trim(
            facts.client_read.len(),
            known.client_read,
            found.client_read,
            initial_capacity,
            policy,
        ),
        backend_read: known_after_trim(
            facts.backend_read.len(),
            known.backend_read,
            found.backend_read,
            initial_capacity,
            policy,
        ),
        backend_write: known_after_trim(
            facts.backend_write.len(),
            known.backend_write,
            found.backend_write,
            initial_capacity,
            policy,
        ),
        client_write: known_after_trim(
            facts.client_write.len(),
            known.client_write,
            found.client_write,
            initial_capacity,
            policy,
        ),
    }
}

/// The larger of two capacities.
pub open spec fn larger(a: usize, b: usize) -> usize {
    if b > a {
        b
    } else {
        a
    }
}

/// Empty buffers.
pub open spec fn empty_set() -> SetFacts {
    SetFacts {
        client_read: Seq::empty(),
        backend_read: Seq::empty(),
        backend_write: Seq::empty(),
        client_write: Seq::empty(),
        frames: Seq::empty(),
    }
}

impl View for SessionBufferSet {
    type V = SetFacts;

    closed spec fn view(&self) -> SetFacts {
        SetFacts {
            client_read: buffer_bytes(self.client_read),
            backend_read: buffer_bytes(self.backend_read),
            backend_write: buffer_bytes(self.backend_write),
            client_write: buffer_bytes(self.client_write),
            frames: self.backend_frames@,
        }
    }
}

impl SessionBufferSet {
    /// How much room a new buffer has.
    pub closed spec fn initial(self) -> usize {
        self.initial_capacity
    }

    /// How large an empty buffer may be to be kept.
    pub closed spec fn limit(self) -> OversizedBufferPolicy {
        self.oversized_policy
    }

    /// The capacities that are known of the buffers.
    pub closed spec fn known(self) -> Capacities {
        Capacities {
            client_read: self.client_read_capacity,
            backend_read: self.backend_read_capacity,
            backend_write: self.backend_write_capacity,
            client_write: self.client_write_capacity,
        }
    }

    /// That new buffers can be made with the initial capacity.
    pub closed spec fn wf(self) -> bool {
        self.initial_capacity <= isize::MAX
    }

    fn new(policy: BufferReusePolicy, oversized_policy: OversizedBufferPolicy) -> (r: SessionBufferSet)
        requires
            policy.initial_capacity <= isize::MAX,
        ensures
            r.wf(),
            r@ == empty_set(),
            r.initial() == policy.initial_capacity,
            r.limit() == oversized_policy,
            r.known() == no_capacities(),
    {
        let set = SessionBufferSet {
            client_read: new_buffer(),
            backend_read: new_buffer(),
            backend_write: new_buffer(),
            client_write: new_buffer(),
            backend_frames: Vec::new(),
            client_read_capacity: 0,
            backend_read_capacity: 0,
            backend_write_capacity: 0,
            client_write_capacity: 0,
            initial_capacity: policy.initial_capacity,
            oversized_policy,
        };
        assert(set@.frames =~= Seq::empty());
        set
    }

    /// What was read from the client.
    pub fn client_read_mut(&mut self) -> (r: &mut bytes::BytesMut)
        ensures
            buffer_bytes(*r) == old(self)@.client_read,
            final(self)@ == (SetFacts {
                client_read: buffer_bytes(*final(r)),
                ..old(self)@
            }),
            old(self).wf() ==> final(self).wf(),
            final(self).initial() == old(self).initial(),
            final(self).limit() == old(self).limit(),
            final(self).known() == old(self).known(),
    {
        &mut self.client_read
    }

    /// What was read from the server.
    pub fn backend_read_mut(&mut self) -> (r: &mut bytes::BytesMut)
        ensures
            buffer_bytes(*r) == old(self)@.backend_read,
            final(self)@ == (SetFacts {
                backend_read: buffer_bytes(*final(r)),
                ..old(self)@
            }),
            old(self).wf() ==> final(self).wf(),
            final(self).initial() == old(self).initial(),
            final(self).limit() == old(self).limit(),
            final(self).known() == old(self).known(),
    {
        &mut self.backend_read
    }

    /// What is to be written to the server.
    pub fn backend_write(&self) -> (r: &[u8])
        ensures
            r@ == self@.backend_write,
    {
        buffer_slice(&self.backend_write)
    }

    /// What is to be written to the client.
    pub fn client_write(&self) -> (r: &[u8])
        ensures
            r@ == self@.client_write,
    {
        buffer_slice(&self.client_write)
    }

    /// Appends a message for the server. What the buffer has grown by is counted as allocated.
    pub fn append_frontend_frame(&mut self, tag: u8, payload: &[u8], stats: &mut ProxyBufferStats)
        ensures
            final(self)@ == (SetFacts {
                backend_write: old(self)@.backend_write + (Frame {
                    tag,
                    payload: payload@,
                }).encoded(),
                ..old(self)@
            }),
            old(self).wf() ==> final(self).wf(),
            final(self).initial() == old(self).initial(),
            final(self).limit() == old(self).limit(),
            exists|capacity: usize|
                {
                    &&& final(self)@.backend_write.len() <= capacity
                    &&& *final(stats) == #[trigger] after_observed(
                        after_frontend_copy(*old(stats), payload@.len() as int),
                        old(self).known().backend_write,
                        capacity,
                    )
                    &&& final(self).known() == (Capacities {
                        backend_write: larger(old(self).known().backend_write, capacity),
                        ..old(self).known()
                    })
                },
    {
        append_frame(&mut self.backend_write, tag, payload);
        record_frontend_copy(stats, payload.len());
        let capacity = capacity_of(&self.backend_write);
        observe_capacity(capacity, &mut self.backend_write_capacity, stats);
        assert(*stats == after_observed(
            after_frontend_copy(*old(stats), payload@.len() as int),
            old(self).known().backend_write,
            capacity,
        ));
    }

    /// Appends a message for the client. What the buffer has grown by is counted as allocated.
    pub fn append_backend_frame(&mut self, tag: u8, payload: &[u8], stats: &mut ProxyBufferStats)
        ensures
            final(self)@ == (SetFacts {
                client_write: old(self)@.client_write + (Frame {
                    tag,
                    payload: payload@,
                }).encoded(),
                ..old(self)@
            }),
            old(self).wf() ==> final(self).wf(),
            final(self).initial() == old(self).initial(),
            final(self).limit() == old(self).limit(),
            exists|capacity: usize|
                {
                    &&& final(self)@.client_write.len() <= capacity
                    &&& *final(stats) == #[trigger] after_observed(
                        after_backend_copy(*old(stats), payload@.len() as int),
                        old(self).known().client_write,
                        capacity,
                    )
                    &&& final(self).known() == (Capacities {
                        client_write: larger(old(self).known().client_write, capacity),
                        ..old(self).known()
                    })
                },
    {
        append_frame(&mut self.client_write, tag, payload);
        record_backend_copy(stats, payload.len());
        let capacity = capacity_of(&self.client_write);
        observe_capacity(capacity, &mut self.client_write_capacity, stats);
        assert(*stats == after_observed(
            after_backend_copy(*old(stats), payload@.len() as int),
            old(self).known().client_write,
            capacity,
        ));
    }

    /// Empties what was to be written to the server.
    pub fn clear_backend_write(&mut self, stats: &mut ProxyBufferStats)
        requires
            old(self).wf(),
        ensures
            final(self).wf(),
            final(self)@ == (SetFacts { backend_write: Seq::empty(), ..old(self)@ }),
            final(self).initial() == old(self).initial(),
            final(self).limit() == old(self).limit(),
            exists|capacity: usize|
                {
                    &&& *final(stats) == #[trigger] stats_after_trim(
                        0,
                        *old(stats),
                        capacity,
                        old(self).initial(),
                        old(self).limit(),
                    )
                    &&& final(self).known() == (Capacities {
                        backend_write: known_after_trim(
                            0,
                            old(self).known().backend_write,
                            capacity,
                            old(self).initial(),
                            old(self).limit(),
                        ),
                        ..old(self).known()
                    })
                },
    {
        clear_buffer(&mut self.backend_write);
        let capacity = trim_buffer(
            &mut self.backend_write,
            &mut self.backend_write_capacity,
            self.initial_capacity,
            self.oversized_policy,
            stats,
        );
        assert(*stats == stats_after_trim(
            0,
            *old(stats),
            capacity,
            old(self).initial(),
            old(self).limit(),
        ));
        assert(self.known() == (Capacities {
            backend_write: known_after_trim(
                0,
                old(self).known().backend_write,
                capacity,
                old(self).initial(),
                old(self).limit(),
            ),
            ..old(self).known()
        }));
    }

    /// Empties what was to be written to the client.
    pub fn clear_client_write(&mut self, stats: &mut ProxyBufferStats)
        requires
            old(self).wf(),
        ensures
            final(self).wf(),
            final(self)@ == (SetFacts { client_write: Seq::empty(), ..old(self)@ }),
            final(self).initial() == old(self).initial(),
            final(self).limit() == old(self).limit(),
            exists|capacity: usize|
                {
                    &&& *final(stats) == #[trigger] stats_after_trim(
                        0,
                        *old(stats),
                        capacity,
                        old(self).initial(),
                        old(self).limit(),
                    )
                    &&& final(self).known() == (Capacities {
                        client_write: known_after_trim(
                            0,
                            old(self).known().client_write,
                            capacity,
                            old(self).initial(),
                            old(self).limit(),
                        ),
                        ..old(self).known()
                    })
                },
    {
        clear_buffer(&mut self.client_write);
        let capacity = trim_buffer(
            &mut self.client_write,
            &mut self.client_write_capacity,
            self.initial_capacity,
            self.oversized_policy,
            stats,
        );
        assert(*stats == stats_after_trim(
            0,
            *old(stats),
            capacity,
            old(self).initial(),
            old(self).limit(),
        ));
        assert(self.known() == (Capacities {
            client_write: known_after_trim(
                0,
                old(self).known().client_write,
                capacity,
                old(self).initial(),
                old(self).limit(),
            ),
            ..old(self).known()
        }));
    }

    /// Hands out the list of frames, emptied, and shrunk where it is larger than may be kept.
    pub fn take_backend_frames(&mut self) -> (r: Vec<([u8; 5], bytes::Bytes)>)
        ensures
            r@.len() == 0,
            final(self)@ == (SetFacts { frames: Seq::empty(), ..old(self)@ }),
            old(self).wf() ==> final(self).wf(),
            final(self).initial() == old(self).initial(),
            final(self).limit() == old(self).limit(),
            final(self).known() == old(self).known(),
    {
        let mut frames: Vec<([u8; 5], bytes::Bytes)> = Vec::new();
        std::mem::swap(&mut frames, &mut self.backend_frames);
        empty_frames(&mut frames);
        assert(self@.frames =~= Seq::empty());
        frames
    }

    /// Takes the list of frames back.
    pub fn restore_backend_frames(&mut self, backend_frames: Vec<([u8; 5], bytes::Bytes)>)
        ensures
            final(self)@ == (SetFacts { frames: backend_frames@, ..old(self)@ }),
            old(self).wf() ==> final(self).wf(),
            final(self).initial() == old(self).initial(),
            final(self).limit() == old(self).limit(),
            final(self).known() == old(self).known(),
    {
        self.backend_frames = backend_frames;
    }

    /// Empties the list of frames, and shrinks it where it is larger than may be kept.
    pub fn clear_backend_frames(&mut self)
        ensures
            final(self)@ == (SetFacts { frames: Seq::empty(), ..old(self)@ }),
            old(self).wf() ==> final(self).wf(),
            final(self).initial() == old(self).initial(),
            final(self).limit() == old(self).limit(),
            final(self).known() == old(self).known(),
    {
        empty_frames(&mut self.backend_frames);
    }

    /// Counts what the client's buffer has grown by.
    pub fn observe_client_read(&mut self, stats: &mut ProxyBufferStats)
        ensures
            final(self)@ == old(self)@,
            old(self).wf() ==> final(self).wf(),
            final(self).initial() == old(self).initial(),
            final(self).limit() == old(self).limit(),
            exists|capacity: usize|
                {
                    &&& old(self)@.client_read.len() <= capacity
                    &&& *final(stats) == #[trigger] after_observed(
                        *old(stats),
                        old(self).known().client_read,
                        capacity,
                    )
                    &&& final(self).known() == (Capacities {
                        client_read: larger(old(self).known().client_read, capacity),
                        ..old(self).known()
                    })
                },
    {
        let capacity = capacity_of(&self.client_read);
        observe_capacity(capacity, &mut self.client_read_capacity, stats);
        assert(*stats == after_observed(
            *old(stats),
            old(self).known().client_read,
            capacity,
        ));
    }

    /// Counts what the server's buffer has grown by.
    pub fn observe_backend_read(&mut self, stats: &mut ProxyBufferStats)
        ensures
            final(self)@ == old(self)@,
            old(self).wf() ==> final(self).wf(),
            final(self).initial() == old(self).initial(),
            final(self).limit() == old(self).limit(),
            exists|capacity: usize|
                {
                    &&& old(self)@.backend_read.len() <= capacity
                    &&& *final(stats) == #[trigger] after_observed(
                        *old(stats),
                        old(self).known().backend_read,
                        capacity,
                    )
                    &&& final(self).known() == (Capacities {
                        backend_read: larger(old(self).known().backend_read, capacity),
                        ..old(self).known()
                    })
                },
    {
        let capacity = capacity_of(&self.backend_read);
        observe_capacity(capacity, &mut self.backend_read_capacity, stats);
        assert(*stats == after_observed(
            *old(stats),
            old(self).known().backend_read,
            capacity,
        ));
    }

    /// Gives up the empty buffers that are larger than may be kept. No buffer that holds anything
    /// is touched.
    pub fn trim_empty_buffers(&mut self, stats: &mut ProxyBufferStats)
        requires
            old(self).wf(),
        ensures
            final(self).wf(),
            final(self)@ == old(self)@,
            final(self).initial() == old(self).initial(),
            final(self).limit() == old(self).limit(),
            exists|found: Capacities|
                {
                    &&& #[trigger] have_room(old(self)@, found)
                    &&& final(self).known() == known_after_trims(
                        old(self)@,
                        old(self).known(),
                        found,
                        old(self).initial(),
                        old(self).limit(),
                    )
                    &&& *final(stats) == after_releases(
                        *old(stats),
                        old(self).initial(),
                        given_up_count(old(self)@, found, old(self).limit()),
                    )
                },
    {
        let ghost initial = self.initial();
        let ghost start = *stats;
        let ghost facts = self@;
        let ghost limit = self.limit();
        assert(after_releases(start, initial, 0) == start);
        let client_read = trim_buffer(
            &mut self.client_read,
            &mut self.client_read_capacity,
            self.initial_capacity,
            self.oversized_policy,
            stats,
        );
        let ghost times = given_up(facts.client_read.len(), client_read, limit);
        assert(*stats == after_releases(start, initial, times));
        let backend_read = trim_buffer(
            &mut self.backend_read,
            &mut self.backend_read_capacity,
            self.initial_capacity,
            self.oversized_policy,
            stats,
        );
        let ghost times = times + given_up(facts.backend_read.len(), backend_read, limit);
        assert(*stats == after_releases(start, initial, times));
        let backend_write = trim_buffer(
            &mut self.backend_write,
            &mut self.backend_write_capacity,
            self.initial_capacity,
            self.oversized_policy,
            stats,
        );
        let ghost times = times + given_up(facts.backend_write.len(), backend_write, limit);
        assert(*stats == after_releases(start, initial, times));
        let client_write = trim_buffer(
            &mut self.client_write,
            &mut self.client_write_capacity,
            self.initial_capacity,
            self.oversized_policy,
            stats,
        );
        let ghost times = times + given_up(facts.client_write.len(), client_write, limit);
        assert(*stats == after_releases(start, initial, times));
        proof {
            let found = Capacities { client_read, backend_read, backend_write, client_write };
            assert(have_room(facts, found));
            assert(times == given_up_count(facts, found, limit));
        }
    }

    /// How much room each buffer has: what was read from the client and from the server, then what
    /// is to be written to the server and to the client. Each has room for what it holds.
    pub fn capacities(&self) -> (r: [usize; 4])
        ensures
            have_room(
                self@,
                (Capacities {
                    client_read: r@[0],
                    backend_read: r@[1],
                    backend_write: r@[2],
                    client_write: r@[3],
                }),
            ),
    {
        [
            capacity_of(&self.client_read),
            capacity_of(&self.backend_read),
            capacity_of(&self.backend_write),
            capacity_of(&self.client_write),
        ]
    }

    fn prepare_for_reuse(&mut self, stats: &mut ProxyBufferStats)
        requires
            old(self).wf(),
        ensures
            final(self).wf(),
            final(self)@ == empty_set(),
            final(self).initial() == old(self).initial(),
            final(self).limit() == old(self).limit(),
            exists|found: Capacities|
                {
                    &&& #[trigger] have_room(empty_set(), found)
                    &&& final(self).known() == known_after_trims(
                        empty_set(),
                        old(self).known(),
                        found,
                        old(self).initial(),
                        old(self).limit(),
                    )
                    &&& *final(stats) == after_releases(
                        *old(stats),
                        old(self).initial(),
                        given_up_count(empty_set(), found, old(self).limit()),
                    )
                },
    {
        clear_buffer(&mut self.client_read);
        clear_buffer(&mut self.backend_read);
        clear_buffer(&mut self.backend_write);
        clear_buffer(&mut self.client_write);
        self.clear_backend_frames();
        assert(self.initial() == old(self).initial());
        assert(self.limit() == old(self).limit());
        assert(self.known() == old(self).known());
        assert(self@ == empty_set());
        self.trim_empty_buffers(stats);
    }
}

/// The buffers that are kept for sessions to come.
#[derive(Debug)]
pub struct ProxyBufferPool {
    reuse_policy: BufferReusePolicy,
    oversized_policy: OversizedBufferPolicy,
    stats: ProxyBufferStats,
    available: Vec<SessionBufferSet>,
}

impl ProxyBufferPool {
    /// How buffers begin, and how many sessions' buffers are kept.
    pub closed spec fn reuse(self) -> BufferReusePolicy {
        self.reuse_policy
    }

    /// How large a buffer may be to be kept.
    pub closed spec fn oversized(self) -> OversizedBufferPolicy {
        self.oversized_policy
    }

    /// What the buffers have cost so far.
    pub closed spec fn counts(self) -> ProxyBufferStats {
        self.stats
    }

    /// How many sessions' buffers are kept now.
    pub closed spec fn kept(self) -> nat {
        self.available@.len()
    }

    /// That no more buffers are kept than may be, that all of them are empty, and that those that
    /// begin may be kept.
    pub closed spec fn wf(self) -> bool {
        &&& 1 <= self.reuse_policy.initial_capacity <= isize::MAX
        &&& self.oversized_policy.max_retained_capacity >= self.reuse_policy.initial_capacity
        &&& self.available@.len() <= self.reuse_policy.max_cached_sessions
        &&& forall|i: int|
            0 <= i < self.available@.len() ==> self.keeps(#[trigger] self.available@[i])
    }

    /// Whether buffers are such as are kept: empty, and under the pool's limits.
    closed spec fn keeps(self, buffers: SessionBufferSet) -> bool {
        &&& buffers.wf()
        &&& buffers@ == empty_set()
        &&& self.lent(buffers)
    }

    /// Whether buffers are under the pool's limits, as those are that the pool handed out.
    pub open spec fn lent(self, buffers: SessionBufferSet) -> bool {
        &&& buffers.initial() == self.reuse().initial_capacity
        &&& buffers.limit() == self.oversized()
    }

    /// The capacities that are known of the kept buffers, in the order in which they came back.
    pub closed spec fn kept_known(self) -> Seq<Capacities> {
        self.available@.map_values(|buffers: SessionBufferSet| buffers.known())
    }

    /// No more buffers are kept than may be.
    pub proof fn law_kept_bounded(self)
        requires
            self.wf(),
        ensures
            self.kept() <= self.reuse().max_cached_sessions,
    {
    }

    /// No buffers are kept yet. A buffer begins with at least one byte of room, and may then be
    /// kept.
    pub fn new(reuse_policy: BufferReusePolicy, oversized_policy: OversizedBufferPolicy) -> (r:
        ProxyBufferPool)
        requires
            reuse_policy.initial_capacity <= isize::MAX,
        ensures
            r.wf(),
            r.kept() == 0,
            r.counts() == no_stats(),
            r.reuse().max_cached_sessions == reuse_policy.max_cached_sessions,
            r.reuse().initial_capacity == if reuse_policy.initial_capacity >= 1 {
                reuse_policy.initial_capacity
            } else {
                1
            },
            r.oversized().max_retained_capacity == if oversized_policy.max_retained_capacity
                >= r.reuse().initial_capacity {
                oversized_policy.max_retained_capacity
            } else {
                r.reuse().initial_capacity
            },
    {
        let initial_capacity: usize = if reuse_policy.initial_capacity >= 1 {
            reuse_policy.initial_capacity
        } else {
            1
        };
        ProxyBufferPool {
            reuse_policy: BufferReusePolicy {
                initial_capacity,
                max_cached_sessions: reuse_policy.max_cached_sessions,
            },
            oversized_policy: OversizedBufferPolicy {
                max_retained_capacity: if oversized_policy.max_retained_capacity
                    >= initial_capacity {
                    oversized_policy.max_retained_capacity
                } else {
                    initial_capacity
                },
            },
            stats: ProxyBufferStats::default(),
            available: Vec::new(),
        }
    }

    /// Hands out buffers for a session: kept ones where there are any, and new ones otherwise.
    /// Either way they are empty.
    pub fn acquire(&mut self) -> (r: SessionBufferSet)
        requires
            old(self).wf(),
        ensures
            final(self).wf(),
            r.wf(),
            r@ == empty_set(),
            old(self).lent(r),
            r.known() == if old(self).kept() > 0 {
                old(self).kept_known().last()
            } else {
                no_capacities()
            },
            final(self).kept_known() == if old(self).kept() > 0 {
                old(self).kept_known().drop_last()
            } else {
                old(self).kept_known()
            },
            final(self).reuse() == old(self).reuse(),
            final(self).oversized() == old(self).oversized(),
            final(self).kept() == if old(self).kept() > 0 {
                (old(self).kept() - 1) as nat
            } else {
                0
            },
            final(self).counts() == if old(self).kept() > 0 {
                ProxyBufferStats {
                    sessions_reused: more(old(self).counts().sessions_reused, 1),
                    ..old(self).counts()
                }
            } else {
                ProxyBufferStats {
                    sessions_created: more(old(self).counts().sessions_created, 1),
                    ..old(self).counts()
                }
            },
    {
        assert(self.available@.len() > 0 ==> self.keeps(
            self.available@[self.available@.len() - 1],
        ));
        match self.available.pop() {
            Some(buffers) => {
                self.stats.sessions_reused = counted(self.stats.sessions_reused, 1);
                assert forall|i: int| 0 <= i < self.available@.len() implies self.keeps(
                    #[trigger] self.available@[i],
                ) by {
                    assert(self.available@[i] == old(self).available@[i]);
                    assert(old(self).keeps(old(self).available@[i]));
                }
                assert(self.kept_known() =~= old(self).kept_known().drop_last());
                buffers
            },
            None => {
                self.stats.sessions_created = counted(self.stats.sessions_created, 1);
                SessionBufferSet::new(self.reuse_policy, self.oversized_policy)
            },
        }
    }

    /// What the buffers have cost so far.
    pub fn stats(&self) -> (r: ProxyBufferStats)
        ensures
            r == self.counts(),
    {
        self.stats
    }

    /// What the buffers have cost so far, for the sessions to count in.
    pub fn stats_mut(&mut self) -> (r: &mut ProxyBufferStats)
        ensures
            *r == old(self).counts(),
            final(self).counts() == *final(r),
            old(self).wf() ==> final(self).wf(),
            final(self).reuse() == old(self).reuse(),
            final(self).oversized() == old(self).oversized(),
            final(self).kept() == old(self).kept(),
            final(self).kept_known() == old(self).kept_known(),
    {
        &mut self.stats
    }

    /// Whether buffers are under the pool's limits, as those are that the pool handed out.
    pub fn lends(&self, buffers: &SessionBufferSet) -> (r: bool)
        ensures
            r == self.lent(*buffers),
            r && self.wf() ==> buffers.wf(),
    {
        buffers.initial_capacity == self.reuse_policy.initial_capacity
            && buffers.oversized_policy.max_retained_capacity
            == self.oversized_policy.max_retained_capacity
    }

    /// Takes buffers back that the pool handed out, emptied, and keeps them where there is room.
    pub fn recycle(&mut self, buffers: SessionBufferSet)
        requires
            old(self).wf(),
            buffers.wf(),
            old(self).lent(buffers),
        ensures
            final(self).wf(),
            final(self).reuse() == old(self).reuse(),
            final(self).oversized() == old(self).oversized(),
            final(self).kept() == if old(self).kept() < old(self).reuse().max_cached_sessions {
                old(self).kept() + 1
            } else {
                old(self).kept()
            },
            exists|found: Capacities|
                {
                    &&& #[trigger] have_room(empty_set(), found)
                    &&& final(self).counts() == after_releases(
                        old(self).counts(),
                        buffers.initial(),
                        given_up_count(empty_set(), found, buffers.limit()),
                    )
                    &&& final(self).kept_known() == if old(self).kept()
                        < old(self).reuse().max_cached_sessions {
                        old(self).kept_known().push(
                            known_after_trims(
                                empty_set(),
                                buffers.known(),
                                found,
                                buffers.initial(),
                                buffers.limit(),
                            ),
                        )
                    } else {
                        old(self).kept_known()
                    }
                },
    {
        let mut buffers = buffers;
        let ghost given = buffers;
        let ghost start = self.counts();
        buffers.prepare_for_reuse(&mut self.stats);
        let ghost found = choose|found: Capacities|
            {
                &&& #[trigger] have_room(empty_set(), found)
                &&& buffers.known() == known_after_trims(
                    empty_set(),
                    given.known(),
                    found,
                    given.initial(),
                    given.limit(),
                )
                &&& self.stats == after_releases(
                    start,
                    given.initial(),
                    given_up_count(empty_set(), found, given.limit()),
                )
            };
        if self.available.len() < self.reuse_policy.max_cached_sessions {
            let ghost before = self.available@;
            self.available.push(buffers);
            assert forall|i: int| 0 <= i < self.available@.len() implies self.keeps(
                #[trigger] self.available@[i],
            ) by {
                if i < before.len() {
                    assert(self.available@[i] == before[i]);
                    assert(old(self).keeps(before[i]));
                }
            }
            assert(self.kept_known() =~= old(self).kept_known().push(buffers.known()));
        }
        assert(have_room(empty_set(), found));
    }
}

impl Default for ProxyBufferPool {
    fn default() -> (r: ProxyBufferPool)
        ensures
            r.wf(),
            r.kept() == 0,
            r.counts() == no_stats(),
            r.reuse().initial_capacity == 16_384,
            r.reuse().max_cached_sessions == 64,
            r.oversized().max_retained_capacity == 65_536,
    {
        ProxyBufferPool::new(BufferReusePolicy::default(), OversizedBufferPolicy::default())
    }
}

/// A copy is counted once, with its bytes, in its own direction.
pub proof fn law_copies_counted(stats: ProxyBufferStats, bytes: int)
    requires
        0 <= bytes,
        stats.copies < u64::MAX,
        stats.copied_bytes + bytes <= u64::MAX,
        stats.frontend_to_backend_copies < u64::MAX,
        stats.frontend_to_backend_copied_bytes + bytes <= u64::MAX,
        stats.backend_to_client_copies < u64::MAX,
        stats.backend_to_client_copied_bytes + bytes <= u64::MAX,
    ensures
        ({
            let there = after_frontend_copy(stats, bytes);
            let back = after_backend_copy(stats, bytes);
            &&& there.copies == stats.copies + 1 && back.copies == stats.copies + 1
            &&& there.copied_bytes == stats.copied_bytes + bytes && back.copied_bytes
                == stats.copied_bytes + bytes
            &&& there.frontend_to_backend_copies == stats.frontend_to_backend_copies + 1
            &&& there.frontend_to_backend_copied_bytes == stats.frontend_to_backend_copied_bytes
                + bytes
            &&& there.backend_to_client_copies == stats.backend_to_client_copies
            &&& there.backend_to_client_copied_bytes == stats.backend_to_client_copied_bytes
            &&& back.backend_to_client_copies == stats.backend_to_client_copies + 1
            &&& back.backend_to_client_copied_bytes == stats.backend_to_client_copied_bytes + bytes
            &&& back.frontend_to_backend_copies == stats.frontend_to_backend_copies
            &&& back.frontend_to_backend_copied_bytes == stats.frontend_to_backend_copied_bytes
            &&& there.allocations == stats.allocations && back.allocations == stats.allocations
        }),
{
}

/// What a buffer has grown by is counted as one allocation of so many bytes, and a buffer that has
/// not grown costs nothing.
pub proof fn law_growth_counted(stats: ProxyBufferStats, known: usize, capacity: usize)
    requires
        stats.allocations < u64::MAX,
        stats.allocation_bytes + capacity <= u64::MAX,
    ensures
        capacity > known ==> after_observed(stats, known, capacity).allocations == stats.allocations
            + 1 && after_observed(stats, known, capacity).allocation_bytes == stats.allocation_bytes
            + (capacity - known),
        capacity <= known ==> after_observed(stats, known, capacity) == stats,
        after_observed(stats, known, capacity).copies == stats.copies,
        after_observed(stats, known, capacity).oversized_buffers_released
            == stats.oversized_buffers_released,
        larger(known, capacity) >= known && larger(known, capacity) >= capacity,
{
}

/// A buffer is given up exactly where it is empty and larger than may be kept. Then a new one is
/// counted in its place, and its capacity is the one that new buffers have.
pub proof fn law_empty_oversized_given_up(
    length: nat,
    stats: ProxyBufferStats,
    known: usize,
    capacity: usize,
    initial_capacity: usize,
    policy: OversizedBufferPolicy,
)
    requires
        stats.allocations < u64::MAX,
        stats.allocation_bytes + initial_capacity <= u64::MAX,
        stats.oversized_buffers_released < u64::MAX,
    ensures
        ({
            let next = stats_after_trim(length, stats, capacity, initial_capacity, policy);
            let after = known_after_trim(length, known, capacity, initial_capacity, policy);
            let gone = length == 0 && capacity > policy.max_retained_capacity;
            &&& !gone ==> next == stats && after == known
            &&& gone ==> {
                &&& after == initial_capacity
                &&& next.oversized_buffers_released == stats.oversized_buffers_released + 1
                &&& next.allocations == stats.allocations + 1
                &&& next.allocation_bytes == stats.allocation_bytes + initial_capacity
                &&& next.copies == stats.copies
                &&& next.sessions_created == stats.sessions_created
                &&& next.sessions_reused == stats.sessions_reused
            }
        }),
{
}

} // verus!
