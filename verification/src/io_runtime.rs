//! The plain runtime's cycles: a cycle of the extended protocol ends with its `Sync`, and every
//! answer with a `ReadyForQuery`.
use vstd::prelude::*;

use crate::buffer::{buffer_bytes, buffer_from, buffer_len, buffer_slice, split_to};
use crate::capacity::{entered, has_room, try_enter_capacity, CapacityGuard};
use crate::engine::io_runtime::{
    drain_event, drain_step, drained, forwarded, headers_fit, last_ready, passed_on, put_behind,
    swallowed, tag_count, DrainFacts,
};
pub use crate::engine::io_runtime::{
    take_startup_packet_bytes, PlannedFrontendCycle, ResponseDrainEvent, StartupEncryptionRequest,
    StartupPacketRead,
};
use crate::wire::{
    after_frames, cycle_end, frame_of, frame_views, frames_invalid, frontend_cycle_len,
    law_cycle_is_whole, parse_frontend_frames, ready_status_of, scan_frame, whole_frames,
    BackendFrame, CycleScan, Frame, FrameLengthError, FrameScan, FrontendFrame, FrontendTag,
    ReadyStatus,
};

verus! {

/// What a cycle of client messages makes the server answer.
#[derive(Clone, Copy, Debug, PartialEq, Eq, Structural)]
pub struct FrontendCycleShape {
    expected_ready_count: usize,
    needs_sync: bool,
}

/// The shape of a cycle as plain values.
pub struct PlainShape {
    pub ready: int,
    pub sync: bool,
}

impl View for FrontendCycleShape {
    type V = PlainShape;

    closed spec fn view(&self) -> PlainShape {
        PlainShape { ready: self.expected_ready_count as int, sync: self.needs_sync }
    }
}

/// The shape of some frames: as many `ReadyForQuery` messages as simple queries, and at least
/// one.
pub open spec fn plain_shape(frames: Seq<Frame>) -> PlainShape {
    let queries = tag_count(frames, FrontendTag::Query.byte());
    PlainShape {
        ready: if queries >= 1 {
            queries
        } else {
            1
        },
        sync: exists|i: int|
            0 <= i < frames.len() && (#[trigger] frames[i]).tag != FrontendTag::Query.byte(),
    }
}

impl FrontendCycleShape {
    /// The shape of some frames.
    pub fn from_frames(frames: &Vec<FrontendFrame>) -> (r: FrontendCycleShape)
        ensures
            r@ == plain_shape(frame_views(frames@)),
    {
        let ghost model = frame_views(frames@);
        let mut queries: usize = 0;
        let mut needs_sync = false;
        let mut i: usize = 0;
        while i < frames.len()
            invariant
                i <= frames@.len(),
                model == frame_views(frames@),
                queries == tag_count(model.take(i as int), FrontendTag::Query.byte()),
                queries <= i,
                needs_sync == exists|k: int|
                    0 <= k < i && (#[trigger] model[k]).tag != FrontendTag::Query.byte(),
            decreases frames@.len() - i,
        {
            assert(model[i as int].tag == frames@[i as int].tag);
            assert(model.take(i + 1).drop_last() =~= model.take(i as int));
            if frames[i].tag == FrontendTag::Query.as_byte() {
                queries += 1;
            } else {
                needs_sync = true;
            }
            i += 1;
        }
        assert(model.take(i as int) =~= model);
        FrontendCycleShape {
            expected_ready_count: if queries >= 1 {
                queries
            } else {
                1
            },
            needs_sync,
        }
    }

    /// The shape of the frames that some bytes hold, where they hold any.
    pub fn from_wire_bytes(bytes: &[u8]) -> (r: Result<Option<FrontendCycleShape>, FrameLengthError>)
        ensures
            match r {
                Ok(Some(shape)) => !frames_invalid(bytes@) && whole_frames(bytes@).len() > 0
                    && shape@ == plain_shape(whole_frames(bytes@)),
                Ok(None) => !frames_invalid(bytes@) && whole_frames(bytes@).len() == 0,
                Err(error) => scan_frame(after_frames(bytes@)) == FrameScan::Invalid(
                    error.length as int,
                ),
            },
    {
        let mut buffer = buffer_from(bytes);
        let frames = match parse_frontend_frames(&mut buffer) {
            Ok(frames) => frames,
            Err(error) => {
                return Err(error);
            },
        };
        assert(frame_views(frames@).len() == frames@.len());
        if frames.is_empty() {
            Ok(None)
        } else {
            Ok(Some(FrontendCycleShape::from_frames(&frames)))
        }
    }

    /// How many `ReadyForQuery` messages the cycle has for an answer.
    pub fn expected_ready_count(self) -> (r: usize)
        ensures
            r == self@.ready,
    {
        self.expected_ready_count
    }

    /// Whether the cycle holds anything but simple queries.
    pub fn needs_sync(self) -> (r: bool)
        ensures
            r == self@.sync,
    {
        self.needs_sync
    }
}

/// Every cycle is answered by a `ReadyForQuery`.
pub proof fn law_plain_cycle_has_answer(frames: Seq<Frame>)
    ensures
        plain_shape(frames).ready >= 1,
{
}

/// What stands at the start of a client's bytes.
#[derive(Debug, PartialEq, Eq)]
pub enum FrontendCycleRead {
    Complete { bytes: bytes::BytesMut, shape: FrontendCycleShape },
    Terminate { bytes: bytes::BytesMut },
    BufferLimitExceeded,
    NeedMoreBytes,
}

/// Takes every whole frame of some bytes.
pub fn parse_frontend_cycle_frames(bytes: bytes::BytesMut) -> (r: Result<
    Vec<FrontendFrame>,
    FrameLengthError,
>)
    ensures
        match r {
            Ok(frames) => !frames_invalid(buffer_bytes(bytes)) && frame_views(frames@)
                == whole_frames(buffer_bytes(bytes)),
            Err(error) => scan_frame(after_frames(buffer_bytes(bytes))) == FrameScan::Invalid(
                error.length as int,
            ),
        },
{
    crate::engine::io_runtime::parse_frontend_cycle_frames(bytes)
}

/// Takes the cycle at the start of a client's bytes, once all of it has come: a `Terminate`, a
/// run of simple queries, or an extended-protocol cycle up to its `Sync`. Nothing is taken from a
/// buffer that is over its limit, that does not hold a whole cycle, or that holds a frame with a
/// length field below four.
pub fn take_frontend_cycle_bytes(
    buffer: &mut bytes::BytesMut,
    max_client_buffer_bytes: usize,
) -> (r: Result<FrontendCycleRead, FrameLengthError>)
    ensures
        ({
            let bytes = buffer_bytes(*old(buffer));
            let left = buffer_bytes(*final(buffer));
            if bytes.len() > max_client_buffer_bytes {
                (r matches Ok(FrontendCycleRead::BufferLimitExceeded)) && left == bytes
            } else {
                match cycle_end(bytes, false) {
                    CycleScan::NeedMore => (r matches Ok(FrontendCycleRead::NeedMoreBytes)) && left
                        == bytes,
                    CycleScan::Invalid(length) => (r matches Err(error) && error.length == length)
                        && left == bytes,
                    CycleScan::Ends(end) => {
                        &&& left == bytes.skip(end)
                        &&& if bytes[0] == FrontendTag::Terminate.byte() {
                            r matches Ok(FrontendCycleRead::Terminate { bytes: taken })
                                && buffer_bytes(taken) == bytes.take(end)
                        } else {
                            r matches Ok(FrontendCycleRead::Complete { bytes: taken, shape })
                                && buffer_bytes(taken) == bytes.take(end) && shape@ == plain_shape(
                                whole_frames(bytes.take(end)),
                            )
                        }
                    },
                }
            }
        }),
{
    if buffer_len(buffer) > max_client_buffer_bytes {
        return Ok(FrontendCycleRead::BufferLimitExceeded);
    }
    let ghost start = buffer_bytes(*buffer);
    let end = match frontend_cycle_len(buffer_slice(buffer), false) {
        Ok(Some(end)) => end,
        Ok(None) => {
            return Ok(FrontendCycleRead::NeedMoreBytes);
        },
        Err(error) => {
            return Err(error);
        },
    };
    let tag: u8 = buffer_slice(buffer)[0];
    let taken = split_to(buffer, end);
    if tag == FrontendTag::Terminate.as_byte() {
        return Ok(FrontendCycleRead::Terminate { bytes: taken });
    }
    proof {
        law_cycle_is_whole(start, false);
    }
    match FrontendCycleShape::from_wire_bytes(buffer_slice(&taken)) {
        Ok(Some(shape)) => Ok(FrontendCycleRead::Complete { bytes: taken, shape }),
        Ok(None) => Ok(FrontendCycleRead::NeedMoreBytes),
        Err(error) => Err(error),
    }
}

/// A client's place among those that are served.
pub type ClientCapacityGuard = CapacityGuard;

/// A server connection's place among those that are open.
pub type BackendCapacityGuard = CapacityGuard;

/// Takes a place for a client where fewer than `max_clients` are taken.
pub fn try_enter_client_capacity(active: &mut usize, max_clients: usize) -> (r: Option<
    ClientCapacityGuard,
>)
    ensures
        r is Some <==> has_room(*old(active) as int, max_clients as int),
        *final(active) == entered(*old(active) as int, max_clients as int),
{
    try_enter_capacity(active, max_clients)
}

/// Takes a place for a server connection where fewer than `max_backends` are taken.
pub fn try_enter_backend_capacity(active: &mut usize, max_backends: usize) -> (r: Option<
    BackendCapacityGuard,
>)
    ensures
        r is Some <==> has_room(*old(active) as int, max_backends as int),
        *final(active) == entered(*old(active) as int, max_backends as int),
{
    try_enter_capacity(active, max_backends)
}

/// The answer to one cycle, as far as it has come.
#[derive(Debug)]
pub struct BackendResponseDrain {
    inner: crate::engine::io_runtime::BackendResponseDrain,
}

impl View for BackendResponseDrain {
    type V = DrainFacts;

    closed spec fn view(&self) -> DrainFacts {
        self.inner@
    }
}

impl BackendResponseDrain {
    /// Nothing has come yet of an answer with so many `ReadyForQuery` messages.
    pub fn new(expected_ready_count: usize, injected_parse_completes: usize) -> (r:
        BackendResponseDrain)
        ensures
            r@ == (DrainFacts {
                injected: injected_parse_completes as int,
                ready: 0,
                completions: 0,
                saw_error: false,
                started: false,
                expected_ready: expected_ready_count as int,
                expected_completions: 0,
            }),
    {
        BackendResponseDrain {
            inner: crate::engine::io_runtime::BackendResponseDrain::new(
                expected_ready_count,
                injected_parse_completes,
            ),
        }
    }

    /// The answer as far as earlier reads have brought it.
    pub fn from_state(
        expected_ready_count: usize,
        ready_count: usize,
        injected_parse_completes: usize,
        response_started: bool,
    ) -> (r: BackendResponseDrain)
        ensures
            r@ == (DrainFacts {
                injected: injected_parse_completes as int,
                ready: ready_count as int,
                completions: 0,
                saw_error: false,
                started: response_started,
                expected_ready: expected_ready_count as int,
                expected_completions: 0,
            }),
    {
        BackendResponseDrain {
            inner: crate::engine::io_runtime::BackendResponseDrain::from_counts(
                expected_ready_count,
                ready_count,
                injected_parse_completes,
                response_started,
            ),
        }
    }

    /// Whether any of the answer has gone on to the client.
    pub fn response_started(&self) -> (r: bool)
        ensures
            r == self@.started,
    {
        self.inner.response_started()
    }

    /// How many `ReadyForQuery` messages have come.
    pub fn ready_count(&self) -> (r: usize)
        ensures
            r == self@.ready,
    {
        self.inner.ready_count()
    }

    /// How many answers to the proxy's own `Parse` messages are still to come.
    pub fn injected_parse_completes(&self) -> (r: usize)
        ensures
            r == self@.injected,
    {
        self.inner.injected_parse_completes()
    }

    /// Takes one frame from the server's bytes, and says whether it goes on to the client: its
    /// answer is `Ok(Some(Some(frame)))` where it does, and `Ok(Some(None))` where it is kept.
    pub fn pull(&mut self, backend_buffer: &mut bytes::BytesMut) -> (r: Result<
        Option<Option<BackendFrame>>,
        FrameLengthError,
    >)
        ensures
            ({
                let bytes = buffer_bytes(*old(backend_buffer));
                let left = buffer_bytes(*final(backend_buffer));
                match scan_frame(bytes) {
                    FrameScan::Incomplete => (r matches Ok(None)) && left == bytes && final(self)@
                        == old(self)@,
                    FrameScan::Invalid(length) => (r matches Err(error) && error.length == length)
                        && left == bytes && final(self)@ == old(self)@,
                    FrameScan::Complete(size) => {
                        let frame = frame_of(bytes, size);
                        &&& 0 < size <= bytes.len()
                        &&& left == bytes.skip(size)
                        &&& if swallowed(old(self)@, frame) {
                            (r matches Ok(Some(None))) && final(self)@ == drain_step(
                                old(self)@,
                                frame,
                            )
                        } else {
                            (r matches Ok(Some(Some(taken))) && taken@ == frame) && final(self)@
                                == (DrainFacts { started: true, ..old(self)@ })
                        }
                    },
                }
            }),
    {
        self.inner.pull(backend_buffer)
    }

    /// Counts a frame that goes on to the client and adds it to those that do. Gives the
    /// transaction status that it reports.
    pub fn accept(
        &mut self,
        frame: BackendFrame,
        forwarded_frames: &mut Vec<([u8; 5], bytes::Bytes)>,
    ) -> (r: Option<ReadyStatus>)
        requires
            old(self)@.ready < usize::MAX,
            old(self)@.completions < usize::MAX,
            old(self)@.started,
        ensures
            r == ready_status_of(frame@),
            !swallowed(old(self)@, frame@) ==> final(self)@ == drain_step(old(self)@, frame@),
            forwarded(final(forwarded_frames)@) == forwarded(old(forwarded_frames)@).push(frame@),
            final(forwarded_frames)@.len() == old(forwarded_frames)@.len() + 1,
            put_behind(old(forwarded_frames)@, final(forwarded_frames)@),
    {
        self.inner.accept(frame, forwarded_frames)
    }

    /// What is found once frames have gone on to the client, `held` of them in all, of which the
    /// last that reported a transaction status reported `ready`. It ends a drain that is made of
    /// `pull` and `accept`.
    pub fn event(&self, ready: Option<ReadyStatus>, held: usize) -> (r: ResponseDrainEvent)
        ensures
            r == drain_event(self@, ready, held as nat),
    {
        self.inner.event(ready, held)
    }

    /// Takes every whole frame from the server's bytes and adds those for the client to
    /// `forwarded_frames`.
    pub fn drain(
        &mut self,
        backend_buffer: &mut bytes::BytesMut,
        forwarded_frames: &mut Vec<([u8; 5], bytes::Bytes)>,
    ) -> (r: Result<ResponseDrainEvent, FrameLengthError>)
        requires
            old(self)@.ready + buffer_bytes(*old(backend_buffer)).len() <= usize::MAX,
            old(self)@.completions + buffer_bytes(*old(backend_buffer)).len() <= usize::MAX,
        ensures
            ({
                let bytes = buffer_bytes(*old(backend_buffer));
                let frames = whole_frames(bytes);
                let passed = passed_on(old(self)@, frames);
                &&& buffer_bytes(*final(backend_buffer)) == after_frames(bytes)
                &&& final(self)@ == drained(old(self)@, frames)
                &&& forwarded(final(forwarded_frames)@) == forwarded(old(forwarded_frames)@)
                    + passed
                &&& put_behind(old(forwarded_frames)@, final(forwarded_frames)@)
                &&& headers_fit(old(forwarded_frames)@) ==> headers_fit(final(forwarded_frames)@)
                &&& match r {
                    Ok(event) => !frames_invalid(bytes) && event == drain_event(
                        final(self)@,
                        last_ready(passed),
                        final(forwarded_frames)@.len(),
                    ),
                    Err(error) => scan_frame(after_frames(bytes)) == FrameScan::Invalid(
                        error.length as int,
                    ),
                }
            }),
    {
        self.inner.drain(backend_buffer, forwarded_frames)
    }

    /// Drains the server's bytes, unless there are more than the limit allows.
    pub fn drain_with_limit(
        &mut self,
        backend_buffer: &mut bytes::BytesMut,
        forwarded_frames: &mut Vec<([u8; 5], bytes::Bytes)>,
        max_backend_buffer_bytes: usize,
    ) -> (r: Result<ResponseDrainEvent, FrameLengthError>)
        requires
            old(self)@.ready + buffer_bytes(*old(backend_buffer)).len() <= usize::MAX,
            old(self)@.completions + buffer_bytes(*old(backend_buffer)).len() <= usize::MAX,
        ensures
            ({
                let bytes = buffer_bytes(*old(backend_buffer));
                let frames = whole_frames(bytes);
                let passed = passed_on(old(self)@, frames);
                if bytes.len() > max_backend_buffer_bytes {
                    &&& r matches Ok(ResponseDrainEvent::BufferLimitExceeded)
                    &&& buffer_bytes(*final(backend_buffer)) == bytes
                    &&& final(self)@ == old(self)@
                    &&& final(forwarded_frames)@ == old(forwarded_frames)@
                } else {
                    &&& buffer_bytes(*final(backend_buffer)) == after_frames(bytes)
                    &&& final(self)@ == drained(old(self)@, frames)
                    &&& forwarded(final(forwarded_frames)@) == forwarded(old(forwarded_frames)@)
                        + passed
                    &&& put_behind(old(forwarded_frames)@, final(forwarded_frames)@)
                    &&& headers_fit(old(forwarded_frames)@) ==> headers_fit(
                        final(forwarded_frames)@,
                    )
                    &&& match r {
                        Ok(event) => !frames_invalid(bytes) && event == drain_event(
                            final(self)@,
                            last_ready(passed),
                            final(forwarded_frames)@.len(),
                        ),
                        Err(error) => scan_frame(after_frames(bytes)) == FrameScan::Invalid(
                            error.length as int,
                        ),
                    }
                }
            }),
    {
        self.inner.drain_with_limit(backend_buffer, forwarded_frames, max_backend_buffer_bytes)
    }
}

/// What a cycle waits for, by the bytes that its messages begin with: one `ReadyForQuery` for each
/// simple query (`Q`), and one for a cycle without any.
pub proof fn law_plain_cycle_by_tag(frames: Seq<Frame>)
    ensures
        ({
            let queries = frames.filter(|frame: Frame| frame.tag == 81u8).len();
            &&& queries > 0 ==> plain_shape(frames).ready == queries
            &&& queries == 0 ==> plain_shape(frames).ready == 1
            &&& plain_shape(frames).sync <==> exists|i: int|
                0 <= i < frames.len() && (#[trigger] frames[i]).tag != 81u8
        }),
{
    lemma_plain_queries(frames);
}

proof fn lemma_plain_queries(frames: Seq<Frame>)
    ensures
        tag_count(frames, FrontendTag::Query.byte()) == frames.filter(
            |frame: Frame| frame.tag == 81u8,
        ).len(),
    decreases frames.len(),
{
    reveal(Seq::filter);
    if frames.len() > 0 {
        lemma_plain_queries(frames.drop_last());
    }
}

} // verus!
