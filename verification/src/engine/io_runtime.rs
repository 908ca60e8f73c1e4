//! Cycles of client messages and the server's answers to them: where a cycle ends, how many
//! answers it has, and when all of them have come.
use vstd::prelude::*;

use crate::buffer::{
    be_at, be_bytes4, buffer_bytes, buffer_from, buffer_len, buffer_slice, frozen_bytes,
    frozen_slice, new_buffer, put_bytes, read_be32, split_to,
};
use crate::capacity::{entered, has_room, try_enter_capacity, CapacityGuard};
use crate::wire::{
    after_frames, cycle_end, encoded_frames, frame_of, frame_views, frames_invalid,
    frontend_cycle_len, invalid_length_text, law_cycle_is_whole, parse_backend_frame,
    parse_frontend_frames, parse_startup_packet, read_startup, ready_status_of, scan_frame,
    whole_frames, BackendFrame, BackendTag, CycleScan, Frame, FrameLengthError, FrameScan,
    FrontendFrame, FrontendTag, ReadyStatus, StartupError, StartupFacts, StartupPacket,
};

verus! {

// ---------------------------------------------------------------------------
// The shape of a cycle
// ---------------------------------------------------------------------------

/// What a cycle of client messages makes the server answer.
#[derive(Clone, Copy, Debug, PartialEq, Eq, Structural)]
pub struct FrontendCycleShape {
    expected_ready_count: usize,
    expected_completion_count: usize,
    needs_sync: bool,
}

/// The shape of a cycle as plain values.
pub struct ShapeFacts {
    pub ready: int,
    pub completions: int,
    pub sync: bool,
}

impl View for FrontendCycleShape {
    type V = ShapeFacts;

    closed spec fn view(&self) -> ShapeFacts {
        ShapeFacts {
            ready: self.expected_ready_count as int,
            completions: self.expected_completion_count as int,
            sync: self.needs_sync,
        }
    }
}

/// How many frames have a tag.
pub open spec fn tag_count(frames: Seq<Frame>, tag: u8) -> int
    decreases frames.len(),
{
    if frames.len() == 0 {
        0
    } else {
        tag_count(frames.drop_last(), tag) + (if frames.last().tag == tag {
            1int
        } else {
            0int
        })
    }
}

/// Whether a client's message is answered by exactly one closing message of the server.
pub open spec fn expects_completion(tag: u8) -> bool {
    ||| tag == FrontendTag::Parse.byte()
    ||| tag == FrontendTag::Bind.byte()
    ||| tag == FrontendTag::Describe.byte()
    ||| tag == FrontendTag::Execute.byte()
    ||| tag == FrontendTag::Close.byte()
}

/// How many frames are answered by a closing message each.
pub open spec fn completion_requests(frames: Seq<Frame>) -> int
    decreases frames.len(),
{
    if frames.len() == 0 {
        0
    } else {
        completion_requests(frames.drop_last()) + (if expects_completion(frames.last().tag) {
            1int
        } else {
            0int
        })
    }
}

/// Whether the last frame is a `Sync`.
pub open spec fn ends_with_sync(frames: Seq<Frame>) -> bool {
    frames.len() > 0 && frames.last().tag == FrontendTag::Sync.byte()
}

/// The shape of some frames. Each simple query is answered by a `ReadyForQuery` of its own, and a
/// `Sync` at the end by one more. Without any of them, the answer ends with one closing message
/// for each request that has one.
pub open spec fn shape_of(frames: Seq<Frame>) -> ShapeFacts {
    let ready = tag_count(frames, FrontendTag::Query.byte()) + (if ends_with_sync(frames) {
        1int
    } else {
        0int
    });
    ShapeFacts {
        ready,
        completions: if ready == 0 {
            completion_requests(frames)
        } else {
            0
        },
        sync: exists|i: int|
            0 <= i < frames.len() && (#[trigger] frames[i]).tag != FrontendTag::Query.byte(),
    }
}

fn expects_backend_completion(tag: u8) -> (r: bool)
    ensures
        r == expects_completion(tag),
{
    tag == FrontendTag::Parse.as_byte() || tag == FrontendTag::Bind.as_byte() || tag
        == FrontendTag::Describe.as_byte() || tag == FrontendTag::Execute.as_byte() || tag
        == FrontendTag::Close.as_byte()
}

/// Whether a server's message closes the answer to one request. A row and a description of
/// parameters do not: another message closes them.
pub open spec fn is_completion(tag: u8) -> bool {
    ||| tag == BackendTag::ParseComplete.byte()
    ||| tag == BackendTag::BindComplete.byte()
    ||| tag == BackendTag::CloseComplete.byte()
    ||| tag == BackendTag::RowDescription.byte()
    ||| tag == BackendTag::NoData.byte()
    ||| tag == BackendTag::CommandComplete.byte()
    ||| tag == BackendTag::EmptyQueryResponse.byte()
    ||| tag == BackendTag::PortalSuspended.byte()
}

fn is_backend_cycle_completion(tag: u8) -> (r: bool)
    ensures
        r == is_completion(tag),
{
    tag == BackendTag::ParseComplete.as_byte() || tag == BackendTag::BindComplete.as_byte() || tag
        == BackendTag::CloseComplete.as_byte() || tag == BackendTag::RowDescription.as_byte() || tag
        == BackendTag::NoData.as_byte() || tag == BackendTag::CommandComplete.as_byte() || tag
        == BackendTag::EmptyQueryResponse.as_byte() || tag == BackendTag::PortalSuspended.as_byte()
}

/// Whether the bytes of a cycle have a shape: they hold a whole frame.
pub open spec fn shape_of_bytes(bytes: Seq<u8>) -> Option<ShapeFacts> {
    if whole_frames(bytes).len() == 0 {
        None
    } else {
        Some(shape_of(whole_frames(bytes)))
    }
}

impl FrontendCycleShape {
    /// The shape of some frames.
    pub fn from_frames(frames: &Vec<FrontendFrame>) -> (r: FrontendCycleShape)
        ensures
            r@ == shape_of(frame_views(frames@)),
    {
        let ghost model = frame_views(frames@);
        let mut queries: usize = 0;
        let mut completions: usize = 0;
        let mut needs_sync = false;
        let mut i: usize = 0;
        while i < frames.len()
            invariant
                i <= frames@.len(),
                model == frame_views(frames@),
                queries == tag_count(model.take(i as int), FrontendTag::Query.byte()),
                completions == completion_requests(model.take(i as int)),
                queries + completions <= i,
                needs_sync == exists|k: int|
                    0 <= k < i && (#[trigger] model[k]).tag != FrontendTag::Query.byte(),
                ends_with_sync(model.take(i as int)) ==> queries + completions < i,
            decreases frames@.len() - i,
        {
            let tag: u8 = frames[i].tag;
            assert(model[i as int].tag == tag);
            assert(model.take(i + 1).drop_last() =~= model.take(i as int));
            if tag == FrontendTag::Query.as_byte() {
                queries += 1;
            } else {
                needs_sync = true;
            }
            if expects_backend_completion(tag) {
                completions += 1;
            }
            i += 1;
        }
        assert(model.take(i as int) =~= model);
        let n: usize = frames.len();
        let closes = n > 0 && frames[n - 1].tag == FrontendTag::Sync.as_byte();
        let ready: usize = if closes {
            queries + 1
        } else {
            queries
        };
        FrontendCycleShape {
            expected_ready_count: ready,
            expected_completion_count: if ready == 0 {
                completions
            } else {
                0
            },
            needs_sync,
        }
    }

    /// The shape of the frames that some bytes hold, where they hold any.
    pub fn from_wire_bytes(bytes: &[u8]) -> (r: Result<Option<FrontendCycleShape>, FrameLengthError>)
        ensures
            match r {
                Ok(Some(shape)) => !frames_invalid(bytes@) && shape_of_bytes(bytes@) == Some(
                    shape@,
                ),
                Ok(None) => !frames_invalid(bytes@) && shape_of_bytes(bytes@) is None,
                Err(error) => scan_frame(after_frames(bytes@)) == FrameScan::Invalid(
                    error.length as int,
                ),
            },
    {
        let mut buffer = buffer_from(bytes);
        let frames = match parse_frontend_frames(&mut buffer) {
            Ok(frames) => frames,
            Err(error) => {
                return Err(error);
            },
        };
        assert(frame_views(frames@).len() == frames@.len());
        if frames.is_empty() {
            Ok(None)
        } else {
            Ok(Some(FrontendCycleShape::from_frames(&frames)))
        }
    }

    /// How many `ReadyForQuery` messages the cycle has for an answer.
    pub fn expected_ready_count(self) -> (r: usize)
        ensures
            r == self@.ready,
    {
        self.expected_ready_count
    }

    /// Whether the answer ends with a `ReadyForQuery`.
    pub fn expects_ready(self) -> (r: bool)
        ensures
            r == (self@.ready > 0),
    {
        self.expected_ready_count > 0
    }

    /// How many closing messages the cycle has for an answer, where it has no `ReadyForQuery`.
    pub fn expected_completion_count(self) -> (r: usize)
        ensures
            r == self@.completions,
    {
        self.expected_completion_count
    }

    /// Whether the server does not answer the cycle at all.
    pub fn expects_no_response(self) -> (r: bool)
        ensures
            r == (self@.ready == 0 && self@.completions == 0),
    {
        self.expected_ready_count == 0 && self.expected_completion_count == 0
    }

    /// Whether the cycle holds anything but simple queries.
    pub fn needs_sync(self) -> (r: bool)
        ensures
            r == self@.sync,
    {
        self.needs_sync
    }
}

/// What a cycle waits for, by the bytes that its messages begin with. A simple query (`Q`) and a
/// `Sync` (`S`) at the end are answered by one `ReadyForQuery` each. Where there is neither, each
/// `Parse` (`P`), `Bind` (`B`), `Describe` (`D`), `Execute` (`E`) and `Close` (`C`), and nothing
/// else, is answered by one closing reply.
pub proof fn law_answers_by_tag(frames: Seq<Frame>)
    ensures
        shape_of(frames).ready == frames.filter(|frame: Frame| frame.tag == 81u8).len() + (if frames.len()
            > 0 && frames.last().tag == 83u8 {
            1int
        } else {
            0int
        }),
        shape_of(frames).ready > 0 ==> shape_of(frames).completions == 0,
        shape_of(frames).ready == 0 ==> shape_of(frames).completions == frames.filter(
            |frame: Frame|
                frame.tag == 80u8 || frame.tag == 66u8 || frame.tag == 68u8 || frame.tag == 69u8
                    || frame.tag == 67u8,
        ).len(),
        shape_of(frames).sync <==> exists|i: int|
            0 <= i < frames.len() && (#[trigger] frames[i]).tag != 81u8,
{
    lemma_queries_by_tag(frames);
    lemma_requests_by_tag(frames);
}

proof fn lemma_queries_by_tag(frames: Seq<Frame>)
    ensures
        tag_count(frames, FrontendTag::Query.byte()) == frames.filter(
            |frame: Frame| frame.tag == 81u8,
        ).len(),
    decreases frames.len(),
{
    reveal(Seq::filter);
    if frames.len() > 0 {
        lemma_queries_by_tag(frames.drop_last());
    }
}

proof fn lemma_requests_by_tag(frames: Seq<Frame>)
    ensures
        completion_requests(frames) == frames.filter(
            |frame: Frame|
                frame.tag == 80u8 || frame.tag == 66u8 || frame.tag == 68u8 || frame.tag == 69u8
                    || frame.tag == 67u8,
        ).len(),
    decreases frames.len(),
{
    reveal(Seq::filter);
    if frames.len() > 0 {
        lemma_requests_by_tag(frames.drop_last());
    }
}

/// A request and a `Flush` (`H`) wait for exactly one closing reply where the request is a `Parse`,
/// `Bind`, `Describe`, `Execute` or `Close`, and for none otherwise.
pub proof fn law_flushed_request_waits_for_one(request: Frame, flush: Frame)
    requires
        flush.tag == 72u8,
    ensures
        shape_of(seq![request, flush]).completions == 1 <==> (request.tag == 80u8 || request.tag
            == 66u8 || request.tag == 68u8 || request.tag == 69u8 || request.tag == 67u8),
        shape_of(seq![request, flush]).completions == 0 || shape_of(
            seq![request, flush],
        ).completions == 1,
        shape_of(seq![request, flush]).ready == if request.tag == 81u8 {
            1int
        } else {
            0int
        },
{
    let frames = seq![request, flush];
    assert(frames.drop_last() =~= seq![request]);
    assert(seq![request].drop_last() =~= Seq::<Frame>::empty());
    reveal_with_fuel(tag_count, 3);
    reveal_with_fuel(completion_requests, 3);
}

/// Every query of a run of simple queries is answered by its own `ReadyForQuery`.
pub proof fn law_query_run_ready_count(frames: Seq<Frame>)
    requires
        forall|i: int|
            0 <= i < frames.len() ==> (#[trigger] frames[i]).tag == FrontendTag::Query.byte(),
    ensures
        shape_of(frames).ready == frames.len(),
        shape_of(frames).completions == 0 || frames.len() == 0,
        !shape_of(frames).sync,
{
    lemma_all_queries(frames);
}

proof fn lemma_all_queries(frames: Seq<Frame>)
    requires
        forall|i: int|
            0 <= i < frames.len() ==> (#[trigger] frames[i]).tag == FrontendTag::Query.byte(),
    ensures
        tag_count(frames, FrontendTag::Query.byte()) == frames.len(),
        !ends_with_sync(frames),
    decreases frames.len(),
{
    if frames.len() > 0 {
        let front = frames.drop_last();
        assert forall|i: int| 0 <= i < front.len() implies (#[trigger] front[i]).tag
            == FrontendTag::Query.byte() by {
            assert(front[i] == frames[i]);
        }
        lemma_all_queries(front);
    }
}

/// A cycle that ends with a `Sync` is answered by a `ReadyForQuery`, so its end is never guessed
/// from closing messages.
pub proof fn law_sync_cycle_expects_ready(frames: Seq<Frame>)
    requires
        ends_with_sync(frames),
    ensures
        shape_of(frames).ready >= 1,
        shape_of(frames).completions == 0,
{
    lemma_tag_count_bounds(frames, FrontendTag::Query.byte());
}

proof fn lemma_tag_count_bounds(frames: Seq<Frame>, tag: u8)
    ensures
        0 <= tag_count(frames, tag) <= frames.len(),
    decreases frames.len(),
{
    if frames.len() > 0 {
        lemma_tag_count_bounds(frames.drop_last(), tag);
    }
}

// ---------------------------------------------------------------------------
// Reading cycles and startup packets
// ---------------------------------------------------------------------------

/// What stands at the start of a client's bytes.
#[derive(Debug, PartialEq, Eq)]
pub enum FrontendCycleRead {
    Complete { bytes: bytes::BytesMut, shape: FrontendCycleShape },
    Terminate { bytes: bytes::BytesMut },
    BufferLimitExceeded,
    NeedMoreBytes,
}

/// Takes every whole frame of some bytes.
pub fn parse_frontend_cycle_frames(bytes: bytes::BytesMut) -> (r: Result<
    Vec<FrontendFrame>,
    FrameLengthError,
>)
    ensures
        match r {
            Ok(frames) => !frames_invalid(buffer_bytes(bytes)) && frame_views(frames@)
                == whole_frames(buffer_bytes(bytes)),
            Err(error) => scan_frame(after_frames(buffer_bytes(bytes))) == FrameScan::Invalid(
                error.length as int,
            ),
        },
{
    let mut buffer = bytes;
    parse_frontend_frames(&mut buffer)
}

/// Takes the cycle at the start of a client's bytes, once all of it has come: a `Terminate`, a
/// run of simple queries, or an extended-protocol cycle up to its `Sync` or `Flush`. Nothing is
/// taken from a buffer that is over its limit, that does not hold a whole cycle, or that holds a
/// frame with a length field below four.
pub fn take_frontend_cycle_bytes(
    buffer: &mut bytes::BytesMut,
    max_client_buffer_bytes: usize,
) -> (r: Result<FrontendCycleRead, FrameLengthError>)
    ensures
        ({
            let bytes = buffer_bytes(*old(buffer));
            let left = buffer_bytes(*final(buffer));
            if bytes.len() > max_client_buffer_bytes {
                (r matches Ok(FrontendCycleRead::BufferLimitExceeded)) && left == bytes
            } else {
                match cycle_end(bytes, true) {
                    CycleScan::NeedMore => (r matches Ok(FrontendCycleRead::NeedMoreBytes)) && left
                        == bytes,
                    CycleScan::Invalid(length) => (r matches Err(error) && error.length == length)
                        && left == bytes,
                    CycleScan::Ends(end) => {
                        &&& left == bytes.skip(end)
                        &&& if bytes[0] == FrontendTag::Terminate.byte() {
                            r matches Ok(FrontendCycleRead::Terminate { bytes: taken })
                                && buffer_bytes(taken) == bytes.take(end)
                        } else {
                            r matches Ok(FrontendCycleRead::Complete { bytes: taken, shape })
                                && buffer_bytes(taken) == bytes.take(end) && shape@ == shape_of(
                                whole_frames(bytes.take(end)),
                            )
                        }
                    },
                }
            }
        }),
{
    if buffer_len(buffer) > max_client_buffer_bytes {
        return Ok(FrontendCycleRead::BufferLimitExceeded);
    }
    let ghost start = buffer_bytes(*buffer);
    let end = match frontend_cycle_len(buffer_slice(buffer), true) {
        Ok(Some(end)) => end,
        Ok(None) => {
            return Ok(FrontendCycleRead::NeedMoreBytes);
        },
        Err(error) => {
            return Err(error);
        },
    };
    let tag: u8 = buffer_slice(buffer)[0];
    let taken = split_to(buffer, end);
    if tag == FrontendTag::Terminate.as_byte() {
        return Ok(FrontendCycleRead::Terminate { bytes: taken });
    }
    proof {
        law_cycle_is_whole(start, true);
    }
    match FrontendCycleShape::from_wire_bytes(buffer_slice(&taken)) {
        Ok(Some(shape)) => Ok(FrontendCycleRead::Complete { bytes: taken, shape }),
        Ok(None) => Ok(FrontendCycleRead::NeedMoreBytes),
        Err(error) => Err(error),
    }
}

/// Which encryption a client asks for.
#[derive(Clone, Copy, Debug, PartialEq, Eq, Structural)]
pub enum StartupEncryptionRequest {
    Ssl,
    Gss,
}

/// What stands at the start of a new client's bytes.
#[derive(Debug, PartialEq, Eq)]
pub enum StartupPacketRead {
    Packet(bytes::BytesMut),
    Cancel { bytes: bytes::BytesMut, process_id: i32, secret_key: i32 },
    EncryptionRequest(StartupEncryptionRequest),
    BufferLimitExceeded,
    NeedMoreBytes,
}

/// Takes a new client's first packet, once all of it has come. A packet that is refused is taken
/// too, unless its length field is below eight.
pub fn take_startup_packet_bytes(
    buffer: &mut bytes::BytesMut,
    max_client_buffer_bytes: usize,
) -> (r: Result<StartupPacketRead, StartupError>)
    ensures
        ({
            let bytes = buffer_bytes(*old(buffer));
            let left = buffer_bytes(*final(buffer));
            let length = be_at(bytes, 0);
            if bytes.len() > max_client_buffer_bytes {
                (r matches Ok(StartupPacketRead::BufferLimitExceeded)) && left == bytes
            } else if bytes.len() < 4 {
                (r matches Ok(StartupPacketRead::NeedMoreBytes)) && left == bytes
            } else if length < 8 {
                r == Err::<StartupPacketRead, StartupError>(StartupError::InvalidLength) && left
                    == bytes
            } else if bytes.len() < length {
                (r matches Ok(StartupPacketRead::NeedMoreBytes)) && left == bytes
            } else {
                let packet = bytes.take(length);
                &&& left == bytes.skip(length)
                &&& match read_startup(packet) {
                    Err(error) => r == Err::<StartupPacketRead, StartupError>(error),
                    Ok(StartupFacts::Startup(_)) => r matches Ok(StartupPacketRead::Packet(taken))
                        && buffer_bytes(taken) == packet,
                    Ok(StartupFacts::Cancel(process, secret)) => {
                        &&& r matches Ok(
                            StartupPacketRead::Cancel { bytes: taken, process_id, secret_key },
                        )
                        &&& buffer_bytes(taken) == packet
                        &&& process_id == process
                        &&& secret_key == secret
                    },
                    Ok(StartupFacts::Ssl) => r matches Ok(
                        StartupPacketRead::EncryptionRequest(request),
                    ) && request == StartupEncryptionRequest::Ssl,
                    Ok(StartupFacts::Gss) => r matches Ok(
                        StartupPacketRead::EncryptionRequest(request),
                    ) && request == StartupEncryptionRequest::Gss,
                }
            }
        }),
{
    if buffer_len(buffer) > max_client_buffer_bytes {
        return Ok(StartupPacketRead::BufferLimitExceeded);
    }
    if buffer_len(buffer) < 4 {
        return Ok(StartupPacketRead::NeedMoreBytes);
    }
    let length: i32 = read_be32(buffer_slice(buffer), 0);
    if length < 8 {
        return Err(StartupError::InvalidLength);
    }
    if buffer_len(buffer) < length as usize {
        return Ok(StartupPacketRead::NeedMoreBytes);
    }
    let packet = split_to(buffer, length as usize);
    match parse_startup_packet(buffer_slice(&packet)) {
        Ok(StartupPacket::Startup { parameters: _ }) => Ok(StartupPacketRead::Packet(packet)),
        Ok(StartupPacket::CancelRequest { process_id, secret_key }) => Ok(
            StartupPacketRead::Cancel { bytes: packet, process_id, secret_key },
        ),
        Ok(StartupPacket::SslRequest) => Ok(
            StartupPacketRead::EncryptionRequest(StartupEncryptionRequest::Ssl),
        ),
        Ok(StartupPacket::GssEncRequest) => Ok(
            StartupPacketRead::EncryptionRequest(StartupEncryptionRequest::Gss),
        ),
        Err(error) => Err(error),
    }
}

/// A client's place among those that are served.
pub type ClientCapacityGuard = CapacityGuard;

/// A server connection's place among those that are open.
pub type BackendCapacityGuard = CapacityGuard;

/// Takes a place for a client where fewer than `max_clients` are taken.
pub fn try_enter_client_capacity(active: &mut usize, max_clients: usize) -> (r: Option<
    ClientCapacityGuard,
>)
    ensures
        r is Some <==> has_room(*old(active) as int, max_clients as int),
        *final(active) == entered(*old(active) as int, max_clients as int),
{
    try_enter_capacity(active, max_clients)
}

/// Takes a place for a server connection where fewer than `max_backends` are taken.
pub fn try_enter_backend_capacity(active: &mut usize, max_backends: usize) -> (r: Option<
    BackendCapacityGuard,
>)
    ensures
        r is Some <==> has_room(*old(active) as int, max_backends as int),
        *final(active) == entered(*old(active) as int, max_backends as int),
{
    try_enter_capacity(active, max_backends)
}

// ---------------------------------------------------------------------------
// Draining a server's answer
// ---------------------------------------------------------------------------

/// What is sent to the server in place of a client's cycle.
#[derive(Debug)]
pub struct PlannedFrontendCycle {
    pub backend_bytes: bytes::BytesMut,
    pub injected_parse_completes: usize,
    pub needs_sync: bool,
}

impl Default for PlannedFrontendCycle {
    fn default() -> (r: PlannedFrontendCycle)
        ensures
            buffer_bytes(r.backend_bytes).len() == 0,
            r.injected_parse_completes == 0,
            !r.needs_sync,
    {
        PlannedFrontendCycle {
            backend_bytes: new_buffer(),
            injected_parse_completes: 0,
            needs_sync: false,
        }
    }
}

/// What draining has found.
#[derive(Clone, Copy, Debug, PartialEq, Eq, Structural)]
pub enum ResponseDrainEvent {
    Frames { ready: Option<ReadyStatus>, response_started: bool },
    BufferLimitExceeded,
    NeedMoreBytes,
}

/// What draining has found, with the bytes for the client.
#[derive(Debug, PartialEq, Eq)]
pub enum BackendBytesDrainEvent {
    Bytes { bytes: bytes::BytesMut, ready: Option<ReadyStatus> },
    BufferLimitExceeded,
    NeedMoreBytes,
}

/// What is carried from one read of an answer to the next.
#[derive(Clone, Copy, Debug, PartialEq, Eq, Structural)]
pub struct BackendCycleProgress {
    pub ready_count: usize,
    pub injected_parse_completes: usize,
    pub completion_count: usize,
    pub saw_error: bool,
    pub response_started: bool,
}

impl Default for BackendCycleProgress {
    fn default() -> (r: BackendCycleProgress)
        ensures
            r.ready_count == 0,
            r.injected_parse_completes == 0,
            r.completion_count == 0,
            !r.saw_error,
            !r.response_started,
    {
        BackendCycleProgress {
            ready_count: 0,
            injected_parse_completes: 0,
            completion_count: 0,
            saw_error: false,
            response_started: false,
        }
    }
}

/// The answer to one cycle, as far as it has come.
#[derive(Debug)]
pub struct BackendResponseDrain {
    injected_parse_completes: usize,
    ready_count: usize,
    expected_ready_count: usize,
    completion_count: usize,
    expected_completion_count: usize,
    saw_error: bool,
    response_started: bool,
}

/// An answer as far as it has come, as plain values.
pub struct DrainFacts {
    pub injected: int,
    pub ready: int,
    pub completions: int,
    pub saw_error: bool,
    pub started: bool,
    pub expected_ready: int,
    pub expected_completions: int,
}

impl View for BackendResponseDrain {
    type V = DrainFacts;

    closed spec fn view(&self) -> DrainFacts {
        DrainFacts {
            injected: self.injected_parse_completes as int,
            ready: self.ready_count as int,
            completions: self.completion_count as int,
            saw_error: self.saw_error,
            started: self.response_started,
            expected_ready: self.expected_ready_count as int,
            expected_completions: self.expected_completion_count as int,
        }
    }
}

/// Whether a frame is kept from the client: it answers a `Parse` that the proxy sent of its own
/// accord.
pub open spec fn swallowed(state: DrainFacts, frame: Frame) -> bool {
    state.injected > 0 && frame.tag == BackendTag::ParseComplete.byte()
}

/// The answer after one more frame.
pub open spec fn drain_step(state: DrainFacts, frame: Frame) -> DrainFacts {
    if swallowed(state, frame) {
        DrainFacts { injected: state.injected - 1, ..state }
    } else {
        DrainFacts {
            ready: state.ready + (if ready_status_of(frame) is Some {
                1int
            } else {
                0int
            }),
            completions: state.completions + (if is_completion(frame.tag) {
                1int
            } else {
                0int
            }),
            saw_error: state.saw_error || frame.tag == BackendTag::ErrorResponse.byte(),
            started: true,
            ..state
        }
    }
}

/// The answer after some frames.
pub open spec fn drained(state: DrainFacts, frames: Seq<Frame>) -> DrainFacts
    decreases frames.len(),
{
    if frames.len() == 0 {
        state
    } else {
        drain_step(drained(state, frames.drop_last()), frames.last())
    }
}

/// Whether an answer without a status has ended: with an error, or with every reply that is due.
pub open spec fn flush_answered(state: DrainFacts) -> bool {
    state.saw_error || state.completions >= state.expected_completions
}

/// The frames that go on to the client.
pub open spec fn passed_on(state: DrainFacts, frames: Seq<Frame>) -> Seq<Frame>
    decreases frames.len(),
{
    if frames.len() == 0 {
        Seq::empty()
    } else {
        let before = passed_on(state, frames.drop_last());
        if swallowed(drained(state, frames.drop_last()), frames.last()) {
            before
        } else {
            before.push(frames.last())
        }
    }
}

/// The last transaction status among some frames.
pub open spec fn last_ready(frames: Seq<Frame>) -> Option<ReadyStatus>
    decreases frames.len(),
{
    if frames.len() == 0 {
        None
    } else if ready_status_of(frames.last()) is Some {
        ready_status_of(frames.last())
    } else {
        last_ready(frames.drop_last())
    }
}

/// What is found once some frames have gone on to the client, `held` of them in all.
pub open spec fn drain_event(
    state: DrainFacts,
    ready: Option<ReadyStatus>,
    held: nat,
) -> ResponseDrainEvent {
    if ready is Some && state.ready >= state.expected_ready {
        ResponseDrainEvent::Frames { ready, response_started: state.started }
    } else if held == 0 {
        ResponseDrainEvent::NeedMoreBytes
    } else {
        ResponseDrainEvent::Frames { ready: None, response_started: state.started }
    }
}

/// The frame that a header and a payload stand for.
pub open spec fn forwarded_frame(entry: ([u8; 5], bytes::Bytes)) -> Frame {
    Frame { tag: entry.0@[0], payload: frozen_bytes(entry.1) }
}

/// Whether a header is that of its payload.
pub open spec fn header_fits(entry: ([u8; 5], bytes::Bytes)) -> bool {
    entry.0@ == seq![entry.0@[0]] + be_bytes4(frozen_bytes(entry.1).len() as int + 4)
}

/// The frames that some headers and payloads stand for.
pub open spec fn forwarded(entries: Seq<([u8; 5], bytes::Bytes)>) -> Seq<Frame> {
    Seq::new(entries.len(), |i: int| forwarded_frame(entries[i]))
}

/// Whether every header is that of its payload.
pub open spec fn headers_fit(entries: Seq<([u8; 5], bytes::Bytes)>) -> bool {
    forall|i: int| 0 <= i < entries.len() ==> header_fits(#[trigger] entries[i])
}

/// Whether some headers and payloads were put behind others, which stay as they were, and each new
/// header is that of its payload.
pub open spec fn put_behind(
    before: Seq<([u8; 5], bytes::Bytes)>,
    after: Seq<([u8; 5], bytes::Bytes)>,
) -> bool {
    &&& before.len() <= after.len()
    &&& after.take(before.len() as int) == before
    &&& headers_fit(after.skip(before.len() as int))
}

proof fn lemma_put_behind(
    first: Seq<([u8; 5], bytes::Bytes)>,
    second: Seq<([u8; 5], bytes::Bytes)>,
    third: Seq<([u8; 5], bytes::Bytes)>,
)
    requires
        put_behind(first, second),
        put_behind(second, third),
    ensures
        put_behind(first, third),
{
    let n = first.len() as int;
    assert(third.take(n) =~= second.take(n)) by {
        assert(third.take(second.len() as int).take(n) =~= third.take(n));
    }
    let rest = third.skip(n);
    assert forall|i: int| 0 <= i < rest.len() implies header_fits(#[trigger] rest[i]) by {
        if i + n < second.len() {
            assert(third.take(second.len() as int)[i + n] == third[i + n]);
            assert(second.skip(n)[i] == second[i + n]);
        } else {
            assert(third.skip(second.len() as int)[i + n - second.len()] == third[i + n]);
        }
    }
}

/// Where every header was that of its payload, it still is.
pub proof fn law_headers_stay_fit(
    before: Seq<([u8; 5], bytes::Bytes)>,
    after: Seq<([u8; 5], bytes::Bytes)>,
)
    requires
        put_behind(before, after),
        headers_fit(before),
    ensures
        headers_fit(after),
{
    assert forall|i: int| 0 <= i < after.len() implies header_fits(#[trigger] after[i]) by {
        if i < before.len() {
            assert(after.take(before.len() as int)[i] == after[i]);
            assert(header_fits(before[i]));
        } else {
            let rest = after.skip(before.len() as int);
            assert(rest[i - before.len()] == after[i]);
        }
    }
}

fn header_of(tag: u8, payload_len: usize) -> (r: [u8; 5])
    ensures
        r@ == seq![tag] + be_bytes4(payload_len as int + 4),
{
    let low: u64 = ((payload_len as u128 + 4) % 0x1_0000_0000) as u64;
    let header: [u8; 5] = [
        tag,
        (low / 0x100_0000) as u8,
        ((low / 0x1_0000) % 0x100) as u8,
        ((low / 0x100) % 0x100) as u8,
        (low % 0x100) as u8,
    ];
    assert(header@ =~= seq![tag] + be_bytes4(payload_len as int + 4));
    header
}

impl BackendResponseDrain {
    /// Nothing has come yet of an answer with so many `ReadyForQuery` messages.
    pub fn new(expected_ready_count: usize, injected_parse_completes: usize) -> (r:
        BackendResponseDrain)
        ensures
            r@ == (DrainFacts {
                injected: injected_parse_completes as int,
                ready: 0,
                completions: 0,
                saw_error: false,
                started: false,
                expected_ready: expected_ready_count as int,
                expected_completions: 0,
            }),
    {
        BackendResponseDrain {
            injected_parse_completes,
            ready_count: 0,
            expected_ready_count,
            completion_count: 0,
            expected_completion_count: 0,
            saw_error: false,
            response_started: false,
        }
    }

    /// Nothing has come yet of the answer to a cycle.
    pub fn for_cycle(shape: FrontendCycleShape, injected_parse_completes: usize) -> (r:
        BackendResponseDrain)
        ensures
            r@ == (DrainFacts {
                injected: injected_parse_completes as int,
                ready: 0,
                completions: 0,
                saw_error: false,
                started: false,
                expected_ready: shape@.ready,
                expected_completions: shape@.completions,
            }),
    {
        BackendResponseDrain {
            injected_parse_completes,
            ready_count: 0,
            expected_ready_count: shape.expected_ready_count,
            completion_count: 0,
            expected_completion_count: shape.expected_completion_count,
            saw_error: false,
            response_started: false,
        }
    }

    /// The answer to a cycle, as far as earlier reads have brought it.
    pub fn resume(shape: FrontendCycleShape, progress: BackendCycleProgress) -> (r:
        BackendResponseDrain)
        ensures
            r@ == (DrainFacts {
                injected: progress.injected_parse_completes as int,
                ready: progress.ready_count as int,
                completions: progress.completion_count as int,
                saw_error: progress.saw_error,
                started: progress.response_started,
                expected_ready: shape@.ready,
                expected_completions: shape@.completions,
            }),
    {
        BackendResponseDrain {
            injected_parse_completes: progress.injected_parse_completes,
            ready_count: progress.ready_count,
            expected_ready_count: shape.expected_ready_count,
            completion_count: progress.completion_count,
            expected_completion_count: shape.expected_completion_count,
            saw_error: progress.saw_error,
            response_started: progress.response_started,
        }
    }

    /// An answer with so many `ReadyForQuery` messages, as far as earlier reads have brought it.
    pub(crate) fn from_counts(
        expected_ready_count: usize,
        ready_count: usize,
        injected_parse_completes: usize,
        response_started: bool,
    ) -> (r: BackendResponseDrain)
        ensures
            r@ == (DrainFacts {
                injected: injected_parse_completes as int,
                ready: ready_count as int,
                completions: 0,
                saw_error: false,
                started: response_started,
                expected_ready: expected_ready_count as int,
                expected_completions: 0,
            }),
    {
        BackendResponseDrain {
            injected_parse_completes,
            ready_count,
            expected_ready_count,
            completion_count: 0,
            expected_completion_count: 0,
            saw_error: false,
            response_started,
        }
    }

    /// What the next read has to know.
    pub fn progress(&self) -> (r: BackendCycleProgress)
        ensures
            r.ready_count == self@.ready,
            r.injected_parse_completes == self@.injected,
            r.completion_count == self@.completions,
            r.saw_error == self@.saw_error,
            r.response_started == self@.started,
    {
        BackendCycleProgress {
            ready_count: self.ready_count,
            injected_parse_completes: self.injected_parse_completes,
            completion_count: self.completion_count,
            saw_error: self.saw_error,
            response_started: self.response_started,
        }
    }

    /// Whether any of the answer has gone on to the client.
    pub fn response_started(&self) -> (r: bool)
        ensures
            r == self@.started,
    {
        self.response_started
    }

    /// How many `ReadyForQuery` messages have come.
    pub fn ready_count(&self) -> (r: usize)
        ensures
            r == self@.ready,
    {
        self.ready_count
    }

    /// How many answers to the proxy's own `Parse` messages are still to come.
    pub fn injected_parse_completes(&self) -> (r: usize)
        ensures
            r == self@.injected,
    {
        self.injected_parse_completes
    }

    /// Whether the answer ends with a `ReadyForQuery`.
    pub fn expects_ready(&self) -> (r: bool)
        ensures
            r == (self@.expected_ready > 0),
    {
        self.expected_ready_count > 0
    }

    /// Whether an answer without a `ReadyForQuery` has come in full. An error ends it early: the
    /// server passes over the rest of the cycle until it sees a `Sync`.
    pub fn flush_cycle_complete(&self) -> (r: bool)
        ensures
            r == flush_answered(self@),
    {
        self.saw_error || self.completion_count >= self.expected_completion_count
    }

    /// Takes one frame from the server's bytes, and says whether it goes on to the client: its
    /// answer is `Ok(Some(Some(frame)))` where it does, and `Ok(Some(None))` where it is kept.
    pub fn pull(&mut self, backend_buffer: &mut bytes::BytesMut) -> (r: Result<
        Option<Option<BackendFrame>>,
        FrameLengthError,
    >)
        ensures
            ({
                let bytes = buffer_bytes(*old(backend_buffer));
                let left = buffer_bytes(*final(backend_buffer));
                match scan_frame(bytes) {
                    FrameScan::Incomplete => (r matches Ok(None)) && left == bytes && final(self)@
                        == old(self)@,
                    FrameScan::Invalid(length) => (r matches Err(error) && error.length == length)
                        && left == bytes && final(self)@ == old(self)@,
                    FrameScan::Complete(size) => {
                        let frame = frame_of(bytes, size);
                        &&& 0 < size <= bytes.len()
                        &&& left == bytes.skip(size)
                        &&& if swallowed(old(self)@, frame) {
                            (r matches Ok(Some(None))) && final(self)@ == drain_step(
                                old(self)@,
                                frame,
                            )
                        } else {
                            (r matches Ok(Some(Some(taken))) && taken@ == frame) && final(self)@
                                == (DrainFacts { started: true, ..old(self)@ })
                        }
                    },
                }
            }),
    {
        match parse_backend_frame(backend_buffer) {
            Ok(Some(frame)) => {
                if self.injected_parse_completes > 0 && frame.tag
                    == BackendTag::ParseComplete.as_byte() {
                    self.injected_parse_completes -= 1;
                    Ok(Some(None))
                } else {
                    self.response_started = true;
                    Ok(Some(Some(frame)))
                }
            },
            Ok(None) => Ok(None),
            Err(error) => Err(error),
        }
    }

    /// Counts a frame that goes on to the client and adds it to those that do. Gives the
    /// transaction status that it reports.
    pub fn accept(
        &mut self,
        frame: BackendFrame,
        forwarded_frames: &mut Vec<([u8; 5], bytes::Bytes)>,
    ) -> (r: Option<ReadyStatus>)
        requires
            old(self)@.ready < usize::MAX,
            old(self)@.completions < usize::MAX,
            old(self)@.started,
        ensures
            r == ready_status_of(frame@),
            !swallowed(old(self)@, frame@) ==> final(self)@ == drain_step(old(self)@, frame@),
            forwarded(final(forwarded_frames)@) == forwarded(old(forwarded_frames)@).push(frame@),
            final(forwarded_frames)@.len() == old(forwarded_frames)@.len() + 1,
            put_behind(old(forwarded_frames)@, final(forwarded_frames)@),
    {
        let ghost before = forwarded_frames@;
        let status = frame.ready_status();
        if status.is_some() {
            self.ready_count += 1;
        }
        if is_backend_cycle_completion(frame.tag) {
            self.completion_count += 1;
        }
        if frame.tag == BackendTag::ErrorResponse.as_byte() {
            self.saw_error = true;
        }
        let header = header_of(frame.tag, frozen_slice(&frame.payload).len());
        let ghost view = frame@;
        assert(header@[0] == frame.tag);
        forwarded_frames.push((header, frame.payload));
        proof {
            let now = forwarded_frames@;
            assert(forwarded(now) =~= forwarded(before).push(view));
            assert(now.take(before.len() as int) =~= before);
            assert(now.skip(before.len() as int) =~= seq![now.last()]);
            assert(header_fits(now.last()));
        }
        status
    }

    /// What is found once frames have gone on to the client, `held` of them in all, of which the
    /// last that reported a transaction status reported `ready`. It ends a drain that is made of
    /// `pull` and `accept`.
    pub fn event(&self, ready: Option<ReadyStatus>, held: usize) -> (r: ResponseDrainEvent)
        ensures
            r == drain_event(self@, ready, held as nat),
    {
        if ready.is_some() && self.ready_count >= self.expected_ready_count {
            ResponseDrainEvent::Frames { ready, response_started: self.response_started }
        } else if held == 0 {
            ResponseDrainEvent::NeedMoreBytes
        } else {
            ResponseDrainEvent::Frames { ready: None, response_started: self.response_started }
        }
    }

    /// Takes every whole frame from the server's bytes and adds those for the client to
    /// `forwarded_frames`.
    pub fn drain(
        &mut self,
        backend_buffer: &mut bytes::BytesMut,
        forwarded_frames: &mut Vec<([u8; 5], bytes::Bytes)>,
    ) -> (r: Result<ResponseDrainEvent, FrameLengthError>)
        requires
            old(self)@.ready + buffer_bytes(*old(backend_buffer)).len() <= usize::MAX,
            old(self)@.completions + buffer_bytes(*old(backend_buffer)).len() <= usize::MAX,
        ensures
            ({
                let bytes = buffer_bytes(*old(backend_buffer));
                let frames = whole_frames(bytes);
                let passed = passed_on(old(self)@, frames);
                &&& buffer_bytes(*final(backend_buffer)) == after_frames(bytes)
                &&& final(self)@ == drained(old(self)@, frames)
                &&& forwarded(final(forwarded_frames)@) == forwarded(old(forwarded_frames)@)
                    + passed
                &&& put_behind(old(forwarded_frames)@, final(forwarded_frames)@)
                &&& headers_fit(old(forwarded_frames)@) ==> headers_fit(final(forwarded_frames)@)
                &&& match r {
                    Ok(event) => !frames_invalid(bytes) && event == drain_event(
                        final(self)@,
                        last_ready(passed),
                        final(forwarded_frames)@.len(),
                    ),
                    Err(error) => scan_frame(after_frames(bytes)) == FrameScan::Invalid(
                            error.length as int,
                        ),
                }
            }),
    {
        let ghost bytes = buffer_bytes(*backend_buffer);
        let ghost start = self@;
        let ghost held = forwarded_frames@;
        let ghost mut done: Seq<Frame> = Seq::empty();
        let mut ready: Option<ReadyStatus> = None;
        proof {
            assert(done + whole_frames(bytes) =~= whole_frames(bytes));
            assert(forwarded(held) + passed_on(start, done) =~= forwarded(held));
            assert(held.take(held.len() as int) =~= held);
            assert(held.skip(held.len() as int) =~= Seq::empty());
        }
        loop
            invariant
                start == old(self)@,
                bytes == buffer_bytes(*old(backend_buffer)),
                held == old(forwarded_frames)@,
                done + whole_frames(buffer_bytes(*backend_buffer)) == whole_frames(bytes),
                after_frames(buffer_bytes(*backend_buffer)) == after_frames(bytes),
                self@ == drained(start, done),
                forwarded(forwarded_frames@) == forwarded(held) + passed_on(start, done),
                put_behind(held, forwarded_frames@),
                ready == last_ready(passed_on(start, done)),
                self@.ready + buffer_bytes(*backend_buffer).len() <= usize::MAX,
                self@.completions + buffer_bytes(*backend_buffer).len() <= usize::MAX,
            decreases buffer_bytes(*backend_buffer).len(),
        {
            let ghost now = buffer_bytes(*backend_buffer);
            let ghost state = self@;
            let pulled = self.pull(backend_buffer);
            match pulled {
                Err(error) => {
                    assert(done + Seq::<Frame>::empty() =~= done);
                    proof {
                        if headers_fit(held) {
                            law_headers_stay_fit(held, forwarded_frames@);
                        }
                    }
                    return Err(error);
                },
                Ok(None) => {
                    assert(done + Seq::<Frame>::empty() =~= done);
                    proof {
                        if headers_fit(held) {
                            law_headers_stay_fit(held, forwarded_frames@);
                        }
                    }
                    return Ok(self.event(ready, forwarded_frames.len()));
                },
                Ok(Some(taken)) => {
                    let ghost size = scan_frame(now)->Complete_0;
                    let ghost frame = frame_of(now, size);
                    let ghost next = done.push(frame);
                    proof {
                        assert(next.drop_last() =~= done);
                        assert(done + whole_frames(now) =~= next + whole_frames(now.skip(size)));
                    }
                    if let Some(frame_taken) = taken {
                        let ghost earlier = forwarded_frames@;
                        let status = self.accept(frame_taken, forwarded_frames);
                        proof {
                            lemma_put_behind(held, earlier, forwarded_frames@);
                            let passed = passed_on(start, done);
                            assert(passed_on(start, next) == passed.push(frame));
                            assert(passed.push(frame).drop_last() =~= passed);
                            assert(forwarded(held) + passed.push(frame) =~= (forwarded(held)
                                + passed).push(frame));
                        }
                        if status.is_some() {
                            ready = status;
                        }
                    }
                    proof {
                        done = next;
                    }
                },
            }
        }
    }

    /// Drains the server's bytes, unless there are more than the limit allows.
    pub fn drain_with_limit(
        &mut self,
        backend_buffer: &mut bytes::BytesMut,
        forwarded_frames: &mut Vec<([u8; 5], bytes::Bytes)>,
        max_backend_buffer_bytes: usize,
    ) -> (r: Result<ResponseDrainEvent, FrameLengthError>)
        requires
            old(self)@.ready + buffer_bytes(*old(backend_buffer)).len() <= usize::MAX,
            old(self)@.completions + buffer_bytes(*old(backend_buffer)).len() <= usize::MAX,
        ensures
            ({
                let bytes = buffer_bytes(*old(backend_buffer));
                let frames = whole_frames(bytes);
                let passed = passed_on(old(self)@, frames);
                if bytes.len() > max_backend_buffer_bytes {
                    &&& r matches Ok(ResponseDrainEvent::BufferLimitExceeded)
                    &&& buffer_bytes(*final(backend_buffer)) == bytes
                    &&& final(self)@ == old(self)@
                    &&& final(forwarded_frames)@ == old(forwarded_frames)@
                } else {
                    &&& buffer_bytes(*final(backend_buffer)) == after_frames(bytes)
                    &&& final(self)@ == drained(old(self)@, frames)
                    &&& forwarded(final(forwarded_frames)@) == forwarded(old(forwarded_frames)@)
                        + passed
                    &&& put_behind(old(forwarded_frames)@, final(forwarded_frames)@)
                    &&& headers_fit(old(forwarded_frames)@) ==> headers_fit(
                        final(forwarded_frames)@,
                    )
                    &&& match r {
                        Ok(event) => !frames_invalid(bytes) && event == drain_event(
                            final(self)@,
                            last_ready(passed),
                            final(forwarded_frames)@.len(),
                        ),
                        Err(error) => scan_frame(after_frames(bytes)) == FrameScan::Invalid(
                            error.length as int,
                        ),
                    }
                }
            }),
    {
        if buffer_len(backend_buffer) > max_backend_buffer_bytes {
            return Ok(ResponseDrainEvent::BufferLimitExceeded);
        }
        self.drain(backend_buffer, forwarded_frames)
    }
}

fn join_frames(entries: &Vec<([u8; 5], bytes::Bytes)>) -> (r: bytes::BytesMut)
    requires
        headers_fit(entries@),
    ensures
        buffer_bytes(r) == encoded_frames(forwarded(entries@)),
{
    let mut bytes = new_buffer();
    let mut i: usize = 0;
    assert(forwarded(entries@).take(0) =~= Seq::empty());
    while i < entries.len()
        invariant
            i <= entries@.len(),
            headers_fit(entries@),
            buffer_bytes(bytes) == encoded_frames(forwarded(entries@).take(i as int)),
        decreases entries@.len() - i,
    {
        let ghost upto = forwarded(entries@).take(i + 1);
        assert(upto.drop_last() =~= forwarded(entries@).take(i as int));
        assert(upto.last() == forwarded_frame(entries@[i as int]));
        assert(header_fits(entries@[i as int]));
        put_bytes(&mut bytes, entries[i].0.as_slice());
        put_bytes(&mut bytes, frozen_slice(&entries[i].1));
        assert(buffer_bytes(bytes) =~= encoded_frames(upto.drop_last()) + upto.last().encoded());
        i += 1;
    }
    assert(forwarded(entries@).take(i as int) =~= forwarded(entries@));
    bytes
}

/// Drains the server's bytes and gives those for the client: the whole frames that have come, one
/// after the other, without the answers to the proxy's own `Parse` messages.
pub fn drain_backend_response_bytes(
    backend_buffer: &mut bytes::BytesMut,
    drain: &mut BackendResponseDrain,
    max_backend_buffer_bytes: usize,
) -> (r: Result<BackendBytesDrainEvent, FrameLengthError>)
    requires
        old(drain)@.ready + buffer_bytes(*old(backend_buffer)).len() <= usize::MAX,
        old(drain)@.completions + buffer_bytes(*old(backend_buffer)).len() <= usize::MAX,
    ensures
        ({
            let bytes = buffer_bytes(*old(backend_buffer));
            let frames = whole_frames(bytes);
            let passed = passed_on(old(drain)@, frames);
            if bytes.len() > max_backend_buffer_bytes {
                &&& r matches Ok(BackendBytesDrainEvent::BufferLimitExceeded)
                &&& buffer_bytes(*final(backend_buffer)) == bytes
                &&& final(drain)@ == old(drain)@
            } else {
                &&& buffer_bytes(*final(backend_buffer)) == after_frames(bytes)
                &&& final(drain)@ == drained(old(drain)@, frames)
                &&& if frames_invalid(bytes) {
                    r matches Err(error) && scan_frame(after_frames(bytes)) == FrameScan::Invalid(
                        error.length as int,
                    )
                } else {
                    match drain_event(final(drain)@, last_ready(passed), passed.len()) {
                        ResponseDrainEvent::Frames { ready, response_started } => {
                            &&& r matches Ok(
                                BackendBytesDrainEvent::Bytes { bytes: out, ready: status },
                            )
                            &&& buffer_bytes(out) == encoded_frames(passed)
                            &&& status == ready
                        },
                        _ => r matches Ok(BackendBytesDrainEvent::NeedMoreBytes),
                    }
                }
            }
        }),
{
    let mut entries: Vec<([u8; 5], bytes::Bytes)> = Vec::new();
    assert(headers_fit(entries@));
    let ghost passed = passed_on(drain@, whole_frames(buffer_bytes(*backend_buffer)));
    let event = match drain.drain_with_limit(
        backend_buffer,
        &mut entries,
        max_backend_buffer_bytes,
    ) {
        Ok(event) => event,
        Err(error) => {
            return Err(error);
        },
    };
    match event {
        ResponseDrainEvent::Frames { ready, response_started: _ } => {
            assert(forwarded(Seq::<([u8; 5], bytes::Bytes)>::empty()) + passed =~= passed);
            assert(forwarded(entries@).len() == entries@.len());
            Ok(BackendBytesDrainEvent::Bytes { bytes: join_frames(&entries), ready })
        },
        ResponseDrainEvent::BufferLimitExceeded => {
            Ok(BackendBytesDrainEvent::BufferLimitExceeded)
        },
        ResponseDrainEvent::NeedMoreBytes => {
            assert(forwarded(Seq::<([u8; 5], bytes::Bytes)>::empty()) + passed =~= passed);
            assert(forwarded(entries@).len() == entries@.len());
            Ok(BackendBytesDrainEvent::NeedMoreBytes)
        },
    }
}

/// Where the proxy has sent no `Parse` of its own, every frame goes on to the client.
pub proof fn law_nothing_injected_all_passed(state: DrainFacts, frames: Seq<Frame>)
    requires
        state.injected == 0,
    ensures
        passed_on(state, frames) == frames,
        drained(state, frames).injected == 0,
    decreases frames.len(),
{
    if frames.len() > 0 {
        law_nothing_injected_all_passed(state, frames.drop_last());
        assert(frames.drop_last().push(frames.last()) =~= frames);
    }
}

/// Where the proxy has sent no `Parse` of its own, the client gets the server's bytes unchanged:
/// what is passed on and what is left are the bytes that came.
pub proof fn law_bytes_pass_unchanged(state: DrainFacts, bytes: Seq<u8>)
    requires
        state.injected == 0,
    ensures
        encoded_frames(passed_on(state, whole_frames(bytes))) + after_frames(bytes) == bytes,
{
    law_nothing_injected_all_passed(state, whole_frames(bytes));
    crate::wire::law_frames_keep_bytes(bytes);
}

/// Every frame is either passed on or answers one of the proxy's own `Parse` messages.
pub proof fn law_frames_accounted_for(state: DrainFacts, frames: Seq<Frame>)
    requires
        state.injected >= 0,
    ensures
        passed_on(state, frames).len() + (state.injected - drained(state, frames).injected)
            == frames.len(),
        0 <= drained(state, frames).injected <= state.injected,
    decreases frames.len(),
{
    if frames.len() > 0 {
        law_frames_accounted_for(state, frames.drop_last());
    }
}

/// Draining in two reads comes to the same as draining in one.
pub proof fn law_drain_in_parts(state: DrainFacts, first: Seq<Frame>, second: Seq<Frame>)
    ensures
        drained(state, first + second) == drained(drained(state, first), second),
        passed_on(state, first + second) == passed_on(state, first) + passed_on(
            drained(state, first),
            second,
        ),
    decreases second.len(),
{
    let all = first + second;
    if second.len() == 0 {
        assert(all =~= first);
        assert(passed_on(state, first) + Seq::<Frame>::empty() =~= passed_on(state, first));
    } else {
        assert(all.drop_last() =~= first + second.drop_last());
        law_drain_in_parts(state, first, second.drop_last());
        let before = passed_on(state, first);
        let later = passed_on(drained(state, first), second.drop_last());
        assert((before + later).push(second.last()) =~= before + later.push(second.last()));
    }
}

/// What has been counted of an answer is never lost, and an answer that has ended stays ended.
pub proof fn law_answered_stays_answered(state: DrainFacts, frames: Seq<Frame>)
    ensures
        drained(state, frames).ready >= state.ready,
        drained(state, frames).completions >= state.completions,
        drained(state, frames).expected_ready == state.expected_ready,
        drained(state, frames).expected_completions == state.expected_completions,
        state.saw_error ==> drained(state, frames).saw_error,
        flush_answered(state) ==> flush_answered(drained(state, frames)),
    decreases frames.len(),
{
    if frames.len() > 0 {
        law_answered_stays_answered(state, frames.drop_last());
    }
}

/// An error ends an answer without a status, whatever replies are still due: the server leaves
/// the rest of the cycle unanswered.
pub proof fn law_error_ends_flush_cycle(state: DrainFacts, frames: Seq<Frame>, i: int)
    requires
        0 <= i < frames.len(),
        frames[i].tag == BackendTag::ErrorResponse.byte(),
    ensures
        drained(state, frames).saw_error,
        flush_answered(drained(state, frames)),
    decreases frames.len(),
{
    if i < frames.len() - 1 {
        law_error_ends_flush_cycle(state, frames.drop_last(), i);
    }
}

/// A cycle has no answer to wait for exactly where nothing in it asks for one: no query, no `Sync`
/// at the end, and no request that is closed by a reply. A lone `Flush` is such a cycle.
pub proof fn law_no_answer_where_nothing_asks(frames: Seq<Frame>)
    ensures
        (shape_of(frames).ready == 0 && shape_of(frames).completions == 0) <==> (!ends_with_sync(
            frames,
        ) && forall|i: int|
            0 <= i < frames.len() ==> (#[trigger] frames[i]).tag != FrontendTag::Query.byte()
                && !expects_completion(frames[i].tag)),
{
    lemma_asked_counts(frames);
}

proof fn lemma_asked_counts(frames: Seq<Frame>)
    ensures
        tag_count(frames, FrontendTag::Query.byte()) >= 0,
        completion_requests(frames) >= 0,
        tag_count(frames, FrontendTag::Query.byte()) == 0 <==> (forall|i: int|
            0 <= i < frames.len() ==> (#[trigger] frames[i]).tag != FrontendTag::Query.byte()),
        completion_requests(frames) == 0 <==> (forall|i: int|
            0 <= i < frames.len() ==> !expects_completion((#[trigger] frames[i]).tag)),
    decreases frames.len(),
{
    if frames.len() > 0 {
        let front = frames.drop_last();
        lemma_asked_counts(front);
        assert(frames.last() == frames[frames.len() - 1]);
        assert(forall|i: int| 0 <= i < front.len() ==> (#[trigger] front[i]) == frames[i]);
        assert(forall|i: int|
            0 <= i < frames.len() ==> (#[trigger] frames[i]) == if i < front.len() {
                front[i]
            } else {
                frames.last()
            });
    }
}

/// How many of a server's messages close the answer to a request.
pub open spec fn completion_replies(frames: Seq<Frame>) -> int
    decreases frames.len(),
{
    if frames.len() == 0 {
        0
    } else {
        completion_replies(frames.drop_last()) + (if is_completion(frames.last().tag) {
            1int
        } else {
            0int
        })
    }
}

/// The answer to some requests, before any of it has come. The proxy has sent no `Parse` of its
/// own.
pub open spec fn fresh_answer(requests: Seq<Frame>) -> DrainFacts {
    DrainFacts {
        injected: 0,
        ready: 0,
        completions: 0,
        saw_error: false,
        started: false,
        expected_ready: shape_of(requests).ready,
        expected_completions: shape_of(requests).completions,
    }
}

/// The answer to a cycle that ends with a `Flush` is over with the reply that closes its last
/// request, and not before, unless an error ends it.
pub proof fn law_flush_cycle_ends_with_last_reply(requests: Seq<Frame>, answers: Seq<Frame>)
    requires
        shape_of(requests).ready == 0,
        forall|i: int| 0 <= i < answers.len() ==> (#[trigger] answers[i]).tag
            != BackendTag::ErrorResponse.byte(),
    ensures
        flush_answered(drained(fresh_answer(requests), answers)) <==> completion_replies(answers)
            >= completion_requests(requests),
{
    lemma_replies_counted(fresh_answer(requests), answers);
}

proof fn lemma_replies_counted(state: DrainFacts, answers: Seq<Frame>)
    requires
        state.injected == 0,
        !state.saw_error,
        forall|i: int| 0 <= i < answers.len() ==> (#[trigger] answers[i]).tag
            != BackendTag::ErrorResponse.byte(),
    ensures
        drained(state, answers).injected == 0,
        !drained(state, answers).saw_error,
        drained(state, answers).completions == state.completions + completion_replies(answers),
        drained(state, answers).expected_completions == state.expected_completions,
    decreases answers.len(),
{
    if answers.len() > 0 {
        let front = answers.drop_last();
        assert(forall|i: int| 0 <= i < front.len() ==> (#[trigger] front[i]) == answers[i]);
        lemma_replies_counted(state, front);
        assert(answers.last() == answers[answers.len() - 1]);
    }
}

/// The reply to a `Parse` that the proxy sent of its own accord counts for nothing: neither as an
/// answer to the client's requests nor as the beginning of one.
pub proof fn law_injected_reply_not_counted(state: DrainFacts, frame: Frame)
    requires
        swallowed(state, frame),
    ensures
        drain_step(state, frame) == (DrainFacts { injected: state.injected - 1, ..state }),
{
}

/// What one message of the server counts for, by the byte that it begins with. A `ParseComplete`
/// (`1`) that answers the proxy's own `Parse` counts for nothing. Otherwise `ParseComplete`,
/// `BindComplete` (`2`), `CloseComplete` (`3`), `RowDescription` (`T`), `NoData` (`n`),
/// `CommandComplete` (`C`), `EmptyQueryResponse` (`I`) and `PortalSuspended` (`s`) each close one
/// request, an `ErrorResponse` (`E`) is remembered, and a `ReadyForQuery` (`Z`) that reports idle
/// (`I`), a transaction (`T`) or a failed one (`E`) is counted as such.
pub proof fn law_replies_by_tag(state: DrainFacts, frame: Frame)
    ensures
        ({
            let next = drain_step(state, frame);
            let closes = frame.tag == 49u8 || frame.tag == 50u8 || frame.tag == 51u8 || frame.tag
                == 84u8 || frame.tag == 110u8 || frame.tag == 67u8 || frame.tag == 73u8 || frame.tag
                == 115u8;
            let reports = frame.tag == 90u8 && frame.payload.len() == 1 && (frame.payload[0] == 73u8
                || frame.payload[0] == 84u8 || frame.payload[0] == 69u8);
            &&& next.expected_ready == state.expected_ready
            &&& next.expected_completions == state.expected_completions
            &&& if frame.tag == 49u8 && state.injected > 0 {
                &&& next.injected == state.injected - 1
                &&& next.completions == state.completions
                &&& next.ready == state.ready
                &&& next.saw_error == state.saw_error
                &&& next.started == state.started
            } else {
                &&& next.injected == state.injected
                &&& next.completions == if closes {
                    state.completions + 1
                } else {
                    state.completions
                }
                &&& next.ready == if reports {
                    state.ready + 1
                } else {
                    state.ready
                }
                &&& next.saw_error == (state.saw_error || frame.tag == 69u8)
                &&& next.started
            }
        }),
{
}

/// While an answer without a status has fewer closing replies than the cycle has requests, and no
/// error, it is not over; with as many it is.
pub proof fn law_flush_waits_for_every_request(requests: Seq<Frame>, answers: Seq<Frame>)
    requires
        requests.len() > 0,
        requests.last().tag == 72u8,
        forall|i: int| 0 <= i < requests.len() ==> (#[trigger] requests[i]).tag != 81u8,
        forall|i: int| 0 <= i < answers.len() ==> (#[trigger] answers[i]).tag != 69u8,
    ensures
        flush_answered(drained(fresh_answer(requests), answers)) <==> answers.filter(
            |frame: Frame|
                frame.tag == 49u8 || frame.tag == 50u8 || frame.tag == 51u8 || frame.tag == 84u8
                    || frame.tag == 110u8 || frame.tag == 67u8 || frame.tag == 73u8 || frame.tag
                    == 115u8,
        ).len() >= requests.filter(
            |frame: Frame|
                frame.tag == 80u8 || frame.tag == 66u8 || frame.tag == 68u8 || frame.tag == 69u8
                    || frame.tag == 67u8,
        ).len(),
{
    lemma_asked_counts(requests);
    law_flush_cycle_ends_with_last_reply(requests, answers);
    lemma_requests_by_tag(requests);
    lemma_replies_by_tag(answers);
}

proof fn lemma_replies_by_tag(answers: Seq<Frame>)
    ensures
        completion_replies(answers) == answers.filter(
            |frame: Frame|
                frame.tag == 49u8 || frame.tag == 50u8 || frame.tag == 51u8 || frame.tag == 84u8
                    || frame.tag == 110u8 || frame.tag == 67u8 || frame.tag == 73u8 || frame.tag
                    == 115u8,
        ).len(),
    decreases answers.len(),
{
    reveal(Seq::filter);
    if answers.len() > 0 {
        lemma_replies_by_tag(answers.drop_last());
    }
}

/// How many of a server's messages report a status, by their bytes.
proof fn lemma_ready_counted(state: DrainFacts, answers: Seq<Frame>)
    requires
        state.injected == 0,
    ensures
        drained(state, answers).injected == 0,
        drained(state, answers).expected_ready == state.expected_ready,
        drained(state, answers).ready == state.ready + answers.filter(
            |frame: Frame|
                frame.tag == 90u8 && frame.payload.len() == 1 && (frame.payload[0] == 73u8
                    || frame.payload[0] == 84u8 || frame.payload[0] == 69u8),
        ).len(),
    decreases answers.len(),
{
    reveal(Seq::filter);
    if answers.len() > 0 {
        lemma_ready_counted(state, answers.drop_last());
    }
}

/// The answer to a cycle is over with a status exactly once as many `ReadyForQuery` messages have
/// come as the cycle has queries and a `Sync` at its end, with the last of them in this read. The
/// status is that of the last one.
pub proof fn law_answer_ends_with_its_last_status(
    requests: Seq<Frame>,
    earlier: Seq<Frame>,
    read: Seq<Frame>,
)
    ensures
        ({
            let state = drained(fresh_answer(requests), earlier + read);
            let passed = passed_on(drained(fresh_answer(requests), earlier), read);
            let event = drain_event(state, last_ready(passed), passed.len());
            let told = (earlier + read).filter(
                |frame: Frame|
                    frame.tag == 90u8 && frame.payload.len() == 1 && (frame.payload[0] == 73u8
                        || frame.payload[0] == 84u8 || frame.payload[0] == 69u8),
            ).len();
            let due = requests.filter(|frame: Frame| frame.tag == 81u8).len() + (if requests.len()
                > 0 && requests.last().tag == 83u8 {
                1int
            } else {
                0int
            });
            let ended = told >= due && exists|i: int|
                0 <= i < read.len() && ready_status_of(#[trigger] read[i]) is Some;
            &&& passed == read
            &&& ended <==> (event matches ResponseDrainEvent::Frames { ready, response_started }
                && ready is Some)
            &&& !ended && read.len() > 0 ==> (event matches ResponseDrainEvent::Frames {
                ready,
                response_started,
            } && ready is None)
            &&& read.len() == 0 ==> event == ResponseDrainEvent::NeedMoreBytes
        }),
{
    let start = fresh_answer(requests);
    lemma_ready_counted(start, earlier + read);
    lemma_ready_counted(start, earlier);
    lemma_queries_by_tag(requests);
    law_nothing_injected_all_passed(drained(start, earlier), read);
    lemma_last_ready(read);
}

proof fn lemma_last_ready(frames: Seq<Frame>)
    ensures
        last_ready(frames) is Some <==> exists|i: int|
            0 <= i < frames.len() && ready_status_of(#[trigger] frames[i]) is Some,
    decreases frames.len(),
{
    if frames.len() > 0 {
        let front = frames.drop_last();
        lemma_last_ready(front);
        assert(frames.last() == frames[frames.len() - 1]);
        if last_ready(front) is Some {
            let i = choose|i: int|
                0 <= i < front.len() && ready_status_of(#[trigger] front[i]) is Some;
            assert(frames[i] == front[i]);
        }
        if exists|i: int| 0 <= i < frames.len() && ready_status_of(#[trigger] frames[i]) is Some {
            let i = choose|i: int|
                0 <= i < frames.len() && ready_status_of(#[trigger] frames[i]) is Some;
            if i < front.len() {
                assert(front[i] == frames[i]);
            }
        }
    }
}

/// The status that is reported last is the one that is told.
pub proof fn law_last_status_is_told(frames: Seq<Frame>, i: int)
    requires
        0 <= i < frames.len(),
        frames[i].tag == 90u8,
        frames[i].payload.len() == 1,
        forall|j: int| i < j < frames.len() ==> (#[trigger] frames[j]).tag != 90u8,
    ensures
        frames[i].payload[0] == 73u8 ==> last_ready(frames) == Some(ReadyStatus::Idle),
        frames[i].payload[0] == 84u8 ==> last_ready(frames) == Some(ReadyStatus::Transaction),
        frames[i].payload[0] == 69u8 ==> last_ready(frames) == Some(
            ReadyStatus::FailedTransaction,
        ),
    decreases frames.len(),
{
    if i < frames.len() - 1 {
        assert(frames.last() == frames[frames.len() - 1]);
        assert forall|j: int| i < j < frames.drop_last().len() implies (
        #[trigger] frames.drop_last()[j]).tag != 90u8 by {
            assert(frames.drop_last()[j] == frames[j]);
        }
        law_last_status_is_told(frames.drop_last(), i);
    }
}

/// How the forwarding of an answer goes on.
#[derive(Debug)]
pub enum ForwardStep {
    /// The answer has ended with this status. The bytes, where there are any, are written first.
    Ready { bytes: bytes::BytesMut, status: ReadyStatus },
    /// The answer has ended without a status. The bytes, where there are any, are written first.
    Flushed { bytes: bytes::BytesMut },
    /// The bytes are written, and more are read.
    Forward { bytes: bytes::BytesMut },
    /// More bytes are read.
    Read,
}

/// Whether a cycle has no answer to wait for.
pub fn nothing_to_forward(drain: &BackendResponseDrain) -> (r: bool)
    ensures
        r == (drain@.expected_ready == 0 && flush_answered(drain@)),
        r <==> drain@.expected_ready == 0 && (drain@.saw_error || drain@.completions
            >= drain@.expected_completions),
{
    !drain.expects_ready() && drain.flush_cycle_complete()
}

/// Decides how forwarding goes on after a read of the server's bytes.
pub fn forward_step(
    read: usize,
    backend_buffer: &mut bytes::BytesMut,
    drain: &mut BackendResponseDrain,
    max_backend_buffer_bytes: usize,
    closed_message: &str,
) -> (r: Result<ForwardStep, String>)
    requires
        old(drain)@.ready + buffer_bytes(*old(backend_buffer)).len() <= usize::MAX,
        old(drain)@.completions + buffer_bytes(*old(backend_buffer)).len() <= usize::MAX,
    ensures
        ({
            let bytes = buffer_bytes(*old(backend_buffer));
            let passed = passed_on(old(drain)@, whole_frames(bytes));
            let state = drained(old(drain)@, whole_frames(bytes));
            if read == 0 {
                &&& r matches Err(error)
                &&& error@ == closed_message@
                &&& buffer_bytes(*final(backend_buffer)) == bytes
                &&& final(drain)@ == old(drain)@
            } else if bytes.len() > max_backend_buffer_bytes {
                &&& r matches Err(error)
                &&& error@ == "backend response exceeded configured buffer limit"@
                &&& buffer_bytes(*final(backend_buffer)) == bytes
                &&& final(drain)@ == old(drain)@
            } else {
                &&& buffer_bytes(*final(backend_buffer)) == after_frames(bytes)
                &&& final(drain)@ == state
                &&& if let FrameScan::Invalid(length) = scan_frame(after_frames(bytes)) {
                    r matches Err(error) && error@ == invalid_length_text(length)
                } else {
                    match drain_event(state, last_ready(passed), passed.len()) {
                        ResponseDrainEvent::Frames { ready: Some(expected), response_started } => {
                            &&& r matches Ok(ForwardStep::Ready { bytes: out, status })
                            &&& buffer_bytes(out) == encoded_frames(passed)
                            &&& status == expected
                        },
                        ResponseDrainEvent::Frames { ready: None, response_started } => {
                            if state.expected_ready == 0 && flush_answered(state) {
                                r matches Ok(ForwardStep::Flushed { bytes: out }) && buffer_bytes(
                                    out,
                                ) == encoded_frames(passed)
                            } else {
                                r matches Ok(ForwardStep::Forward { bytes: out }) && buffer_bytes(
                                    out,
                                ) == encoded_frames(passed)
                            }
                        },
                        _ => r matches Ok(ForwardStep::Read),
                    }
                }
            }
        }),
        r matches Ok(ForwardStep::Ready { bytes, status }) ==> final(drain)@.ready
            >= final(drain)@.expected_ready,
        r matches Ok(ForwardStep::Flushed { bytes }) ==> final(drain)@.expected_ready == 0 && (
        final(drain)@.saw_error || final(drain)@.completions >= final(drain)@.expected_completions),
        r matches Ok(ForwardStep::Forward { bytes }) ==> final(drain)@.expected_ready > 0 || (
        !final(drain)@.saw_error && final(drain)@.completions < final(drain)@.expected_completions),
        read == 0 || buffer_bytes(*old(backend_buffer)).len() > max_backend_buffer_bytes
            ==> r is Err,
{
    if read == 0 {
        return Err(closed_message.to_owned());
    }
    match drain_backend_response_bytes(backend_buffer, drain, max_backend_buffer_bytes) {
        Ok(BackendBytesDrainEvent::Bytes { bytes, ready }) => {
            match ready {
                Some(status) => Ok(ForwardStep::Ready { bytes, status }),
                None => {
                    if nothing_to_forward(drain) {
                        Ok(ForwardStep::Flushed { bytes })
                    } else {
                        Ok(ForwardStep::Forward { bytes })
                    }
                },
            }
        },
        Ok(BackendBytesDrainEvent::BufferLimitExceeded) => Err(
            "backend response exceeded configured buffer limit".to_owned(),
        ),
        Ok(BackendBytesDrainEvent::NeedMoreBytes) => Ok(ForwardStep::Read),
        Err(error) => Err(error.message()),
    }
}

/// The status with which an answer ended, where one was waited for.
pub fn forwarded_status(outcome: Option<ReadyStatus>) -> (r: Result<ReadyStatus, String>)
    ensures
        match r {
            Ok(status) => outcome == Some(status),
            Err(error) => outcome is None && error@
                == "backend flushed response without ReadyForQuery"@,
        },
{
    match outcome {
        Some(status) => Ok(status),
        None => Err("backend flushed response without ReadyForQuery".to_owned()),
    }
}

} // verus!
