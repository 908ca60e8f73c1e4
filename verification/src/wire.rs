//! The framing of the PostgreSQL protocol: tagged messages, startup packets and the fixed
//! messages that the proxy writes itself.
use vstd::prelude::*;
use vstd::string::StrSliceExecFns;

use crate::buffer::{
    be_at, be_bytes4, buffer_bytes, buffer_slice, find_zero, freeze, frozen_bytes, new_buffer,
    put_bytes, put_i32, put_u8, read_be32, split_to, wrap32, wrap_i32, zero_at,
};
use crate::text::{decimal_int, i64_text, join2, text_from_utf8, utf8_text};

verus! {

// ---------------------------------------------------------------------------
// Message tags
// ---------------------------------------------------------------------------

/// The messages that a client sends.
#[derive(Clone, Copy, Debug, PartialEq, Eq, Structural)]
pub enum FrontendTag {
    Bind,
    Close,
    Describe,
    Execute,
    Flush,
    Parse,
    Query,
    Sync,
    Terminate,
}

impl FrontendTag {
    /// The byte that starts the message.
    pub open spec fn byte(self) -> u8 {
        match self {
            FrontendTag::Bind => 66,
            FrontendTag::Close => 67,
            FrontendTag::Describe => 68,
            FrontendTag::Execute => 69,
            FrontendTag::Flush => 72,
            FrontendTag::Parse => 80,
            FrontendTag::Query => 81,
            FrontendTag::Sync => 83,
            FrontendTag::Terminate => 88,
        }
    }

    /// The byte that starts the message.
    pub fn as_byte(self) -> (r: u8)
        ensures
            r == self.byte(),
    {
        match self {
            FrontendTag::Bind => 66,
            FrontendTag::Close => 67,
            FrontendTag::Describe => 68,
            FrontendTag::Execute => 69,
            FrontendTag::Flush => 72,
            FrontendTag::Parse => 80,
            FrontendTag::Query => 81,
            FrontendTag::Sync => 83,
            FrontendTag::Terminate => 88,
        }
    }
}

/// The messages that a server sends.
#[derive(Clone, Copy, Debug, PartialEq, Eq, Structural)]
pub enum BackendTag {
    Authentication,
    BackendKeyData,
    BindComplete,
    CloseComplete,
    CommandComplete,
    DataRow,
    EmptyQueryResponse,
    ErrorResponse,
    NoData,
    ParameterStatus,
    ParseComplete,
    PortalSuspended,
    ReadyForQuery,
    RowDescription,
}

impl BackendTag {
    /// The byte that starts the message.
    pub open spec fn byte(self) -> u8 {
        match self {
            BackendTag::Authentication => 82,
            BackendTag::BackendKeyData => 75,
            BackendTag::BindComplete => 50,
            BackendTag::CloseComplete => 51,
            BackendTag::CommandComplete => 67,
            BackendTag::DataRow => 68,
            BackendTag::EmptyQueryResponse => 73,
            BackendTag::ErrorResponse => 69,
            BackendTag::NoData => 110,
            BackendTag::ParameterStatus => 83,
            BackendTag::ParseComplete => 49,
            BackendTag::PortalSuspended => 115,
            BackendTag::ReadyForQuery => 90,
            BackendTag::RowDescription => 84,
        }
    }

    /// The byte that starts the message.
    pub fn as_byte(self) -> (r: u8)
        ensures
            r == self.byte(),
    {
        match self {
            BackendTag::Authentication => 82,
            BackendTag::BackendKeyData => 75,
            BackendTag::BindComplete => 50,
            BackendTag::CloseComplete => 51,
            BackendTag::CommandComplete => 67,
            BackendTag::DataRow => 68,
            BackendTag::EmptyQueryResponse => 73,
            BackendTag::ErrorResponse => 69,
            BackendTag::NoData => 110,
            BackendTag::ParameterStatus => 83,
            BackendTag::ParseComplete => 49,
            BackendTag::PortalSuspended => 115,
            BackendTag::ReadyForQuery => 90,
            BackendTag::RowDescription => 84,
        }
    }
}

// ---------------------------------------------------------------------------
// Frames
// ---------------------------------------------------------------------------

/// One message of a client: its tag, and what follows the length.
#[derive(Debug)]
pub struct FrontendFrame {
    pub tag: u8,
    pub payload: bytes::Bytes,
}

/// One message of a server: its tag, and what follows the length.
#[derive(Debug)]
pub struct BackendFrame {
    pub tag: u8,
    pub payload: bytes::Bytes,
}

/// A frame as plain values.
pub struct Frame {
    pub tag: u8,
    pub payload: Seq<u8>,
}

impl View for FrontendFrame {
    type V = Frame;

    open spec fn view(&self) -> Frame {
        Frame { tag: self.tag, payload: frozen_bytes(self.payload) }
    }
}

impl View for BackendFrame {
    type V = Frame;

    open spec fn view(&self) -> Frame {
        Frame { tag: self.tag, payload: frozen_bytes(self.payload) }
    }
}

impl Frame {
    /// The bytes of the frame: the tag, a length that counts itself, and the payload.
    pub open spec fn encoded(self) -> Seq<u8> {
        seq![self.tag] + be_bytes4(self.payload.len() as int + 4) + self.payload
    }
}

/// The bytes of some frames, one after the other.
pub open spec fn encoded_frames(frames: Seq<Frame>) -> Seq<u8>
    decreases frames.len(),
{
    if frames.len() == 0 {
        Seq::empty()
    } else {
        encoded_frames(frames.drop_last()) + frames.last().encoded()
    }
}

/// A frame's length field that is too small to count itself.
#[derive(Clone, Copy, Debug, PartialEq, Eq, Structural)]
pub struct FrameLengthError {
    pub length: i32,
}

/// What is said of a frame whose length field is too small.
pub open spec fn invalid_length_text(length: int) -> Seq<char> {
    "invalid frame length "@ + decimal_int(length)
}

impl FrameLengthError {
    /// What the error says.
    pub fn message(self) -> (r: String)
        ensures
            r@ == invalid_length_text(self.length as int),
    {
        join2("invalid frame length ", i64_text(self.length as i64).as_str())
    }
}

/// What the start of some bytes is.
pub enum FrameScan {
    /// Less than a whole frame.
    Incomplete,
    /// A frame whose length field is below four.
    Invalid(int),
    /// A whole frame of so many bytes.
    Complete(int),
}

/// What stands at the start of `bytes`.
pub open spec fn scan_frame(bytes: Seq<u8>) -> FrameScan {
    if bytes.len() < 5 {
        FrameScan::Incomplete
    } else if be_at(bytes, 1) < 4 {
        FrameScan::Invalid(be_at(bytes, 1))
    } else if bytes.len() < 1 + be_at(bytes, 1) {
        FrameScan::Incomplete
    } else {
        FrameScan::Complete(1 + be_at(bytes, 1))
    }
}

/// The frame in the first `size` bytes.
pub open spec fn frame_of(bytes: Seq<u8>, size: int) -> Frame {
    Frame { tag: bytes[0], payload: bytes.subrange(5, size) }
}

/// The whole frames at the start of `bytes`, in order.
pub open spec fn whole_frames(bytes: Seq<u8>) -> Seq<Frame>
    decreases bytes.len(),
{
    match scan_frame(bytes) {
        FrameScan::Complete(size) => if 0 < size <= bytes.len() {
            seq![frame_of(bytes, size)] + whole_frames(bytes.skip(size))
        } else {
            Seq::empty()
        },
        _ => Seq::empty(),
    }
}

/// What is left of `bytes` once its whole frames are taken.
pub open spec fn after_frames(bytes: Seq<u8>) -> Seq<u8>
    decreases bytes.len(),
{
    match scan_frame(bytes) {
        FrameScan::Complete(size) => if 0 < size <= bytes.len() {
            after_frames(bytes.skip(size))
        } else {
            bytes
        },
        _ => bytes,
    }
}

/// Whether reading frames from `bytes` ends at a length field below four.
pub open spec fn frames_invalid(bytes: Seq<u8>) -> bool {
    scan_frame(after_frames(bytes)) is Invalid
}

/// The bytes of a frame scan as a whole frame of that size, and the frame is read back.
pub proof fn law_frame_round_trip(frame: Frame, rest: Seq<u8>)
    requires
        frame.payload.len() + 4 <= i32::MAX,
    ensures
        scan_frame(frame.encoded() + rest) == FrameScan::Complete(frame.payload.len() as int + 5),
        frame_of(frame.encoded() + rest, frame.payload.len() as int + 5) == frame,
        (frame.encoded() + rest).skip(frame.payload.len() as int + 5) == rest,
{
    let length = (frame.payload.len() + 4) as i32;
    crate::buffer::law_be_round_trip(length);
    let all = frame.encoded() + rest;
    let field = be_bytes4(length as int);
    assert(all.len() >= 5);
    assert(all[1] == field[0] && all[2] == field[1] && all[3] == field[2] && all[4] == field[3]);
    assert(be_at(all, 1) == be_at(field, 0));
    assert(all.subrange(5, frame.payload.len() as int + 5) =~= frame.payload);
    assert(all.skip(frame.payload.len() as int + 5) =~= rest);
}

/// Looks at the start of some bytes: the size of the whole frame there, where there is one.
pub fn complete_frame_len(bytes: &[u8]) -> (r: Result<Option<usize>, FrameLengthError>)
    ensures
        match r {
            Ok(Some(size)) => scan_frame(bytes@) == FrameScan::Complete(size as int) && 5 <= size
                <= bytes@.len(),
            Ok(None) => scan_frame(bytes@) is Incomplete,
            Err(error) => scan_frame(bytes@) == FrameScan::Invalid(error.length as int),
        },
{
    if bytes.len() < 5 {
        return Ok(None);
    }
    let length: i32 = read_be32(bytes, 1);
    if length < 4 {
        return Err(FrameLengthError { length });
    }
    if bytes.len() - 1 < length as usize {
        Ok(None)
    } else {
        Ok(Some(1 + length as usize))
    }
}

fn take_frame(buffer: &mut bytes::BytesMut) -> (r: Result<
    Option<(u8, bytes::Bytes)>,
    FrameLengthError,
>)
    ensures
        match r {
            Ok(Some((tag, payload))) => {
                &&& scan_frame(buffer_bytes(*old(buffer))) matches FrameScan::Complete(size)
                &&& 0 < size <= buffer_bytes(*old(buffer)).len()
                &&& frame_of(buffer_bytes(*old(buffer)), size) == (Frame {
                    tag,
                    payload: frozen_bytes(payload),
                })
                &&& buffer_bytes(*final(buffer)) == buffer_bytes(*old(buffer)).skip(size)
            },
            Ok(None) => scan_frame(buffer_bytes(*old(buffer))) is Incomplete && buffer_bytes(
                *final(buffer),
            ) == buffer_bytes(*old(buffer)),
            Err(error) => scan_frame(buffer_bytes(*old(buffer))) == FrameScan::Invalid(
                error.length as int,
            ) && buffer_bytes(*final(buffer)) == buffer_bytes(*old(buffer)),
        },
{
    let ghost start = buffer_bytes(*buffer);
    let size = match complete_frame_len(buffer_slice(buffer)) {
        Ok(Some(size)) => size,
        Ok(None) => {
            return Ok(None);
        },
        Err(error) => {
            return Err(error);
        },
    };
    let tag: u8 = buffer_slice(buffer)[0];
    let mut whole = split_to(buffer, size);
    let _header = split_to(&mut whole, 5);
    assert(buffer_bytes(whole) =~= start.subrange(5, size as int));
    let payload = freeze(whole);
    Ok(Some((tag, payload)))
}

/// Takes one whole frame from the start of the buffer. The buffer is left as it was where it
/// holds none, or where the length field is below four.
pub fn parse_frontend_frame(buffer: &mut bytes::BytesMut) -> (r: Result<
    Option<FrontendFrame>,
    FrameLengthError,
>)
    ensures
        match r {
            Ok(Some(frame)) => {
                &&& scan_frame(buffer_bytes(*old(buffer))) matches FrameScan::Complete(size)
                &&& 0 < size <= buffer_bytes(*old(buffer)).len()
                &&& frame@ == frame_of(buffer_bytes(*old(buffer)), size)
                &&& buffer_bytes(*final(buffer)) == buffer_bytes(*old(buffer)).skip(size)
            },
            Ok(None) => scan_frame(buffer_bytes(*old(buffer))) is Incomplete && buffer_bytes(
                *final(buffer),
            ) == buffer_bytes(*old(buffer)),
            Err(error) => scan_frame(buffer_bytes(*old(buffer))) == FrameScan::Invalid(
                error.length as int,
            ) && buffer_bytes(*final(buffer)) == buffer_bytes(*old(buffer)),
        },
{
    match take_frame(buffer) {
        Ok(Some((tag, payload))) => Ok(Some(FrontendFrame { tag, payload })),
        Ok(None) => Ok(None),
        Err(error) => Err(error),
    }
}

/// Takes one whole frame from the start of the buffer. The buffer is left as it was where it
/// holds none, or where the length field is below four.
pub fn parse_backend_frame(buffer: &mut bytes::BytesMut) -> (r: Result<
    Option<BackendFrame>,
    FrameLengthError,
>)
    ensures
        match r {
            Ok(Some(frame)) => {
                &&& scan_frame(buffer_bytes(*old(buffer))) matches FrameScan::Complete(size)
                &&& 0 < size <= buffer_bytes(*old(buffer)).len()
                &&& frame@ == frame_of(buffer_bytes(*old(buffer)), size)
                &&& buffer_bytes(*final(buffer)) == buffer_bytes(*old(buffer)).skip(size)
            },
            Ok(None) => scan_frame(buffer_bytes(*old(buffer))) is Incomplete && buffer_bytes(
                *final(buffer),
            ) == buffer_bytes(*old(buffer)),
            Err(error) => scan_frame(buffer_bytes(*old(buffer))) == FrameScan::Invalid(
                error.length as int,
            ) && buffer_bytes(*final(buffer)) == buffer_bytes(*old(buffer)),
        },
{
    match take_frame(buffer) {
        Ok(Some((tag, payload))) => Ok(Some(BackendFrame { tag, payload })),
        Ok(None) => Ok(None),
        Err(error) => Err(error),
    }
}

// ---------------------------------------------------------------------------
// Transaction status
// ---------------------------------------------------------------------------

/// The transaction status that `ReadyForQuery` reports.
#[derive(Clone, Copy, Debug, PartialEq, Eq, Structural)]
pub enum ReadyStatus {
    Idle,
    Transaction,
    FailedTransaction,
}

/// The status byte that a server's frame reports, where it is a `ReadyForQuery` with one of the
/// three known status bytes.
pub open spec fn ready_status_of(frame: Frame) -> Option<ReadyStatus> {
    if frame.tag == BackendTag::ReadyForQuery.byte() && frame.payload.len() == 1 {
        if frame.payload[0] == 73 {
            Some(ReadyStatus::Idle)
        } else if frame.payload[0] == 84 {
            Some(ReadyStatus::Transaction)
        } else if frame.payload[0] == 69 {
            Some(ReadyStatus::FailedTransaction)
        } else {
            None
        }
    } else {
        None
    }
}

impl BackendFrame {
    /// The transaction status that the frame reports, where it reports one.
    pub fn ready_status(&self) -> (r: Option<ReadyStatus>)
        ensures
            r == ready_status_of(self@),
    {
        let payload = crate::buffer::frozen_slice(&self.payload);
        if self.tag == BackendTag::ReadyForQuery.as_byte() && payload.len() == 1 {
            if payload[0] == 73 {
                Some(ReadyStatus::Idle)
            } else if payload[0] == 84 {
                Some(ReadyStatus::Transaction)
            } else if payload[0] == 69 {
                Some(ReadyStatus::FailedTransaction)
            } else {
                None
            }
        } else {
            None
        }
    }
}

// ---------------------------------------------------------------------------
// Messages that the proxy writes
// ---------------------------------------------------------------------------

/// A tagged message: the tag, a length that counts itself, and the payload.
pub fn tagged_message(tag: u8, payload: &[u8]) -> (r: bytes::BytesMut)
    ensures
        buffer_bytes(r) == (Frame { tag, payload: payload@ }).encoded(),
{
    let mut message = new_buffer();
    put_u8(&mut message, tag);
    put_i32(&mut message, wrap_i32(payload.len() as u128 + 4));
    put_bytes(&mut message, payload);
    proof {
        lemma_wrapped_field(payload@.len() as int + 4);
        assert(buffer_bytes(message) =~= (Frame { tag, payload: payload@ }).encoded());
    }
    message
}

/// A number and its signed low 32 bits have the same four bytes.
pub proof fn lemma_wrapped_field(value: int)
    ensures
        be_bytes4(wrap32(value)) == be_bytes4(value),
{
}

// ---------------------------------------------------------------------------
// Frames and their bytes
// ---------------------------------------------------------------------------

/// A whole frame at the start of some bytes is written back as the same bytes.
pub proof fn law_frame_bytes_round_trip(bytes: Seq<u8>, size: int)
    requires
        scan_frame(bytes) == FrameScan::Complete(size),
    ensures
        5 <= size <= bytes.len(),
        frame_of(bytes, size).encoded() == bytes.take(size),
{
    let length = be_at(bytes, 1);
    assert(-0x8000_0000 <= length < 0x8000_0000);
    crate::buffer::law_be_bytes_round_trip(bytes[1], bytes[2], bytes[3], bytes[4]);
    let frame = frame_of(bytes, size);
    assert(frame.payload.len() + 4 == length);
    assert(frame.encoded() =~= bytes.take(size));
}

proof fn lemma_encoded_prepend(frame: Frame, frames: Seq<Frame>)
    ensures
        encoded_frames(seq![frame] + frames) == frame.encoded() + encoded_frames(frames),
    decreases frames.len(),
{
    let all = seq![frame] + frames;
    if frames.len() == 0 {
        assert(all =~= seq![frame]);
        assert(all.drop_last() =~= Seq::empty());
        assert(encoded_frames(all.drop_last()) =~= Seq::empty());
        assert(encoded_frames(all) =~= frame.encoded() + encoded_frames(frames));
    } else {
        assert(all.drop_last() =~= seq![frame] + frames.drop_last());
        lemma_encoded_prepend(frame, frames.drop_last());
        assert(encoded_frames(all) =~= frame.encoded() + encoded_frames(frames));
    }
}

/// Reading frames loses nothing: the whole frames and what is left after them are the bytes that
/// were read.
pub proof fn law_frames_keep_bytes(bytes: Seq<u8>)
    ensures
        encoded_frames(whole_frames(bytes)) + after_frames(bytes) == bytes,
    decreases bytes.len(),
{
    match scan_frame(bytes) {
        FrameScan::Complete(size) => {
            law_frame_bytes_round_trip(bytes, size);
            let rest = bytes.skip(size);
            law_frames_keep_bytes(rest);
            lemma_encoded_prepend(frame_of(bytes, size), whole_frames(rest));
            assert(encoded_frames(whole_frames(bytes)) + after_frames(bytes) =~= bytes.take(size)
                + (encoded_frames(whole_frames(rest)) + after_frames(rest)));
            assert(bytes.take(size) + rest =~= bytes);
        },
        _ => {
            assert(encoded_frames(whole_frames(bytes)) + after_frames(bytes) =~= bytes);
        },
    }
}

/// Each frame takes at least five bytes.
pub proof fn lemma_frame_count(bytes: Seq<u8>)
    ensures
        5 * whole_frames(bytes).len() + after_frames(bytes).len() <= bytes.len(),
    decreases bytes.len(),
{
    match scan_frame(bytes) {
        FrameScan::Complete(size) => {
            lemma_frame_count(bytes.skip(size));
        },
        _ => {},
    }
}

// ---------------------------------------------------------------------------
// Cycles of client messages
// ---------------------------------------------------------------------------

/// How far a cycle of client messages reaches.
pub enum CycleScan {
    /// The cycle has not ended yet.
    NeedMore,
    /// A frame in the cycle has a length field below four.
    Invalid(int),
    /// The cycle takes so many bytes.
    Ends(int),
}

impl CycleScan {
    /// The same, with some bytes before it.
    pub open spec fn after(self, size: int) -> CycleScan {
        match self {
            CycleScan::Ends(end) => CycleScan::Ends(size + end),
            other => other,
        }
    }
}

/// Whether a message ends a cycle of the extended protocol: `Sync` does, and `Flush` where it is
/// counted as an end.
pub open spec fn ends_cycle(tag: u8, flush_ends: bool) -> bool {
    tag == FrontendTag::Sync.byte() || (flush_ends && tag == FrontendTag::Flush.byte())
}

/// How far the extended-protocol cycle at the start of `bytes` reaches: up to and with the first
/// message that ends it.
pub open spec fn extended_end(bytes: Seq<u8>, flush_ends: bool) -> CycleScan
    decreases bytes.len(),
{
    match scan_frame(bytes) {
        FrameScan::Incomplete => CycleScan::NeedMore,
        FrameScan::Invalid(length) => CycleScan::Invalid(length),
        FrameScan::Complete(size) => if ends_cycle(bytes[0], flush_ends) || size <= 0 || size
            > bytes.len() {
            CycleScan::Ends(size)
        } else {
            extended_end(bytes.skip(size), flush_ends).after(size)
        },
    }
}

/// How far the run of simple queries at the start of `bytes` reaches: over every whole query that
/// has come, up to the first other message.
pub open spec fn query_end(bytes: Seq<u8>) -> CycleScan
    decreases bytes.len(),
{
    match scan_frame(bytes) {
        FrameScan::Incomplete => CycleScan::Ends(0),
        FrameScan::Invalid(length) => CycleScan::Invalid(length),
        FrameScan::Complete(size) => if bytes[0] != FrontendTag::Query.byte() || size <= 0 || size
            > bytes.len() {
            CycleScan::Ends(0)
        } else {
            query_end(bytes.skip(size)).after(size)
        },
    }
}

/// How far the cycle at the start of `bytes` reaches: a `Terminate` by itself, a run of simple
/// queries, or an extended-protocol cycle.
pub open spec fn cycle_end(bytes: Seq<u8>, flush_ends: bool) -> CycleScan {
    match scan_frame(bytes) {
        FrameScan::Incomplete => CycleScan::NeedMore,
        FrameScan::Invalid(length) => CycleScan::Invalid(length),
        FrameScan::Complete(size) => if bytes[0] == FrontendTag::Terminate.byte() {
            CycleScan::Ends(size)
        } else if bytes[0] == FrontendTag::Query.byte() {
            query_end(bytes)
        } else {
            extended_end(bytes, flush_ends)
        },
    }
}

/// A cycle of whole frames: nothing is left over, and nothing in it is invalid.
pub open spec fn is_whole(bytes: Seq<u8>) -> bool {
    after_frames(bytes).len() == 0
}

proof fn lemma_scan_of_prefix(bytes: Seq<u8>, size: int, upto: int)
    requires
        scan_frame(bytes) == FrameScan::Complete(size),
        size <= upto <= bytes.len(),
    ensures
        scan_frame(bytes.take(upto)) == FrameScan::Complete(size),
        frame_of(bytes.take(upto), size) == frame_of(bytes, size),
        bytes.take(upto).skip(size) == bytes.skip(size).take(upto - size),
{
    let head = bytes.take(upto);
    assert(be_at(head, 1) == be_at(bytes, 1));
    assert(head.subrange(5, size) =~= bytes.subrange(5, size));
    assert(head.skip(size) =~= bytes.skip(size).take(upto - size));
}

proof fn lemma_whole_prefix(bytes: Seq<u8>, size: int, upto: int)
    requires
        scan_frame(bytes) == FrameScan::Complete(size),
        5 <= size <= upto <= bytes.len(),
        is_whole(bytes.skip(size).take(upto - size)),
    ensures
        is_whole(bytes.take(upto)),
        whole_frames(bytes.take(upto)) == seq![frame_of(bytes, size)] + whole_frames(
            bytes.skip(size).take(upto - size),
        ),
{
    lemma_scan_of_prefix(bytes, size, upto);
}

/// An extended-protocol cycle consists of whole frames: the last of them ends it, and no other
/// does.
pub proof fn law_extended_cycle_shape(bytes: Seq<u8>, flush_ends: bool)
    requires
        extended_end(bytes, flush_ends) is Ends,
    ensures
        ({
            let end = extended_end(bytes, flush_ends)->Ends_0;
            let frames = whole_frames(bytes.take(end));
            &&& 5 <= end <= bytes.len()
            &&& is_whole(bytes.take(end))
            &&& frames.len() >= 1
            &&& ends_cycle(frames.last().tag, flush_ends)
            &&& forall|i: int|
                0 <= i < frames.len() - 1 ==> !ends_cycle((#[trigger] frames[i]).tag, flush_ends)
        }),
    decreases bytes.len(),
{
    let end = extended_end(bytes, flush_ends)->Ends_0;
    match scan_frame(bytes) {
        FrameScan::Complete(size) => {
            let rest = bytes.skip(size);
            if ends_cycle(bytes[0], flush_ends) {
                assert(rest.take(0) =~= Seq::empty());
                lemma_whole_prefix(bytes, size, size);
                assert(whole_frames(rest.take(0)) =~= Seq::empty());
                assert(whole_frames(bytes.take(size)) =~= seq![frame_of(bytes, size)]);
            } else {
                law_extended_cycle_shape(rest, flush_ends);
                let tail = extended_end(rest, flush_ends)->Ends_0;
                lemma_whole_prefix(bytes, size, end);
                let frames = whole_frames(bytes.take(end));
                let later = whole_frames(rest.take(tail));
                assert(frames.last() == later.last());
                assert forall|i: int| 0 <= i < frames.len() - 1 implies !ends_cycle(
                    (#[trigger] frames[i]).tag,
                    flush_ends,
                ) by {
                    if i > 0 {
                        assert(frames[i] == later[i - 1]);
                    }
                }
            }
        },
        _ => {},
    }
}

/// A run of simple queries consists of whole frames, each of them a query.
pub proof fn law_query_run_shape(bytes: Seq<u8>)
    requires
        query_end(bytes) is Ends,
    ensures
        ({
            let end = query_end(bytes)->Ends_0;
            let frames = whole_frames(bytes.take(end));
            &&& 0 <= end <= bytes.len()
            &&& is_whole(bytes.take(end))
            &&& forall|i: int|
                0 <= i < frames.len() ==> (#[trigger] frames[i]).tag == FrontendTag::Query.byte()
        }),
    decreases bytes.len(),
{
    let end = query_end(bytes)->Ends_0;
    match scan_frame(bytes) {
        FrameScan::Complete(size) => {
            if bytes[0] == FrontendTag::Query.byte() {
                let rest = bytes.skip(size);
                law_query_run_shape(rest);
                let tail = query_end(rest)->Ends_0;
                lemma_whole_prefix(bytes, size, end);
                let frames = whole_frames(bytes.take(end));
                let later = whole_frames(rest.take(tail));
                assert forall|i: int| 0 <= i < frames.len() implies (#[trigger] frames[i]).tag
                    == FrontendTag::Query.byte() by {
                    if i > 0 {
                        assert(frames[i] == later[i - 1]);
                    }
                }
            } else {
                assert(bytes.take(0) =~= Seq::empty());
            }
        },
        _ => {
            assert(bytes.take(0) =~= Seq::empty());
        },
    }
}

/// A cycle is made of whole frames, and of at least one.
pub proof fn law_cycle_is_whole(bytes: Seq<u8>, flush_ends: bool)
    requires
        cycle_end(bytes, flush_ends) is Ends,
    ensures
        ({
            let end = cycle_end(bytes, flush_ends)->Ends_0;
            &&& 5 <= end <= bytes.len()
            &&& is_whole(bytes.take(end))
            &&& whole_frames(bytes.take(end)).len() >= 1
        }),
{
    match scan_frame(bytes) {
        FrameScan::Complete(size) => {
            if bytes[0] == FrontendTag::Terminate.byte() {
                let rest = bytes.skip(size);
                assert(rest.take(0) =~= Seq::empty());
                lemma_whole_prefix(bytes, size, size);
            } else if bytes[0] == FrontendTag::Query.byte() {
                law_query_run_shape(bytes);
                let rest = bytes.skip(size);
                law_query_run_shape(rest);
                lemma_whole_prefix(bytes, size, query_end(bytes)->Ends_0);
            } else {
                law_extended_cycle_shape(bytes, flush_ends);
            }
        },
        _ => {},
    }
}

/// How far the cycle at the start of some bytes reaches, where it has ended.
pub fn frontend_cycle_len(bytes: &[u8], flush_ends: bool) -> (r: Result<
    Option<usize>,
    FrameLengthError,
>)
    ensures
        match r {
            Ok(Some(end)) => cycle_end(bytes@, flush_ends) == CycleScan::Ends(end as int) && 5
                <= end <= bytes@.len(),
            Ok(None) => cycle_end(bytes@, flush_ends) is NeedMore,
            Err(error) => cycle_end(bytes@, flush_ends) == CycleScan::Invalid(error.length as int),
        },
{
    let first = match complete_frame_len(bytes) {
        Ok(Some(size)) => size,
        Ok(None) => {
            return Ok(None);
        },
        Err(error) => {
            return Err(error);
        },
    };
    let tag: u8 = bytes[0];
    if tag == FrontendTag::Terminate.as_byte() {
        return Ok(Some(first));
    }
    let mut end: usize = first;
    if tag == FrontendTag::Query.as_byte() {
        let mut done = false;
        while !done
            invariant
                5 <= end <= bytes@.len(),
                cycle_end(bytes@, flush_ends) == (if done {
                    CycleScan::Ends(end as int)
                } else {
                    query_end(bytes@.skip(end as int)).after(end as int)
                }),
            decreases (if done { 0int } else { 1 + bytes@.len() - end }),
        {
            let rest = vstd::slice::slice_subrange(bytes, end, bytes.len());
            assert(rest@ =~= bytes@.skip(end as int));
            match complete_frame_len(rest) {
                Ok(Some(size)) => {
                    if rest[0] != FrontendTag::Query.as_byte() {
                        done = true;
                    } else {
                        assert(rest@.skip(size as int) =~= bytes@.skip(end + size));
                        end += size;
                    }
                },
                Ok(None) => {
                    done = true;
                },
                Err(error) => {
                    return Err(error);
                },
            }
        }
        Ok(Some(end))
    } else {
        let mut last: u8 = tag;
        while !(last == FrontendTag::Sync.as_byte() || (flush_ends && last
            == FrontendTag::Flush.as_byte()))
            invariant
                5 <= end <= bytes@.len(),
                cycle_end(bytes@, flush_ends) == (if ends_cycle(last, flush_ends) {
                    CycleScan::Ends(end as int)
                } else {
                    extended_end(bytes@.skip(end as int), flush_ends).after(end as int)
                }),
            decreases bytes@.len() - end,
        {
            let rest = vstd::slice::slice_subrange(bytes, end, bytes.len());
            assert(rest@ =~= bytes@.skip(end as int));
            match complete_frame_len(rest) {
                Ok(Some(size)) => {
                    last = rest[0];
                    assert(rest@.skip(size as int) =~= bytes@.skip(end + size));
                    end += size;
                },
                Ok(None) => {
                    return Ok(None);
                },
                Err(error) => {
                    return Err(error);
                },
            }
        }
        Ok(Some(end))
    }
}

/// Takes every whole frame from the start of the buffer, up to a length field below four.
pub fn parse_frontend_frames(buffer: &mut bytes::BytesMut) -> (r: Result<
    Vec<FrontendFrame>,
    FrameLengthError,
>)
    ensures
        buffer_bytes(*final(buffer)) == after_frames(buffer_bytes(*old(buffer))),
        match r {
            Ok(frames) => !frames_invalid(buffer_bytes(*old(buffer))) && frame_views(frames@)
                == whole_frames(buffer_bytes(*old(buffer))),
            Err(error) => scan_frame(after_frames(buffer_bytes(*old(buffer)))) == FrameScan::Invalid(
                error.length as int,
            ),
        },
{
    let ghost start = buffer_bytes(*buffer);
    let mut frames: Vec<FrontendFrame> = Vec::new();
    assert(frame_views(frames@) + whole_frames(start) =~= whole_frames(start));
    loop
        invariant
            frame_views(frames@) + whole_frames(buffer_bytes(*buffer)) == whole_frames(start),
            after_frames(buffer_bytes(*buffer)) == after_frames(start),
            start == buffer_bytes(*old(buffer)),
        decreases buffer_bytes(*buffer).len(),
    {
        let ghost before = buffer_bytes(*buffer);
        match parse_frontend_frame(buffer) {
            Ok(Some(frame)) => {
                let ghost held = frames@;
                frames.push(frame);
                proof {
                    assert(frame_views(frames@) =~= frame_views(held).push(frame@));
                    assert(frame_views(frames@) + whole_frames(buffer_bytes(*buffer))
                        =~= frame_views(held) + whole_frames(before));
                }
            },
            Ok(None) => {
                assert(frame_views(frames@) + Seq::<Frame>::empty() =~= frame_views(frames@));
                return Ok(frames);
            },
            Err(error) => {
                return Err(error);
            },
        }
    }
}

/// The frames of a list as plain values.
pub open spec fn frame_views(frames: Seq<FrontendFrame>) -> Seq<Frame> {
    Seq::new(frames.len(), |i: int| frames[i]@)
}

// ---------------------------------------------------------------------------
// Startup packets
// ---------------------------------------------------------------------------

/// The first packet of a connection.
#[derive(Debug)]
pub enum StartupPacket {
    Startup { parameters: Vec<(String, String)> },
    CancelRequest { process_id: i32, secret_key: i32 },
    SslRequest,
    GssEncRequest,
}

/// The code of a request to cancel a statement.
pub const CANCEL_REQUEST_CODE: i32 = 80_877_102;

/// The code of a request for TLS.
pub const SSL_REQUEST_CODE: i32 = 80_877_103;

/// The code of a request for GSS encryption.
pub const GSS_REQUEST_CODE: i32 = 80_877_104;

/// Why a first packet is refused.
#[derive(Clone, Copy, Debug, PartialEq, Eq, Structural)]
pub enum StartupError {
    /// The length field does not fit the packet.
    InvalidLength,
    /// The protocol is none that the proxy speaks.
    UnsupportedProtocol,
    /// The parameters are no list of pairs of texts.
    InvalidParameters,
}

impl StartupError {
    /// What the error says.
    pub open spec fn text(self) -> Seq<char> {
        match self {
            StartupError::InvalidLength => "invalid startup packet length"@,
            StartupError::UnsupportedProtocol => "unsupported startup protocol"@,
            StartupError::InvalidParameters => "invalid startup parameters"@,
        }
    }

    /// What the error says.
    pub fn message(self) -> (r: &'static str)
        ensures
            r@ == self.text(),
    {
        match self {
            StartupError::InvalidLength => "invalid startup packet length",
            StartupError::UnsupportedProtocol => "unsupported startup protocol",
            StartupError::InvalidParameters => "invalid startup parameters",
        }
    }
}

/// A first packet as plain values.
pub enum StartupFacts {
    Startup(Seq<(Seq<char>, Seq<char>)>),
    Cancel(int, int),
    Ssl,
    Gss,
}

/// What each pair of strings says.
pub open spec fn pair_texts(pairs: Seq<(String, String)>) -> Seq<(Seq<char>, Seq<char>)> {
    Seq::new(pairs.len(), |i: int| (pairs[i].0@, pairs[i].1@))
}

impl View for StartupPacket {
    type V = StartupFacts;

    open spec fn view(&self) -> StartupFacts {
        match self {
            StartupPacket::Startup { parameters } => StartupFacts::Startup(pair_texts(parameters@)),
            StartupPacket::CancelRequest { process_id, secret_key } => StartupFacts::Cancel(
                *process_id as int,
                *secret_key as int,
            ),
            StartupPacket::SslRequest => StartupFacts::Ssl,
            StartupPacket::GssEncRequest => StartupFacts::Gss,
        }
    }
}

/// The pairs of zero-terminated texts at the start of `bytes`, up to an empty name.
pub open spec fn read_parameters(bytes: Seq<u8>) -> Option<Seq<(Seq<char>, Seq<char>)>>
    decreases bytes.len(),
{
    let name_end = zero_at(bytes);
    if name_end < 0 || name_end >= bytes.len() {
        None
    } else if name_end == 0 {
        Some(Seq::empty())
    } else {
        let rest = bytes.skip(name_end + 1);
        let value_end = zero_at(rest);
        if value_end < 0 || value_end >= rest.len() {
            None
        } else {
            match (
                utf8_text(bytes.take(name_end)),
                utf8_text(rest.take(value_end)),
                read_parameters(rest.skip(value_end + 1)),
            ) {
                (Some(name), Some(value), Some(later)) => Some(seq![(name, value)] + later),
                _ => None,
            }
        }
    }
}

/// What a first packet says.
pub open spec fn read_startup(packet: Seq<u8>) -> Result<StartupFacts, StartupError> {
    if packet.len() < 8 || be_at(packet, 0) != packet.len() {
        Err(StartupError::InvalidLength)
    } else {
        let code = be_at(packet, 4);
        if code == CANCEL_REQUEST_CODE {
            if packet.len() == 16 {
                Ok(StartupFacts::Cancel(be_at(packet, 8), be_at(packet, 12)))
            } else {
                Err(StartupError::InvalidLength)
            }
        } else if code == SSL_REQUEST_CODE {
            if packet.len() == 8 {
                Ok(StartupFacts::Ssl)
            } else {
                Err(StartupError::InvalidLength)
            }
        } else if code == GSS_REQUEST_CODE {
            if packet.len() == 8 {
                Ok(StartupFacts::Gss)
            } else {
                Err(StartupError::InvalidLength)
            }
        } else if code / 0x1_0000 != 3 {
            Err(StartupError::UnsupportedProtocol)
        } else {
            match read_parameters(packet.skip(8)) {
                Some(parameters) => Ok(StartupFacts::Startup(parameters)),
                None => Err(StartupError::InvalidParameters),
            }
        }
    }
}

fn parse_parameters(bytes: &[u8]) -> (r: Option<Vec<(String, String)>>)
    ensures
        match r {
            Some(pairs) => read_parameters(bytes@) == Some(pair_texts(pairs@)),
            None => read_parameters(bytes@) is None,
        },
{
    let mut pairs: Vec<(String, String)> = Vec::new();
    let mut at: usize = 0;
    assert(bytes@.skip(0) =~= bytes@);
    assert(read_parameters(bytes@) matches Some(all) ==> pair_texts(pairs@) + all =~= all);
    loop
        invariant
            at <= bytes@.len(),
            match read_parameters(bytes@.skip(at as int)) {
                Some(later) => read_parameters(bytes@) == Some(pair_texts(pairs@) + later),
                None => read_parameters(bytes@) is None,
            },
        decreases bytes@.len() - at,
    {
        let here = vstd::slice::slice_subrange(bytes, at, bytes.len());
        assert(here@ =~= bytes@.skip(at as int));
        let name_end = find_zero(here);
        if name_end >= here.len() {
            return None;
        }
        if name_end == 0 {
            assert(pair_texts(pairs@) + Seq::<(Seq<char>, Seq<char>)>::empty() =~= pair_texts(
                pairs@,
            ));
            return Some(pairs);
        }
        let rest = vstd::slice::slice_subrange(here, name_end + 1, here.len());
        assert(rest@ =~= here@.skip(name_end + 1));
        let value_end = find_zero(rest);
        if value_end >= rest.len() {
            return None;
        }
        let name_bytes = vstd::slice::slice_subrange(here, 0, name_end);
        let value_bytes = vstd::slice::slice_subrange(rest, 0, value_end);
        assert(name_bytes@ =~= here@.take(name_end as int));
        assert(value_bytes@ =~= rest@.take(value_end as int));
        assert(rest@.skip(value_end + 1) =~= bytes@.skip(at + name_end + 1 + value_end + 1));
        let (name, value) = match (text_from_utf8(name_bytes), text_from_utf8(value_bytes)) {
            (Some(name), Some(value)) => (name, value),
            _ => {
                return None;
            },
        };
        let ghost held = pairs@;
        let ghost pair = (name@, value@);
        pairs.push((name, value));
        at = at + name_end + 1 + value_end + 1;
        proof {
            assert(pair_texts(pairs@) =~= pair_texts(held).push(pair));
            if let Some(later) = read_parameters(bytes@.skip(at as int)) {
                assert(pair_texts(held) + (seq![pair] + later) =~= pair_texts(pairs@) + later);
            }
        }
    }
}

/// Reads a first packet.
pub fn parse_startup_packet(packet: &[u8]) -> (r: Result<StartupPacket, StartupError>)
    ensures
        match (r, read_startup(packet@)) {
            (Ok(parsed), Ok(expected)) => parsed@ == expected,
            (Err(error), Err(expected)) => error == expected,
            _ => false,
        },
{
    if packet.len() < 8 {
        return Err(StartupError::InvalidLength);
    }
    let length: i32 = read_be32(packet, 0);
    if length < 0 || length as usize != packet.len() {
        return Err(StartupError::InvalidLength);
    }
    let code: i32 = read_be32(packet, 4);
    if code == CANCEL_REQUEST_CODE {
        if packet.len() == 16 {
            Ok(
                StartupPacket::CancelRequest {
                    process_id: read_be32(packet, 8),
                    secret_key: read_be32(packet, 12),
                },
            )
        } else {
            Err(StartupError::InvalidLength)
        }
    } else if code == SSL_REQUEST_CODE {
        if packet.len() == 8 {
            Ok(StartupPacket::SslRequest)
        } else {
            Err(StartupError::InvalidLength)
        }
    } else if code == GSS_REQUEST_CODE {
        if packet.len() == 8 {
            Ok(StartupPacket::GssEncRequest)
        } else {
            Err(StartupError::InvalidLength)
        }
    } else if code < 0x3_0000 || code >= 0x4_0000 {
        Err(StartupError::UnsupportedProtocol)
    } else {
        let body = vstd::slice::slice_subrange(packet, 8, packet.len());
        assert(body@ =~= packet@.skip(8));
        match parse_parameters(body) {
            Some(parameters) => Ok(StartupPacket::Startup { parameters }),
            None => Err(StartupError::InvalidParameters),
        }
    }
}

proof fn lemma_query_run_goes_on(bytes: Seq<u8>)
    requires
        query_end(bytes) is Ends,
    ensures
        ({
            let end = query_end(bytes)->Ends_0;
            &&& 0 <= end <= bytes.len()
            &&& !(scan_frame(bytes.skip(end)) is Invalid)
            &&& scan_frame(bytes.skip(end)) is Complete ==> bytes[end] != 81u8
        }),
    decreases bytes.len(),
{
    law_query_run_shape(bytes);
    match scan_frame(bytes) {
        FrameScan::Complete(size) => {
            if bytes[0] == FrontendTag::Query.byte() {
                let rest = bytes.skip(size);
                lemma_query_run_goes_on(rest);
                let tail = query_end(rest)->Ends_0;
                assert(rest.skip(tail) =~= bytes.skip(size + tail));
                if tail < rest.len() {
                    assert(rest[tail] == bytes[size + tail]);
                }
            } else {
                assert(bytes.skip(0) =~= bytes);
            }
        },
        _ => {
            assert(bytes.skip(0) =~= bytes);
        },
    }
}

/// Where a client's cycle ends, by the bytes that its messages begin with: a `Terminate` (`X`) is a
/// cycle of its own, simple queries (`Q`) make a run that goes on as long as whole queries follow,
/// and anything else goes up to the first `Sync` (`S`), or the first `Flush` (`H`) where that ends
/// a cycle too.
pub proof fn law_cycle_ends_by_tag(bytes: Seq<u8>, flush_ends: bool)
    requires
        cycle_end(bytes, flush_ends) is Ends,
    ensures
        ({
            let end = cycle_end(bytes, flush_ends)->Ends_0;
            let frames = whole_frames(bytes.take(end));
            &&& bytes[0] == 88u8 ==> scan_frame(bytes) == FrameScan::Complete(end)
            &&& bytes[0] == 81u8 ==> {
                &&& forall|i: int| 0 <= i < frames.len() ==> (#[trigger] frames[i]).tag == 81u8
                &&& scan_frame(bytes.skip(end)) is Complete ==> bytes[end] != 81u8
            }
            &&& bytes[0] != 88u8 && bytes[0] != 81u8 ==> {
                &&& frames.last().tag == 83u8 || (flush_ends && frames.last().tag == 72u8)
                &&& forall|i: int|
                    0 <= i < frames.len() - 1 ==> (#[trigger] frames[i]).tag != 83u8 && !(flush_ends
                        && frames[i].tag == 72u8)
            }
        }),
{
    match scan_frame(bytes) {
        FrameScan::Complete(size) => {
            if bytes[0] == 81u8 {
                law_query_run_shape(bytes);
                lemma_query_run_goes_on(bytes);
            } else if bytes[0] != 88u8 {
                law_extended_cycle_shape(bytes, flush_ends);
                let frames = whole_frames(bytes.take(cycle_end(bytes, flush_ends)->Ends_0));
                assert forall|i: int| 0 <= i < frames.len() - 1 implies (#[trigger] frames[i]).tag
                    != 83u8 && !(flush_ends && frames[i].tag == 72u8) by {
                    assert(!ends_cycle(frames[i].tag, flush_ends));
                }
            }
        },
        _ => {},
    }
}

/// A cycle waits for more bytes only while its first message, or an extended cycle's end, has not
/// come: a run of queries is taken as far as it has come.
pub proof fn law_whole_query_is_taken(bytes: Seq<u8>, flush_ends: bool)
    requires
        scan_frame(bytes) is Complete,
        bytes[0] == 81u8 || bytes[0] == 88u8 || bytes[0] == 83u8 || (flush_ends && bytes[0]
            == 72u8),
    ensures
        !(cycle_end(bytes, flush_ends) is NeedMore),
        bytes[0] == 83u8 || bytes[0] == 88u8 || (flush_ends && bytes[0] == 72u8) ==> cycle_end(
            bytes,
            flush_ends,
        ) == CycleScan::Ends(scan_frame(bytes)->Complete_0),
{
    lemma_query_never_waits(bytes);
}

proof fn lemma_query_never_waits(bytes: Seq<u8>)
    ensures
        !(query_end(bytes) is NeedMore),
    decreases bytes.len(),
{
    match scan_frame(bytes) {
        FrameScan::Complete(size) => {
            if bytes[0] == FrontendTag::Query.byte() && 0 < size <= bytes.len() {
                lemma_query_never_waits(bytes.skip(size));
            }
        },
        _ => {},
    }
}

/// What a new client's first packet is, by the number behind its length: 80877102 cancels a
/// request, 80877103 asks for TLS and 80877104 for GSS encryption, each in a packet of its own size;
/// a version whose major number is three starts a session with its parameters, and any other is
/// not spoken.
pub proof fn law_startup_by_code(packet: Seq<u8>)
    ensures
        packet.len() < 8 || be_at(packet, 0) != packet.len() ==> read_startup(packet) == Err::<
            StartupFacts,
            StartupError,
        >(StartupError::InvalidLength),
        packet.len() >= 8 && be_at(packet, 0) == packet.len() ==> {
            let code = be_at(packet, 4);
            let read = read_startup(packet);
            &&& code == 80877102 && packet.len() == 16 ==> read == Ok::<StartupFacts, StartupError>(
                StartupFacts::Cancel(be_at(packet, 8), be_at(packet, 12)),
            )
            &&& code == 80877103 && packet.len() == 8 ==> read == Ok::<StartupFacts, StartupError>(
                StartupFacts::Ssl,
            )
            &&& code == 80877104 && packet.len() == 8 ==> read == Ok::<StartupFacts, StartupError>(
                StartupFacts::Gss,
            )
            &&& code == 80877102 && packet.len() != 16 || (code == 80877103 || code == 80877104)
                && packet.len() != 8 ==> read == Err::<StartupFacts, StartupError>(
                StartupError::InvalidLength,
            )
            &&& 196608 <= code < 262144 ==> match read_parameters(packet.skip(8)) {
                Some(parameters) => read == Ok::<StartupFacts, StartupError>(
                    StartupFacts::Startup(parameters),
                ),
                None => read == Err::<StartupFacts, StartupError>(StartupError::InvalidParameters),
            }
            &&& code != 80877102 && code != 80877103 && code != 80877104 && !(196608 <= code
                < 262144) ==> read == Err::<StartupFacts, StartupError>(
                StartupError::UnsupportedProtocol,
            )
        },
{
}

/// What status a server reports: `I` idle, `T` in a transaction, `E` in a failed one, in a message
/// that begins with `Z` and holds nothing else.
pub proof fn law_status_by_byte(frame: Frame)
    ensures
        ready_status_of(frame) == Some(ReadyStatus::Idle) <==> frame.tag == 90u8 && frame.payload
            == seq![73u8],
        ready_status_of(frame) == Some(ReadyStatus::Transaction) <==> frame.tag == 90u8
            && frame.payload == seq![84u8],
        ready_status_of(frame) == Some(ReadyStatus::FailedTransaction) <==> frame.tag == 90u8
            && frame.payload == seq![69u8],
{
    if frame.payload.len() == 1 {
        assert(frame.payload =~= seq![frame.payload[0]]);
        assert(seq![73u8][0] == 73u8 && seq![84u8][0] == 84u8 && seq![69u8][0] == 69u8);
    } else {
        assert(seq![73u8].len() == 1 && seq![84u8].len() == 1 && seq![69u8].len() == 1);
    }
}

} // verus!
