//! Mirroring: which requests are sent to a second server as well, and what became of them.
use vstd::prelude::*;

use crate::address::SocketAddress;
use crate::buffer::{be_at, buffer_bytes, frozen_bytes, frozen_slice, read_be32};
use crate::buffers::append_frame;
use crate::clock::Duration;
use crate::config::{MirrorConfig, MirrorSafetyConfig, SocketConfig, TlsConfig};
use crate::double::Double;
use crate::modes::MirrorMode;
use crate::routing::{
    PinReason, QueryClass, RouteFacts, RouteKey, RoutingReason, RoutingTarget, SqlCommand,
};
use crate::text::join2;
use crate::wire::{
    after_frames, encoded_frames, frame_of, frame_views, invalid_length_text, parse_backend_frame,
    scan_frame, BackendTag, Frame, FrameScan, FrontendFrame, FrontendTag,
};

verus! {

/// What the choice of mirrored requests starts from.
pub const DEFAULT_MIRROR_SEED: u64 = 0x7e57_5eed_7e57_5eed;

/// How many bytes of a mirror's answer are held at most.
pub const DEFAULT_MIRROR_BUFFER_BYTES: usize = 65_536;


/// Why a request is not mirrored.
#[derive(Clone, Copy, Debug, PartialEq, Eq, Structural)]
pub enum MirrorReason {
    Disabled,
    TargetMissing,
    TargetSharedWithProduction,
    UnsupportedMode,
    WritesDisabled,
    TransactionsDisabled,
    SessionMutationDisabled,
    CopyDisabled,
    ListenNotifyDisabled,
    TempTableDisabled,
    SampledOut,
}

impl MirrorReason {
    /// The name under which the value is written.
    pub open spec fn name(self) -> Seq<char> {
        match self {
            MirrorReason::Disabled => "disabled"@,
            MirrorReason::TargetMissing => "target_missing"@,
            MirrorReason::TargetSharedWithProduction => "target_shared_with_production"@,
            MirrorReason::UnsupportedMode => "unsupported_mode"@,
            MirrorReason::WritesDisabled => "writes_disabled"@,
            MirrorReason::TransactionsDisabled => "transactions_disabled"@,
            MirrorReason::SessionMutationDisabled => "session_mutation_disabled"@,
            MirrorReason::CopyDisabled => "copy_disabled"@,
            MirrorReason::ListenNotifyDisabled => "listen_notify_disabled"@,
            MirrorReason::TempTableDisabled => "temp_table_disabled"@,
            MirrorReason::SampledOut => "sampled_out"@,
        }
    }

    /// The name under which the value is written.
    pub fn as_str(self) -> (r: &'static str)
        ensures
            r@ == self.name(),
    {
        match self {
            MirrorReason::Disabled => "disabled",
            MirrorReason::TargetMissing => "target_missing",
            MirrorReason::TargetSharedWithProduction => "target_shared_with_production",
            MirrorReason::UnsupportedMode => "unsupported_mode",
            MirrorReason::WritesDisabled => "writes_disabled",
            MirrorReason::TransactionsDisabled => "transactions_disabled",
            MirrorReason::SessionMutationDisabled => "session_mutation_disabled",
            MirrorReason::CopyDisabled => "copy_disabled",
            MirrorReason::ListenNotifyDisabled => "listen_notify_disabled",
            MirrorReason::TempTableDisabled => "temp_table_disabled",
            MirrorReason::SampledOut => "sampled_out",
        }
    }

    /// What each value is written as.
    pub proof fn law_written_as(self)
        ensures
            self is Disabled ==> self.name() == "disabled"@,
            self is TargetMissing ==> self.name() == "target_missing"@,
            self is TargetSharedWithProduction ==> self.name() == "target_shared_with_production"@,
            self is UnsupportedMode ==> self.name() == "unsupported_mode"@,
            self is WritesDisabled ==> self.name() == "writes_disabled"@,
            self is TransactionsDisabled ==> self.name() == "transactions_disabled"@,
            self is SessionMutationDisabled ==> self.name() == "session_mutation_disabled"@,
            self is CopyDisabled ==> self.name() == "copy_disabled"@,
            self is ListenNotifyDisabled ==> self.name() == "listen_notify_disabled"@,
            self is TempTableDisabled ==> self.name() == "temp_table_disabled"@,
            self is SampledOut ==> self.name() == "sampled_out"@,
    {
    }

    /// No two values have the same name.
    pub proof fn law_names_differ(a: MirrorReason, b: MirrorReason)
        requires
            a.name() == b.name(),
        ensures
            a == b,
    {
        reveal_strlit("disabled");
        reveal_strlit("target_missing");
        reveal_strlit("target_shared_with_production");
        reveal_strlit("unsupported_mode");
        reveal_strlit("writes_disabled");
        reveal_strlit("transactions_disabled");
        reveal_strlit("session_mutation_disabled");
        reveal_strlit("copy_disabled");
        reveal_strlit("listen_notify_disabled");
        reveal_strlit("temp_table_disabled");
        reveal_strlit("sampled_out");
        assert("disabled"@.len() == 8);
        assert("target_missing"@.len() == 14);
        assert("target_shared_with_production"@.len() == 29);
        assert("unsupported_mode"@.len() == 16);
        assert("writes_disabled"@.len() == 15);
        assert("transactions_disabled"@.len() == 21);
        assert("session_mutation_disabled"@.len() == 25);
        assert("copy_disabled"@.len() == 13);
        assert("listen_notify_disabled"@.len() == 22);
        assert("temp_table_disabled"@.len() == 19);
        assert("sampled_out"@.len() == 11);
    }
}

/// What a request has to pass to be mirrored.
#[derive(Clone, Copy, Debug, PartialEq, Eq, Structural)]
pub enum MirrorSafetyGate {
    Disabled,
    TargetConfigured,
    TargetIsolated,
    Writes,
    Transactions,
    Copy,
    ListenNotify,
    TempTable,
    SessionMutation,
    Sampling,
}

impl MirrorSafetyGate {
    /// The name under which the value is written.
    pub open spec fn name(self) -> Seq<char> {
        match self {
            MirrorSafetyGate::Disabled => "disabled"@,
            MirrorSafetyGate::TargetConfigured => "target_configured"@,
            MirrorSafetyGate::TargetIsolated => "target_isolated"@,
            MirrorSafetyGate::Writes => "writes"@,
            MirrorSafetyGate::Transactions => "transactions"@,
            MirrorSafetyGate::Copy => "copy"@,
            MirrorSafetyGate::ListenNotify => "listen_notify"@,
            MirrorSafetyGate::TempTable => "temp_table"@,
            MirrorSafetyGate::SessionMutation => "session_mutation"@,
            MirrorSafetyGate::Sampling => "sampling"@,
        }
    }

    /// The name under which the value is written.
    pub fn as_str(self) -> (r: &'static str)
        ensures
            r@ == self.name(),
    {
        match self {
            MirrorSafetyGate::Disabled => "disabled",
            MirrorSafetyGate::TargetConfigured => "target_configured",
            MirrorSafetyGate::TargetIsolated => "target_isolated",
            MirrorSafetyGate::Writes => "writes",
            MirrorSafetyGate::Transactions => "transactions",
            MirrorSafetyGate::Copy => "copy",
            MirrorSafetyGate::ListenNotify => "listen_notify",
            MirrorSafetyGate::TempTable => "temp_table",
            MirrorSafetyGate::SessionMutation => "session_mutation",
            MirrorSafetyGate::Sampling => "sampling",
        }
    }

    /// What each value is written as.
    pub proof fn law_written_as(self)
        ensures
            self is Disabled ==> self.name() == "disabled"@,
            self is TargetConfigured ==> self.name() == "target_configured"@,
            self is TargetIsolated ==> self.name() == "target_isolated"@,
            self is Writes ==> self.name() == "writes"@,
            self is Transactions ==> self.name() == "transactions"@,
            self is Copy ==> self.name() == "copy"@,
            self is ListenNotify ==> self.name() == "listen_notify"@,
            self is TempTable ==> self.name() == "temp_table"@,
            self is SessionMutation ==> self.name() == "session_mutation"@,
            self is Sampling ==> self.name() == "sampling"@,
    {
    }

    /// No two values have the same name.
    pub proof fn law_names_differ(a: MirrorSafetyGate, b: MirrorSafetyGate)
        requires
            a.name() == b.name(),
        ensures
            a == b,
    {
        reveal_strlit("disabled");
        reveal_strlit("target_configured");
        reveal_strlit("target_isolated");
        reveal_strlit("writes");
        reveal_strlit("transactions");
        reveal_strlit("copy");
        reveal_strlit("listen_notify");
        reveal_strlit("temp_table");
        reveal_strlit("session_mutation");
        reveal_strlit("sampling");
        assert("disabled"@.len() == 8 && "disabled"@[0] == 'd');
        assert("target_configured"@.len() == 17 && "target_configured"@[0] == 't');
        assert("target_isolated"@.len() == 15 && "target_isolated"@[0] == 't');
        assert("writes"@.len() == 6 && "writes"@[0] == 'w');
        assert("transactions"@.len() == 12 && "transactions"@[0] == 't');
        assert("copy"@.len() == 4 && "copy"@[0] == 'c');
        assert("listen_notify"@.len() == 13 && "listen_notify"@[0] == 'l');
        assert("temp_table"@.len() == 10 && "temp_table"@[0] == 't');
        assert("session_mutation"@.len() == 16 && "session_mutation"@[0] == 's');
        assert("sampling"@.len() == 8 && "sampling"@[0] == 's');
    }
}

/// What is decided about a request.
#[derive(Clone, Copy, Debug, PartialEq, Eq, Structural)]
pub enum MirrorOutcome {
    Mirrored,
    Skipped,
    Rejected,
}

impl MirrorOutcome {
    /// The name under which the value is written.
    pub open spec fn name(self) -> Seq<char> {
        match self {
            MirrorOutcome::Mirrored => "mirrored"@,
            MirrorOutcome::Skipped => "skipped"@,
            MirrorOutcome::Rejected => "rejected"@,
        }
    }

    /// The name under which the value is written.
    pub fn as_str(self) -> (r: &'static str)
        ensures
            r@ == self.name(),
    {
        match self {
            MirrorOutcome::Mirrored => "mirrored",
            MirrorOutcome::Skipped => "skipped",
            MirrorOutcome::Rejected => "rejected",
        }
    }

    /// What each value is written as.
    pub proof fn law_written_as(self)
        ensures
            self is Mirrored ==> self.name() == "mirrored"@,
            self is Skipped ==> self.name() == "skipped"@,
            self is Rejected ==> self.name() == "rejected"@,
    {
    }

    /// No two values have the same name.
    pub proof fn law_names_differ(a: MirrorOutcome, b: MirrorOutcome)
        requires
            a.name() == b.name(),
        ensures
            a == b,
    {
        reveal_strlit("mirrored");
        reveal_strlit("skipped");
        reveal_strlit("rejected");
        assert("mirrored"@.len() == 8 && "mirrored"@[0] == 'm');
        assert("skipped"@.len() == 7 && "skipped"@[0] == 's');
        assert("rejected"@.len() == 8 && "rejected"@[0] == 'r');
    }
}


/// What is decided about a request, at which gate, and why it is not mirrored where it is not.
#[derive(Clone, Copy, Debug, PartialEq, Eq, Structural)]
pub struct MirrorDecision {
    pub mode: MirrorMode,
    pub outcome: MirrorOutcome,
    pub gate: MirrorSafetyGate,
    pub reason: Option<MirrorReason>,
}

impl MirrorDecision {
    /// The request is mirrored.
    pub open spec fn to_mirror(mode: MirrorMode, gate: MirrorSafetyGate) -> MirrorDecision {
        MirrorDecision { mode, outcome: MirrorOutcome::Mirrored, gate, reason: None }
    }

    /// The request is passed over.
    pub open spec fn to_skip(
        mode: MirrorMode,
        gate: MirrorSafetyGate,
        reason: MirrorReason,
    ) -> MirrorDecision {
        MirrorDecision { mode, outcome: MirrorOutcome::Skipped, gate, reason: Some(reason) }
    }

    /// The request must not be mirrored.
    pub open spec fn to_reject(
        mode: MirrorMode,
        gate: MirrorSafetyGate,
        reason: MirrorReason,
    ) -> MirrorDecision {
        MirrorDecision { mode, outcome: MirrorOutcome::Rejected, gate, reason: Some(reason) }
    }

    /// The request is mirrored.
    pub fn mirrored(mode: MirrorMode, gate: MirrorSafetyGate) -> (r: MirrorDecision)
        ensures
            r == MirrorDecision::to_mirror(mode, gate),
    {
        MirrorDecision { mode, outcome: MirrorOutcome::Mirrored, gate, reason: None }
    }

    /// The request is passed over.
    pub fn skipped(mode: MirrorMode, gate: MirrorSafetyGate, reason: MirrorReason) -> (r:
        MirrorDecision)
        ensures
            r == MirrorDecision::to_skip(mode, gate, reason),
    {
        MirrorDecision { mode, outcome: MirrorOutcome::Skipped, gate, reason: Some(reason) }
    }

    /// The request must not be mirrored.
    pub fn rejected(mode: MirrorMode, gate: MirrorSafetyGate, reason: MirrorReason) -> (r:
        MirrorDecision)
        ensures
            r == MirrorDecision::to_reject(mode, gate, reason),
    {
        MirrorDecision { mode, outcome: MirrorOutcome::Rejected, gate, reason: Some(reason) }
    }
}

/// A server that requests are mirrored to.
#[derive(Clone, Copy, Debug, PartialEq, Eq, Structural)]
pub struct MirrorTarget {
    pub address: SocketAddress,
    pub isolated: bool,
}

/// What becomes of a request that may be mirrored.
#[derive(Clone, Copy, Debug, PartialEq, Eq, Structural)]
pub enum MirrorTaskStatus {
    Completed,
    TimedOut,
    Error,
    Dropped { reason: MirrorReason },
    Skipped { reason: MirrorReason },
    Rejected { reason: MirrorReason },
}

impl MirrorTaskStatus {
    /// The name under which the status is written.
    pub open spec fn name(self) -> Seq<char> {
        match self {
            MirrorTaskStatus::Completed => "completed"@,
            MirrorTaskStatus::TimedOut => "timed_out"@,
            MirrorTaskStatus::Error => "error"@,
            MirrorTaskStatus::Dropped { reason } => "dropped"@,
            MirrorTaskStatus::Skipped { reason } => "skipped"@,
            MirrorTaskStatus::Rejected { reason } => "rejected"@,
        }
    }

    /// The name under which the status is written.
    pub fn as_str(&self) -> (r: &'static str)
        ensures
            r@ == self.name(),
    {
        match self {
            MirrorTaskStatus::Completed => "completed",
            MirrorTaskStatus::TimedOut => "timed_out",
            MirrorTaskStatus::Error => "error",
            MirrorTaskStatus::Dropped { reason: _ } => "dropped",
            MirrorTaskStatus::Skipped { reason: _ } => "skipped",
            MirrorTaskStatus::Rejected { reason: _ } => "rejected",
        }
    }
}

// ---------------------------------------------------------------------------
// Settings
// ---------------------------------------------------------------------------

/// How requests are mirrored.
#[derive(Clone, Debug)]
pub struct MirrorDispatchConfig {
    pub production_target: SocketAddress,
    pub target: Option<MirrorTarget>,
    pub mode: MirrorMode,
    pub sample_rate: Double,
    pub safety: MirrorSafetyConfig,
    pub timeout: Duration,
    pub max_in_flight: usize,
    pub tls: TlsConfig,
    pub socket: SocketConfig,
}

impl MirrorDispatchConfig {
    /// What the settings ask for.
    pub fn from_mirror_config(
        production_target: SocketAddress,
        mirror: &MirrorConfig,
        tls: TlsConfig,
        socket: SocketConfig,
    ) -> (r: MirrorDispatchConfig)
        ensures
            r.production_target == production_target,
            r.target == match mirror.target.address {
                Some(address) => Some(MirrorTarget { address, isolated: mirror.target.isolated }),
                None => None,
            },
            r.mode == mirror.mirror_mode,
            r.sample_rate == mirror.sampling.mirror_sample_rate.clamped(),
            r.safety == mirror.safety,
            r.timeout@ == mirror.mirror_timeout_ms * 1_000_000,
            r.max_in_flight == mirror.mirror_max_in_flight,
            r.tls == tls,
            r.socket == socket,
    {
        MirrorDispatchConfig {
            production_target,
            target: match mirror.target.address {
                Some(address) => Some(MirrorTarget { address, isolated: mirror.target.isolated }),
                None => None,
            },
            mode: mirror.mirror_mode,
            sample_rate: mirror.sampling.sample_rate(),
            safety: mirror.safety,
            timeout: Duration::from_millis(mirror.mirror_timeout_ms),
            max_in_flight: mirror.mirror_max_in_flight,
            tls,
            socket,
        }
    }

    /// Nothing is mirrored.
    pub fn disabled(production_target: SocketAddress, tls: TlsConfig, socket: SocketConfig) -> (r:
        MirrorDispatchConfig)
        ensures
            r.production_target == production_target,
            r.target is None,
            r.mode == MirrorMode::Off,
            r.sample_rate.bits == 0,
            r.safety.is_default(),
            r.timeout@ == 100_000_000,
            r.max_in_flight == 0,
            r.tls == tls,
            r.socket == socket,
    {
        MirrorDispatchConfig {
            production_target,
            target: None,
            mode: MirrorMode::Off,
            sample_rate: Double::zero(),
            safety: MirrorSafetyConfig::default(),
            timeout: Duration::from_millis(100),
            max_in_flight: 0,
            tls,
            socket,
        }
    }
}

// ---------------------------------------------------------------------------
// Tasks
// ---------------------------------------------------------------------------

/// What is recorded of a request: counts and labels, nothing that it held.
#[derive(Clone, Debug, PartialEq, Eq)]
pub struct MirrorTelemetry {
    pub session_id: u64,
    pub query_id: u64,
    pub route_label: String,
    pub command_label: &'static str,
    pub frame_count: usize,
    pub replay_count: usize,
    pub mode: MirrorMode,
}

/// A request that may be mirrored.
#[derive(Debug)]
pub struct MirrorTask {
    session_id: u64,
    query_id: u64,
    route_key: RouteKey,
    route_target: RoutingTarget,
    command: SqlCommand,
    startup_packet: bytes::Bytes,
    replay_frames: Vec<FrontendFrame>,
    frames: Vec<FrontendFrame>,
    session_pin_reason: Option<PinReason>,
}

/// A request that may be mirrored, as plain values.
pub struct TaskFacts {
    pub session_id: u64,
    pub query_id: u64,
    pub route: RouteFacts,
    pub target: RoutingTarget,
    pub command: SqlCommand,
    pub startup: Seq<u8>,
    pub replay: Seq<Frame>,
    pub frames: Seq<Frame>,
    pub pin: Option<PinReason>,
}

impl View for MirrorTask {
    type V = TaskFacts;

    closed spec fn view(&self) -> TaskFacts {
        TaskFacts {
            session_id: self.session_id,
            query_id: self.query_id,
            route: self.route_key@,
            target: self.route_target,
            command: self.command,
            startup: frozen_bytes(self.startup_packet),
            replay: frame_views(self.replay_frames@),
            frames: frame_views(self.frames@),
            pin: self.session_pin_reason,
        }
    }
}

/// Whether a message can be repeated on another server.
pub open spec fn repeatable_tag(tag: u8) -> bool {
    ||| tag == FrontendTag::Query.byte()
    ||| tag == FrontendTag::Parse.byte()
    ||| tag == FrontendTag::Bind.byte()
    ||| tag == FrontendTag::Describe.byte()
    ||| tag == FrontendTag::Execute.byte()
    ||| tag == FrontendTag::Close.byte()
    ||| tag == FrontendTag::Sync.byte()
}

impl TaskFacts {
    /// Whether every message can be repeated on another server.
    pub open spec fn repeatable(self) -> bool {
        forall|i: int| 0 <= i < self.frames.len() ==> repeatable_tag((#[trigger] self.frames[i]).tag)
    }

    /// Whether some telemetry is that of the request.
    pub open spec fn told_by(self, telemetry: MirrorTelemetry, mode: MirrorMode) -> bool {
        &&& telemetry.session_id == self.session_id
        &&& telemetry.query_id == self.query_id
        &&& telemetry.route_label@ == self.route.label
        &&& telemetry.command_label@ == self.command.name()
        &&& telemetry.frame_count == self.frames.len()
        &&& telemetry.replay_count == self.replay.len()
        &&& telemetry.mode == mode
    }
}

impl MirrorTask {
    /// A request that may be mirrored.
    pub fn new(
        session_id: u64,
        query_id: u64,
        route_key: RouteKey,
        route_target: RoutingTarget,
        command: SqlCommand,
        startup_packet: bytes::Bytes,
        replay_frames: Vec<FrontendFrame>,
        frames: Vec<FrontendFrame>,
        session_pin_reason: Option<PinReason>,
    ) -> (r: MirrorTask)
        ensures
            r@ == (TaskFacts {
                session_id,
                query_id,
                route: route_key@,
                target: route_target,
                command,
                startup: frozen_bytes(startup_packet),
                replay: frame_views(replay_frames@),
                frames: frame_views(frames@),
                pin: session_pin_reason,
            }),
    {
        MirrorTask {
            session_id,
            query_id,
            route_key,
            route_target,
            command,
            startup_packet,
            replay_frames,
            frames,
            session_pin_reason,
        }
    }

    /// The session that made the request.
    pub fn session_id(&self) -> (r: u64)
        ensures
            r == self@.session_id,
    {
        self.session_id
    }

    /// The request's number.
    pub fn query_id(&self) -> (r: u64)
        ensures
            r == self@.query_id,
    {
        self.query_id
    }

    /// The request's route.
    pub fn route_key(&self) -> (r: &RouteKey)
        ensures
            r@ == self@.route,
    {
        &self.route_key
    }

    /// Where the request itself is sent.
    pub fn route_target(&self) -> (r: RoutingTarget)
        ensures
            r == self@.target,
    {
        self.route_target
    }

    /// What the request's statement does.
    pub fn command(&self) -> (r: SqlCommand)
        ensures
            r == self@.command,
    {
        self.command
    }

    /// The packet that the session began with.
    pub fn startup_packet(&self) -> (r: &bytes::Bytes)
        ensures
            frozen_bytes(*r) == self@.startup,
    {
        &self.startup_packet
    }

    /// The messages that bring a session to where the request was made.
    pub fn replay_frames(&self) -> (r: &Vec<FrontendFrame>)
        ensures
            frame_views(r@) == self@.replay,
    {
        &self.replay_frames
    }

    /// The request's messages.
    pub fn frames(&self) -> (r: &Vec<FrontendFrame>)
        ensures
            frame_views(r@) == self@.frames,
    {
        &self.frames
    }

    /// Why the session keeps its server, where it does.
    pub fn session_pin_reason(&self) -> (r: Option<PinReason>)
        ensures
            r == self@.pin,
    {
        self.session_pin_reason
    }

    /// What is recorded of the request.
    pub fn telemetry(&self, mode: MirrorMode) -> (r: MirrorTelemetry)
        ensures
            self@.told_by(r, mode),
    {
        MirrorTelemetry {
            session_id: self.session_id,
            query_id: self.query_id,
            route_label: self.route_key.label.clone(),
            command_label: self.command.as_str(),
            frame_count: self.frames.len(),
            replay_count: self.replay_frames.len(),
            mode,
        }
    }

    /// Whether every message can be repeated on another server.
    pub fn has_supported_protocol_state(&self) -> (r: bool)
        ensures
            r == self@.repeatable(),
    {
        let mut i: usize = 0;
        while i < self.frames.len()
            invariant
                i <= self.frames@.len(),
                forall|j: int| 0 <= j < i ==> repeatable_tag((#[trigger] self@.frames[j]).tag),
            decreases self.frames@.len() - i,
        {
            let tag = self.frames[i].tag;
            assert(self@.frames[i as int].tag == tag);
            if !(tag == FrontendTag::Query.as_byte() || tag == FrontendTag::Parse.as_byte() || tag
                == FrontendTag::Bind.as_byte() || tag == FrontendTag::Describe.as_byte() || tag
                == FrontendTag::Execute.as_byte() || tag == FrontendTag::Close.as_byte() || tag
                == FrontendTag::Sync.as_byte()) {
                return false;
            }
            i += 1;
        }
        true
    }

    /// The bytes that repeat the request on another server, once its session is set up.
    pub fn query_bytes(&self) -> (r: bytes::BytesMut)
        ensures
            buffer_bytes(r) == encoded_frames(self@.replay) + encoded_frames(self@.frames),
    {
        let mut bytes = crate::buffer::new_buffer();
        append_frames(&mut bytes, &self.replay_frames);
        append_frames(&mut bytes, &self.frames);
        assert(buffer_bytes(bytes) =~= encoded_frames(self@.replay) + encoded_frames(
            self@.frames,
        ));
        bytes
    }
}

fn append_frames(bytes: &mut bytes::BytesMut, frames: &Vec<FrontendFrame>)
    ensures
        buffer_bytes(*final(bytes)) == buffer_bytes(*old(bytes)) + encoded_frames(
            frame_views(frames@),
        ),
{
    let ghost views = frame_views(frames@);
    let mut i: usize = 0;
    assert(views.take(0) =~= Seq::empty());
    assert(buffer_bytes(*bytes) =~= buffer_bytes(*bytes) + encoded_frames(views.take(0)));
    while i < frames.len()
        invariant
            i <= frames@.len(),
            views == frame_views(frames@),
            buffer_bytes(*bytes) == buffer_bytes(*old(bytes)) + encoded_frames(
                views.take(i as int),
            ),
        decreases frames@.len() - i,
    {
        append_frame(bytes, frames[i].tag, frozen_slice(&frames[i].payload));
        proof {
            assert(views.take(i + 1).drop_last() =~= views.take(i as int));
            assert(views.take(i + 1).last() == frames@[i as int]@);
            assert(buffer_bytes(*bytes) =~= buffer_bytes(*old(bytes)) + encoded_frames(
                views.take(i + 1),
            ));
        }
        i += 1;
    }
    assert(views.take(i as int) =~= views);
}

// ---------------------------------------------------------------------------
// What may be mirrored
// ---------------------------------------------------------------------------

/// Whether requests of a class write.
pub open spec fn class_writes(class: QueryClass) -> bool {
    class == QueryClass::Write || class == QueryClass::Maintenance
}

/// What a statement has to pass, and what is said where it does not.
pub open spec fn command_gate(command: SqlCommand) -> Option<(MirrorSafetyGate, MirrorReason)> {
    match command {
        SqlCommand::Query => None,
        SqlCommand::Begin | SqlCommand::Commit | SqlCommand::Rollback
        | SqlCommand::SetTransaction => Some(
            (MirrorSafetyGate::Transactions, MirrorReason::TransactionsDisabled),
        ),
        SqlCommand::Copy => Some((MirrorSafetyGate::Copy, MirrorReason::CopyDisabled)),
        SqlCommand::Listen | SqlCommand::Unlisten => Some(
            (MirrorSafetyGate::ListenNotify, MirrorReason::ListenNotifyDisabled),
        ),
        _ => Some((MirrorSafetyGate::SessionMutation, MirrorReason::SessionMutationDisabled)),
    }
}

/// What a session that keeps its server has to pass, and what is said where it does not.
pub open spec fn pin_gate(pin: PinReason) -> (MirrorSafetyGate, MirrorReason) {
    match pin {
        PinReason::OpenTransaction | PinReason::FailedTransaction => (
            MirrorSafetyGate::Transactions,
            MirrorReason::TransactionsDisabled,
        ),
        PinReason::Copy => (MirrorSafetyGate::Copy, MirrorReason::CopyDisabled),
        PinReason::ListenNotify => (
            MirrorSafetyGate::ListenNotify,
            MirrorReason::ListenNotifyDisabled,
        ),
        PinReason::TempTable => (MirrorSafetyGate::TempTable, MirrorReason::TempTableDisabled),
        PinReason::SessionState | PinReason::AdvisoryLock => (
            MirrorSafetyGate::SessionMutation,
            MirrorReason::SessionMutationDisabled,
        ),
        PinReason::UnknownProtocolState => (
            MirrorSafetyGate::Disabled,
            MirrorReason::UnsupportedMode,
        ),
    }
}

/// Whether the settings let anything through a gate.
pub open spec fn gate_opened(safety: MirrorSafetyConfig, gate: MirrorSafetyGate) -> bool {
    match gate {
        MirrorSafetyGate::Writes => safety.mirror_writes_enabled,
        MirrorSafetyGate::Transactions => safety.mirror_transactions_enabled,
        MirrorSafetyGate::Copy => safety.mirror_copy_enabled,
        MirrorSafetyGate::ListenNotify => safety.mirror_listen_notify_enabled,
        MirrorSafetyGate::TempTable => safety.mirror_temp_table_enabled,
        MirrorSafetyGate::SessionMutation => safety.mirror_session_mutation_enabled,
        _ => false,
    }
}

fn gate_enabled(safety: &MirrorSafetyConfig, gate: MirrorSafetyGate) -> (r: bool)
    ensures
        r == gate_opened(*safety, gate),
{
    match gate {
        MirrorSafetyGate::Writes => safety.mirror_writes_enabled,
        MirrorSafetyGate::Transactions => safety.mirror_transactions_enabled,
        MirrorSafetyGate::Copy => safety.mirror_copy_enabled,
        MirrorSafetyGate::ListenNotify => safety.mirror_listen_notify_enabled,
        MirrorSafetyGate::TempTable => safety.mirror_temp_table_enabled,
        MirrorSafetyGate::SessionMutation => safety.mirror_session_mutation_enabled,
        MirrorSafetyGate::Disabled | MirrorSafetyGate::TargetConfigured
        | MirrorSafetyGate::TargetIsolated | MirrorSafetyGate::Sampling => false,
    }
}

/// Says which requests may be mirrored.
#[derive(Clone, Debug)]
pub struct MirrorSafetyClassifier {
    production_target: SocketAddress,
    target: Option<MirrorTarget>,
    mode: MirrorMode,
    safety: MirrorSafetyConfig,
}

/// The settings that say which requests may be mirrored.
pub struct ClassifierFacts {
    pub production: SocketAddress,
    pub target: Option<MirrorTarget>,
    pub mode: MirrorMode,
    pub safety: MirrorSafetyConfig,
}

impl View for MirrorSafetyClassifier {
    type V = ClassifierFacts;

    closed spec fn view(&self) -> ClassifierFacts {
        ClassifierFacts {
            production: self.production_target,
            target: self.target,
            mode: self.mode,
            safety: self.safety,
        }
    }
}

impl ClassifierFacts {
    /// Whether a gate is shut: always where only reads are mirrored, and otherwise unless the
    /// settings open it.
    pub open spec fn shut(self, gate: MirrorSafetyGate) -> bool {
        self.mode == MirrorMode::ReadOnly || !gate_opened(self.safety, gate)
    }

    /// Whether the target is the server that the requests themselves go to, and must not be.
    pub open spec fn target_is_production(self) -> bool {
        &&& self.target is Some
        &&& self.safety.mirror_require_isolated_target
        &&& !self.target->0.isolated
        &&& self.target->0.address == self.production
    }

    /// What is decided about a request.
    pub open spec fn decision(self, task: TaskFacts) -> MirrorDecision {
        let skip = |gate: MirrorSafetyGate, reason: MirrorReason|
            MirrorDecision::to_skip(self.mode, gate, reason);
        let reject = |gate: MirrorSafetyGate, reason: MirrorReason|
            MirrorDecision::to_reject(self.mode, gate, reason);
        if !self.mode.enabled() {
            skip(MirrorSafetyGate::Disabled, MirrorReason::Disabled)
        } else if self.target is None {
            reject(MirrorSafetyGate::TargetConfigured, MirrorReason::TargetMissing)
        } else if self.target_is_production() {
            reject(MirrorSafetyGate::TargetIsolated, MirrorReason::TargetSharedWithProduction)
        } else if task.target == (RoutingTarget::Reject { reason: RoutingReason::PolicyDenied }) {
            reject(MirrorSafetyGate::Disabled, MirrorReason::Disabled)
        } else if task.target is Wait || task.target is Reject || !task.repeatable() {
            skip(MirrorSafetyGate::Disabled, MirrorReason::UnsupportedMode)
        } else if class_writes(task.route.query_class) && self.shut(MirrorSafetyGate::Writes) {
            skip(MirrorSafetyGate::Writes, MirrorReason::WritesDisabled)
        } else if command_gate(task.command) is Some && self.shut((command_gate(task.command)->0).0) {
            skip((command_gate(task.command)->0).0, (command_gate(task.command)->0).1)
        } else if task.pin is Some && self.shut(pin_gate(task.pin->0).0) {
            skip(pin_gate(task.pin->0).0, pin_gate(task.pin->0).1)
        } else {
            MirrorDecision::to_mirror(self.mode, MirrorSafetyGate::Sampling)
        }
    }
}

/// Nothing is mirrored while mirroring is off.
pub proof fn law_off_mirrors_nothing(classifier: ClassifierFacts, task: TaskFacts)
    requires
        classifier.mode == MirrorMode::Off,
    ensures
        classifier.decision(task).outcome != MirrorOutcome::Mirrored,
{
}

/// Nothing is mirrored to the production server itself, unless the settings allow that.
pub proof fn law_production_is_no_mirror(classifier: ClassifierFacts, task: TaskFacts)
    requires
        classifier.target_is_production(),
    ensures
        classifier.decision(task).outcome != MirrorOutcome::Mirrored,
{
}

/// Where only reads are mirrored, a mirrored request writes nothing, changes nothing of its
/// session and comes from a session that keeps no server.
pub proof fn law_read_only_mirrors_reads(classifier: ClassifierFacts, task: TaskFacts)
    requires
        classifier.mode == MirrorMode::ReadOnly,
        classifier.decision(task).outcome == MirrorOutcome::Mirrored,
    ensures
        !class_writes(task.route.query_class),
        task.command == SqlCommand::Query,
        task.pin is None,
        task.target is Primary || task.target is Replica,
{
}

/// A mirrored request has passed every gate that it came to.
pub proof fn law_mirrored_passed_the_gates(classifier: ClassifierFacts, task: TaskFacts)
    requires
        classifier.decision(task).outcome == MirrorOutcome::Mirrored,
    ensures
        class_writes(task.route.query_class) ==> classifier.safety.mirror_writes_enabled,
        command_gate(task.command) is Some ==> gate_opened(
            classifier.safety,
            (command_gate(task.command)->0).0,
        ),
        task.pin is Some ==> gate_opened(classifier.safety, pin_gate(task.pin->0).0),
        task.repeatable(),
{
}

/// A request is mirrored exactly where mirroring is on, a target is set that is not the production
/// server, the request itself was sent to a server, its messages can be repeated, and the settings
/// allow what it does: each kind of statement, and each reason for which its session keeps its
/// server, by a setting of its own. In read-only mode no setting allows anything but reads.
pub proof fn law_mirrored_exactly_where_allowed(classifier: ClassifierFacts, task: TaskFacts)
    ensures
        classifier.decision(task).outcome == MirrorOutcome::Mirrored <==> {
            let safety = classifier.safety;
            let explicit = classifier.mode == MirrorMode::Explicit;
            &&& classifier.mode == MirrorMode::ReadOnly || explicit
            &&& classifier.target is Some
            &&& safety.mirror_require_isolated_target ==> classifier.target->0.isolated
                || classifier.target->0.address != classifier.production
            &&& task.target is Primary || task.target is Replica
            &&& forall|i: int|
                0 <= i < task.frames.len() ==> {
                    let tag = (#[trigger] task.frames[i]).tag;
                    tag == 81u8 || tag == 80u8 || tag == 66u8 || tag == 68u8 || tag == 69u8 || tag
                        == 67u8 || tag == 83u8
                }
            &&& task.route.query_class == QueryClass::Write || task.route.query_class
                == QueryClass::Maintenance ==> explicit && safety.mirror_writes_enabled
            &&& match task.command {
                SqlCommand::Query => true,
                SqlCommand::Begin => explicit && safety.mirror_transactions_enabled,
                SqlCommand::Commit => explicit && safety.mirror_transactions_enabled,
                SqlCommand::Rollback => explicit && safety.mirror_transactions_enabled,
                SqlCommand::SetTransaction => explicit && safety.mirror_transactions_enabled,
                SqlCommand::Copy => explicit && safety.mirror_copy_enabled,
                SqlCommand::Listen => explicit && safety.mirror_listen_notify_enabled,
                SqlCommand::Unlisten => explicit && safety.mirror_listen_notify_enabled,
                SqlCommand::SetParameter => explicit && safety.mirror_session_mutation_enabled,
                SqlCommand::Reset => explicit && safety.mirror_session_mutation_enabled,
                SqlCommand::DiscardAll => explicit && safety.mirror_session_mutation_enabled,
                SqlCommand::DiscardTemp => explicit && safety.mirror_session_mutation_enabled,
                SqlCommand::DiscardPlans => explicit && safety.mirror_session_mutation_enabled,
                SqlCommand::CreateTemp => explicit && safety.mirror_session_mutation_enabled,
                SqlCommand::AdvisoryLock => explicit && safety.mirror_session_mutation_enabled,
                SqlCommand::AdvisoryUnlock => explicit && safety.mirror_session_mutation_enabled,
            }
            &&& match task.pin {
                None => true,
                Some(PinReason::OpenTransaction) => explicit && safety.mirror_transactions_enabled,
                Some(PinReason::FailedTransaction) => explicit
                    && safety.mirror_transactions_enabled,
                Some(PinReason::Copy) => explicit && safety.mirror_copy_enabled,
                Some(PinReason::ListenNotify) => explicit && safety.mirror_listen_notify_enabled,
                Some(PinReason::TempTable) => explicit && safety.mirror_temp_table_enabled,
                Some(PinReason::SessionState) => explicit
                    && safety.mirror_session_mutation_enabled,
                Some(PinReason::AdvisoryLock) => explicit
                    && safety.mirror_session_mutation_enabled,
                Some(PinReason::UnknownProtocolState) => false,
            }
        },
{
}

/// What is said of a request that is not mirrored names what it did that is not allowed, and
/// that setting does not allow it.
pub proof fn law_refusal_names_the_setting(classifier: ClassifierFacts, task: TaskFacts)
    ensures
        ({
            let decision = classifier.decision(task);
            let safety = classifier.safety;
            let read_only = classifier.mode == MirrorMode::ReadOnly;
            let pin = task.pin;
            &&& decision.mode == classifier.mode
            &&& decision.outcome == MirrorOutcome::Mirrored ==> decision.gate
                == MirrorSafetyGate::Sampling && decision.reason is None
            &&& decision.outcome == MirrorOutcome::Rejected ==> match decision.reason {
                Some(MirrorReason::TargetMissing) => decision.gate
                    == MirrorSafetyGate::TargetConfigured && classifier.target is None,
                Some(MirrorReason::TargetSharedWithProduction) => decision.gate
                    == MirrorSafetyGate::TargetIsolated && classifier.target is Some
                    && !classifier.target->0.isolated && classifier.target->0.address
                    == classifier.production && safety.mirror_require_isolated_target,
                Some(MirrorReason::Disabled) => decision.gate == MirrorSafetyGate::Disabled
                    && task.target is Reject && task.target->Reject_reason
                    == RoutingReason::PolicyDenied,
                _ => false,
            }
            &&& decision.outcome == MirrorOutcome::Skipped ==> match decision.reason {
                Some(MirrorReason::Disabled) => decision.gate == MirrorSafetyGate::Disabled
                    && classifier.mode == MirrorMode::Off,
                Some(MirrorReason::UnsupportedMode) => decision.gate == MirrorSafetyGate::Disabled,
                Some(MirrorReason::WritesDisabled) => decision.gate == MirrorSafetyGate::Writes && (
                read_only || !safety.mirror_writes_enabled) && (task.route.query_class
                    == QueryClass::Write || task.route.query_class == QueryClass::Maintenance),
                Some(MirrorReason::TransactionsDisabled) => decision.gate
                    == MirrorSafetyGate::Transactions && (read_only
                    || !safety.mirror_transactions_enabled) && (task.command == SqlCommand::Begin
                    || task.command == SqlCommand::Commit || task.command == SqlCommand::Rollback
                    || task.command == SqlCommand::SetTransaction || pin == Some(
                    PinReason::OpenTransaction,
                ) || pin == Some(PinReason::FailedTransaction)),
                Some(MirrorReason::CopyDisabled) => decision.gate == MirrorSafetyGate::Copy && (
                read_only || !safety.mirror_copy_enabled) && (task.command == SqlCommand::Copy
                    || pin == Some(PinReason::Copy)),
                Some(MirrorReason::ListenNotifyDisabled) => decision.gate
                    == MirrorSafetyGate::ListenNotify && (read_only
                    || !safety.mirror_listen_notify_enabled) && (task.command == SqlCommand::Listen
                    || task.command == SqlCommand::Unlisten || pin == Some(
                    PinReason::ListenNotify,
                )),
                Some(MirrorReason::TempTableDisabled) => decision.gate
                    == MirrorSafetyGate::TempTable && (read_only
                    || !safety.mirror_temp_table_enabled) && pin == Some(PinReason::TempTable),
                Some(MirrorReason::SessionMutationDisabled) => decision.gate
                    == MirrorSafetyGate::SessionMutation && (read_only
                    || !safety.mirror_session_mutation_enabled),
                _ => false,
            }
        }),
{
}

/// The first thing that stands against a request is what is said: a target that is missing or is
/// the production server before anything about the request, and a write before its statement.
pub proof fn law_first_refusal_is_told(classifier: ClassifierFacts, task: TaskFacts)
    ensures
        classifier.mode == MirrorMode::Off ==> classifier.decision(task).outcome
            == MirrorOutcome::Skipped && classifier.decision(task).reason == Some(
            MirrorReason::Disabled,
        ),
        classifier.mode != MirrorMode::Off && classifier.target is None ==> classifier.decision(
            task,
        ).outcome == MirrorOutcome::Rejected && classifier.decision(task).reason == Some(
            MirrorReason::TargetMissing,
        ),
        classifier.mode != MirrorMode::Off && classifier.target is Some
            && !classifier.target->0.isolated && classifier.target->0.address
            == classifier.production && classifier.safety.mirror_require_isolated_target ==> classifier.decision(
            task,
        ).outcome == MirrorOutcome::Rejected && classifier.decision(task).reason == Some(
            MirrorReason::TargetSharedWithProduction,
        ),
        classifier.decision(task).reason == Some(MirrorReason::TransactionsDisabled) ==> !(
        task.route.query_class == QueryClass::Write && !classifier.safety.mirror_writes_enabled),
{
}

impl MirrorSafetyClassifier {
    /// A classifier of some settings.
    pub fn new(
        production_target: SocketAddress,
        target: Option<MirrorTarget>,
        mode: MirrorMode,
        safety: MirrorSafetyConfig,
    ) -> (r: MirrorSafetyClassifier)
        ensures
            r@ == (ClassifierFacts { production: production_target, target, mode, safety }),
    {
        MirrorSafetyClassifier { production_target, target, mode, safety }
    }

    /// What is mirrored.
    pub fn mode(&self) -> (r: MirrorMode)
        ensures
            r == self@.mode,
    {
        self.mode
    }

    /// Where requests are mirrored to.
    pub fn target(&self) -> (r: Option<MirrorTarget>)
        ensures
            r == self@.target,
    {
        self.target
    }

    /// Decides about a request.
    pub fn classify(&self, task: &MirrorTask) -> (r: MirrorDecision)
        ensures
            r == self@.decision(task@),
    {
        if !self.mode.is_enabled() {
            return MirrorDecision::skipped(
                self.mode,
                MirrorSafetyGate::Disabled,
                MirrorReason::Disabled,
            );
        }
        let target = match self.target {
            Some(target) => target,
            None => {
                return MirrorDecision::rejected(
                    self.mode,
                    MirrorSafetyGate::TargetConfigured,
                    MirrorReason::TargetMissing,
                );
            },
        };
        if self.safety.mirror_require_isolated_target && !target.isolated && target.address
            == self.production_target {
            return MirrorDecision::rejected(
                self.mode,
                MirrorSafetyGate::TargetIsolated,
                MirrorReason::TargetSharedWithProduction,
            );
        }
        match task.route_target {
            RoutingTarget::Reject { reason: RoutingReason::PolicyDenied } => {
                return MirrorDecision::rejected(
                    self.mode,
                    MirrorSafetyGate::Disabled,
                    MirrorReason::Disabled,
                );
            },
            RoutingTarget::Wait { reason: _ } | RoutingTarget::Reject { reason: _ } => {
                return MirrorDecision::skipped(
                    self.mode,
                    MirrorSafetyGate::Disabled,
                    MirrorReason::UnsupportedMode,
                );
            },
            _ => {},
        }
        if !task.has_supported_protocol_state() {
            return MirrorDecision::skipped(
                self.mode,
                MirrorSafetyGate::Disabled,
                MirrorReason::UnsupportedMode,
            );
        }
        let class = task.route_key.query_class;
        if (class == QueryClass::Write || class == QueryClass::Maintenance) && (self.mode
            == MirrorMode::ReadOnly || !self.safety.mirror_writes_enabled) {
            return MirrorDecision::skipped(
                self.mode,
                MirrorSafetyGate::Writes,
                MirrorReason::WritesDisabled,
            );
        }
        match task.command {
            SqlCommand::Query => {},
            SqlCommand::Begin | SqlCommand::Commit | SqlCommand::Rollback
            | SqlCommand::SetTransaction => {
                if self.mode == MirrorMode::ReadOnly || !self.safety.mirror_transactions_enabled {
                    return MirrorDecision::skipped(
                        self.mode,
                        MirrorSafetyGate::Transactions,
                        MirrorReason::TransactionsDisabled,
                    );
                }
            },
            SqlCommand::SetParameter | SqlCommand::Reset | SqlCommand::DiscardAll
            | SqlCommand::DiscardTemp | SqlCommand::DiscardPlans | SqlCommand::CreateTemp
            | SqlCommand::AdvisoryLock | SqlCommand::AdvisoryUnlock => {
                if self.mode == MirrorMode::ReadOnly
                    || !self.safety.mirror_session_mutation_enabled {
                    return MirrorDecision::skipped(
                        self.mode,
                        MirrorSafetyGate::SessionMutation,
                        MirrorReason::SessionMutationDisabled,
                    );
                }
            },
            SqlCommand::Copy => {
                if self.mode == MirrorMode::ReadOnly || !self.safety.mirror_copy_enabled {
                    return MirrorDecision::skipped(
                        self.mode,
                        MirrorSafetyGate::Copy,
                        MirrorReason::CopyDisabled,
                    );
                }
            },
            SqlCommand::Listen | SqlCommand::Unlisten => {
                if self.mode == MirrorMode::ReadOnly || !self.safety.mirror_listen_notify_enabled {
                    return MirrorDecision::skipped(
                        self.mode,
                        MirrorSafetyGate::ListenNotify,
                        MirrorReason::ListenNotifyDisabled,
                    );
                }
            },
        }
        match task.session_pin_reason {
            Some(pin) => {
                let (gate, reason) = match pin {
                    PinReason::OpenTransaction | PinReason::FailedTransaction => (
                        MirrorSafetyGate::Transactions,
                        MirrorReason::TransactionsDisabled,
                    ),
                    PinReason::Copy => (MirrorSafetyGate::Copy, MirrorReason::CopyDisabled),
                    PinReason::ListenNotify => (
                        MirrorSafetyGate::ListenNotify,
                        MirrorReason::ListenNotifyDisabled,
                    ),
                    PinReason::TempTable => (
                        MirrorSafetyGate::TempTable,
                        MirrorReason::TempTableDisabled,
                    ),
                    PinReason::SessionState | PinReason::AdvisoryLock => (
                        MirrorSafetyGate::SessionMutation,
                        MirrorReason::SessionMutationDisabled,
                    ),
                    PinReason::UnknownProtocolState => (
                        MirrorSafetyGate::Disabled,
                        MirrorReason::UnsupportedMode,
                    ),
                };
                if self.mode == MirrorMode::ReadOnly || !gate_enabled(&self.safety, gate) {
                    return MirrorDecision::skipped(self.mode, gate, reason);
                }
            },
            None => {},
        }
        MirrorDecision::mirrored(self.mode, MirrorSafetyGate::Sampling)
    }
}

// ---------------------------------------------------------------------------
// Sampling
// ---------------------------------------------------------------------------

/// A number with its bits moved to the left, and those that fall out brought in on the right.
pub open spec fn rotated(value: u64, by: u64) -> u64 {
    (value << by) | (value >> (64 - by))
}

/// A number whose bits are mixed so that numbers that lie close together end up far apart.
pub open spec fn mixed(value: u64) -> u64 {
    let start = vstd::wrapping::u64_specs::wrapping_add(value, 0x9E37_79B9_7F4A_7C15);
    let first = vstd::wrapping::u64_specs::wrapping_mul(start ^ (start >> 30), 0xBF58_476D_1CE4_E5B9);
    let second = vstd::wrapping::u64_specs::wrapping_mul(first ^ (first >> 27), 0x94D0_49BB_1331_11EB);
    second ^ (second >> 31)
}

fn splitmix64(value: u64) -> (r: u64)
    ensures
        r == mixed(value),
{
    let start: u64 = value.wrapping_add(0x9E37_79B9_7F4A_7C15);
    let first: u64 = (start ^ (start >> 30)).wrapping_mul(0xBF58_476D_1CE4_E5B9);
    let second: u64 = (first ^ (first >> 27)).wrapping_mul(0x94D0_49BB_1331_11EB);
    second ^ (second >> 31)
}

/// Chooses which requests are mirrored.
#[derive(Clone, Copy, Debug)]
pub struct MirrorSampler {
    rate: Double,
    seed: u64,
}

impl MirrorSampler {
    /// The share of requests that are mirrored.
    pub closed spec fn share(self) -> Double {
        self.rate
    }

    /// What the choice starts from.
    pub closed spec fn start(self) -> u64 {
        self.seed
    }

    /// A request's place in the sample, in steps of which the whole has 2 to the power of 53
    /// less one.
    pub open spec fn place(self, session_id: u64, query_id: u64) -> u64 {
        mixed(self.start() ^ rotated(session_id, 17) ^ rotated(query_id, 41)) >> 11
    }

    /// A sampler that chooses a share of requests.
    pub fn new(rate: Double) -> (r: MirrorSampler)
        ensures
            r.share() == rate.clamped(),
            r.start() == DEFAULT_MIRROR_SEED,
    {
        MirrorSampler::with_seed(rate, DEFAULT_MIRROR_SEED)
    }

    /// A sampler that starts from a number of its own.
    pub fn with_seed(rate: Double, seed: u64) -> (r: MirrorSampler)
        ensures
            r.share() == rate.clamped(),
            r.start() == seed,
    {
        MirrorSampler { rate: rate.clamp_unit(), seed }
    }

    /// The share of requests that are mirrored.
    pub fn rate(self) -> (r: Double)
        ensures
            r == self.share(),
    {
        self.rate
    }

    /// A request's place in the sample. The same request always has the same place.
    pub fn sample_mantissa(self, session_id: u64, query_id: u64) -> (r: u64)
        ensures
            r == self.place(session_id, query_id),
            r <= 0x1f_ffff_ffff_ffff,
    {
        let session: u64 = (session_id << 17) | (session_id >> 47);
        let query: u64 = (query_id << 41) | (query_id >> 23);
        let value: u64 = splitmix64(self.seed ^ session ^ query);
        let place: u64 = value >> 11;
        assert(place <= 0x1f_ffff_ffff_ffff) by (bit_vector)
            requires
                place == value >> 11,
        ;
        place
    }
}

// ---------------------------------------------------------------------------
// Dispatch
// ---------------------------------------------------------------------------

/// What became of a request that might be mirrored.
#[derive(Clone, Debug)]
pub struct MirrorObservation {
    pub telemetry: MirrorTelemetry,
    pub decision: MirrorDecision,
    pub status: MirrorTaskStatus,
    pub duration: Duration,
}

/// What became of the requests so far.
#[derive(Debug)]
pub struct MirrorOutcomeRecorder {
    observations: Vec<MirrorObservation>,
}

impl View for MirrorOutcomeRecorder {
    type V = Seq<MirrorObservation>;

    closed spec fn view(&self) -> Seq<MirrorObservation> {
        self.observations@
    }
}

impl MirrorOutcomeRecorder {
    /// Nothing is recorded yet.
    pub fn new() -> (r: MirrorOutcomeRecorder)
        ensures
            r@ == Seq::<MirrorObservation>::empty(),
    {
        MirrorOutcomeRecorder { observations: Vec::new() }
    }

    /// Records what became of a request.
    pub fn record(&mut self, observation: MirrorObservation)
        ensures
            final(self)@ == old(self)@.push(observation),
    {
        self.observations.push(observation);
    }

    /// Everything that is recorded.
    pub fn snapshot(&self) -> (r: &Vec<MirrorObservation>)
        ensures
            r@ == self@,
    {
        &self.observations
    }

    /// How much is recorded.
    pub fn len(&self) -> (r: usize)
        ensures
            r == self@.len(),
    {
        self.observations.len()
    }

    /// Whether nothing is recorded.
    pub fn is_empty(&self) -> (r: bool)
        ensures
            r == (self@.len() == 0),
    {
        self.observations.len() == 0
    }

    /// Whether as much is recorded as is waited for.
    pub fn has_count(&self, expected: usize) -> (r: bool)
        ensures
            r == (self@.len() >= expected),
    {
        self.observations.len() >= expected
    }
}

impl Default for MirrorOutcomeRecorder {
    fn default() -> (r: MirrorOutcomeRecorder)
        ensures
            r@ == Seq::<MirrorObservation>::empty(),
    {
        MirrorOutcomeRecorder::new()
    }
}

/// The status of a request that is not mirrored.
pub open spec fn status_of(decision: MirrorDecision) -> MirrorTaskStatus {
    match decision.outcome {
        MirrorOutcome::Mirrored => MirrorTaskStatus::Completed,
        MirrorOutcome::Skipped => MirrorTaskStatus::Skipped { reason: decision.reason->0 },
        MirrorOutcome::Rejected => MirrorTaskStatus::Rejected { reason: decision.reason->0 },
    }
}

/// A request that is not mirrored is passed over or refused for a reason.
pub proof fn law_reason_given(classifier: ClassifierFacts, task: TaskFacts)
    ensures
        classifier.decision(task).outcome != MirrorOutcome::Mirrored <==> classifier.decision(
            task,
        ).reason is Some,
{
}

/// Mirrors requests, and records what became of them.
#[derive(Debug)]
pub struct MirrorDispatcher {
    config: MirrorDispatchConfig,
    classifier: MirrorSafetyClassifier,
    sampler: MirrorSampler,
    recorder: MirrorOutcomeRecorder,
    in_flight: usize,
}

/// A mirrored request that is under way.
#[derive(Debug)]
pub struct MirrorFlight {
    telemetry: MirrorTelemetry,
    decision: MirrorDecision,
}

impl MirrorFlight {
    /// What is recorded of the request.
    pub closed spec fn told(self) -> MirrorTelemetry {
        self.telemetry
    }

    /// What was decided about it.
    pub closed spec fn decided(self) -> MirrorDecision {
        self.decision
    }
}

impl MirrorDispatcher {
    /// Which requests may be mirrored.
    pub closed spec fn rules(self) -> ClassifierFacts {
        self.classifier@
    }

    /// What is recorded.
    pub closed spec fn recorded(self) -> Seq<MirrorObservation> {
        self.recorder@
    }

    /// How many mirrored requests are under way.
    pub closed spec fn flying(self) -> nat {
        self.in_flight as nat
    }

    /// How many there may be.
    pub closed spec fn room(self) -> nat {
        self.config.max_in_flight as nat
    }

    /// The choice of requests.
    pub closed spec fn chooser(self) -> MirrorSampler {
        self.sampler
    }

    /// That no more requests are under way than may be.
    pub closed spec fn wf(self) -> bool {
        self.in_flight <= self.config.max_in_flight
    }

    /// No more requests are under way than may be, whatever was asked for.
    pub proof fn law_in_flight_bounded(self)
        requires
            self.wf(),
        ensures
            self.flying() <= self.room(),
    {
    }

    /// A dispatcher of some settings.
    pub fn new(config: MirrorDispatchConfig, recorder: MirrorOutcomeRecorder) -> (r:
        MirrorDispatcher)
        ensures
            r.wf(),
            r.rules() == (ClassifierFacts {
                production: config.production_target,
                target: config.target,
                mode: config.mode,
                safety: config.safety,
            }),
            r.chooser().share() == config.sample_rate.clamped(),
            r.chooser().start() == DEFAULT_MIRROR_SEED,
            r.recorded() == recorder@,
            r.flying() == 0,
            r.room() == config.max_in_flight,
    {
        MirrorDispatcher {
            classifier: MirrorSafetyClassifier::new(
                config.production_target,
                config.target,
                config.mode,
                config.safety,
            ),
            sampler: MirrorSampler::with_seed(config.sample_rate, DEFAULT_MIRROR_SEED),
            in_flight: 0,
            config,
            recorder,
        }
    }

    /// A dispatcher that does what the settings ask for.
    pub fn from_mirror_config(
        production_target: SocketAddress,
        mirror: &MirrorConfig,
        tls: TlsConfig,
        socket: SocketConfig,
        recorder: MirrorOutcomeRecorder,
    ) -> (r: MirrorDispatcher)
        ensures
            r.wf(),
            r.rules().production == production_target,
            r.rules().target == match mirror.target.address {
                Some(address) => Some(MirrorTarget { address, isolated: mirror.target.isolated }),
                None => None,
            },
            r.rules().mode == mirror.mirror_mode,
            r.rules().safety == mirror.safety,
            r.chooser().share() == mirror.sampling.mirror_sample_rate.clamped().clamped(),
            r.chooser().start() == DEFAULT_MIRROR_SEED,
            r.recorded() == recorder@,
            r.flying() == 0,
            r.room() == mirror.mirror_max_in_flight,
    {
        MirrorDispatcher::new(
            MirrorDispatchConfig::from_mirror_config(production_target, mirror, tls, socket),
            recorder,
        )
    }

    /// A dispatcher that mirrors nothing.
    pub fn disabled(
        production_target: SocketAddress,
        tls: TlsConfig,
        socket: SocketConfig,
        recorder: MirrorOutcomeRecorder,
    ) -> (r: MirrorDispatcher)
        ensures
            r.wf(),
            r.rules().production == production_target,
            r.rules().target is None,
            r.rules().mode == MirrorMode::Off,
            r.rules().safety.is_default(),
            r.chooser().share() == (Double { bits: 0 }).clamped(),
            r.chooser().start() == DEFAULT_MIRROR_SEED,
            r.recorded() == recorder@,
            r.flying() == 0,
            r.room() == 0,
    {
        MirrorDispatcher::new(
            MirrorDispatchConfig::disabled(production_target, tls, socket),
            recorder,
        )
    }

    /// Which requests may be mirrored.
    pub fn classifier(&self) -> (r: &MirrorSafetyClassifier)
        ensures
            r@ == self.rules(),
    {
        &self.classifier
    }

    /// The choice of requests.
    pub fn sampler(&self) -> (r: MirrorSampler)
        ensures
            r == self.chooser(),
    {
        self.sampler
    }

    /// How many mirrored requests may be under way.
    pub fn max_in_flight(&self) -> (r: usize)
        ensures
            r == self.room(),
    {
        self.config.max_in_flight
    }

    /// How many mirrored requests are under way.
    pub fn in_flight(&self) -> (r: usize)
        ensures
            r == self.flying(),
    {
        self.in_flight
    }

    /// What is recorded.
    pub fn recorder(&self) -> (r: &MirrorOutcomeRecorder)
        ensures
            r@ == self.recorded(),
    {
        &self.recorder
    }

    /// Decides about a request, and starts to mirror it where it may be mirrored, was chosen
    /// (`sampled`) and there is room. Any other request is recorded at once.
    pub fn dispatch(&mut self, task: &MirrorTask, sampled: bool) -> (r: (
        MirrorDecision,
        Option<MirrorFlight>,
    ))
        requires
            old(self).wf(),
        ensures
            final(self).wf(),
            final(self).rules() == old(self).rules(),
            final(self).room() == old(self).room(),
            final(self).chooser() == old(self).chooser(),
            ({
                let decision = old(self).rules().decision(task@);
                let allowed = decision.outcome == MirrorOutcome::Mirrored;
                if allowed && sampled && old(self).flying() < old(self).room() {
                    &&& r.0 == decision
                    &&& r.1 is Some
                    &&& r.1->0.decided() == decision
                    &&& task@.told_by(r.1->0.told(), old(self).rules().mode)
                    &&& final(self).recorded() == old(self).recorded()
                    &&& final(self).flying() == old(self).flying() + 1
                } else {
                    let last = final(self).recorded().last();
                    &&& r.0 == if allowed {
                        MirrorDecision::to_skip(
                            old(self).rules().mode,
                            MirrorSafetyGate::Sampling,
                            MirrorReason::SampledOut,
                        )
                    } else {
                        decision
                    }
                    &&& r.1 is None
                    &&& final(self).recorded() == old(self).recorded().push(last)
                    &&& task@.told_by(last.telemetry, old(self).rules().mode)
                    &&& last.decision == r.0
                    &&& last.status == if allowed {
                        MirrorTaskStatus::Dropped { reason: MirrorReason::SampledOut }
                    } else {
                        status_of(decision)
                    }
                    &&& last.duration@ == 0
                    &&& final(self).flying() == old(self).flying()
                }
            }),
            r.1 is Some ==> sampled && r.0.outcome is Mirrored && r.0.reason is None,
            !sampled || old(self).flying() >= old(self).room() ==> r.1 is None && !(
            r.0.outcome is Mirrored),
            sampled && old(self).flying() < old(self).room() && old(self).rules().decision(
                task@,
            ).outcome is Mirrored ==> r.1 is Some,
            final(self).flying() + final(self).recorded().len() == old(self).flying() + old(
                self,
            ).recorded().len() + 1,
    {
        let decision = self.classifier.classify(task);
        let telemetry = task.telemetry(self.classifier.mode());
        let allowed = match decision.outcome {
            MirrorOutcome::Mirrored => true,
            _ => false,
        };
        if !allowed {
            let status = match (decision.outcome, decision.reason) {
                (MirrorOutcome::Skipped, Some(reason)) => MirrorTaskStatus::Skipped { reason },
                (MirrorOutcome::Rejected, Some(reason)) => MirrorTaskStatus::Rejected { reason },
                _ => MirrorTaskStatus::Completed,
            };
            self.recorder.record(
                MirrorObservation { telemetry, decision, status, duration: Duration::zero() },
            );
            return (decision, None);
        }
        if !sampled || self.in_flight >= self.config.max_in_flight {
            let dropped = MirrorDecision::skipped(
                self.classifier.mode(),
                MirrorSafetyGate::Sampling,
                MirrorReason::SampledOut,
            );
            self.recorder.record(
                MirrorObservation {
                    telemetry,
                    decision: dropped,
                    status: MirrorTaskStatus::Dropped { reason: MirrorReason::SampledOut },
                    duration: Duration::zero(),
                },
            );
            return (dropped, None);
        }
        self.in_flight += 1;
        (decision, Some(MirrorFlight { telemetry, decision }))
    }

    /// Records how a mirrored request ended, and makes room for another.
    pub fn finish(&mut self, flight: MirrorFlight, status: MirrorTaskStatus, duration: Duration)
        requires
            old(self).wf(),
            old(self).flying() > 0,
        ensures
            final(self).wf(),
            final(self).rules() == old(self).rules(),
            final(self).room() == old(self).room(),
            final(self).chooser() == old(self).chooser(),
            final(self).flying() == old(self).flying() - 1,
            final(self).recorded() == old(self).recorded().push(
                MirrorObservation {
                    telemetry: flight.told(),
                    decision: flight.decided(),
                    status,
                    duration,
                },
            ),
            final(self).recorded().last().status == status,
            final(self).recorded().last().duration == duration,
            final(self).flying() + final(self).recorded().len() == old(self).flying() + old(
                self,
            ).recorded().len(),
    {
        self.recorder.record(
            MirrorObservation {
                telemetry: flight.telemetry,
                decision: flight.decision,
                status,
                duration,
            },
        );
        self.in_flight -= 1;
    }
}

/// The status of a mirrored request that ended: in time or not, and with an error or without.
pub fn finished_status(in_time: bool, failed: bool) -> (r: MirrorTaskStatus)
    ensures
        r == if !in_time {
            MirrorTaskStatus::TimedOut
        } else if failed {
            MirrorTaskStatus::Error
        } else {
            MirrorTaskStatus::Completed
        },
        r is Completed <==> in_time && !failed,
        r is TimedOut <==> !in_time,
        r is Error <==> in_time && failed,
{
    if !in_time {
        MirrorTaskStatus::TimedOut
    } else if failed {
        MirrorTaskStatus::Error
    } else {
        MirrorTaskStatus::Completed
    }
}

// ---------------------------------------------------------------------------
// A mirror's answers
// ---------------------------------------------------------------------------

/// What a request for authentication asks for: its code, where it has one.
pub open spec fn request_code(payload: Seq<u8>) -> Option<int> {
    if payload.len() >= 4 {
        Some(be_at(payload, 0))
    } else {
        None
    }
}

/// Whether a client has to answer a request for authentication with a code.
pub open spec fn code_wants_answer(code: int) -> bool {
    code == 3 || 5 <= code <= 11
}

/// What a request for authentication asks for.
pub fn auth_request_code(payload: &[u8]) -> (r: Result<i32, String>)
    ensures
        match r {
            Ok(code) => request_code(payload@) == Some(code as int),
            Err(message) => request_code(payload@) is None && message@
                == "authentication request missing code"@,
        },
{
    if payload.len() < 4 {
        return Err("authentication request missing code".to_owned());
    }
    Ok(read_be32(payload, 0))
}

/// Whether a client has to answer a request for authentication.
pub fn auth_request_expects_client_response(payload: &[u8]) -> (r: Result<bool, String>)
    ensures
        match r {
            Ok(wants) => request_code(payload@) is Some && wants == code_wants_answer(
                request_code(payload@)->0,
            ),
            Err(message) => request_code(payload@) is None && message@
                == "authentication request missing code"@,
        },
{
    match auth_request_code(payload) {
        Ok(code) => Ok(code == 3 || (5 <= code && code <= 11)),
        Err(message) => Err(message),
    }
}

/// What a mirror's answer comes to.
pub enum MirrorScan {
    /// More has to be read.
    More,
    /// The mirror is ready.
    Ready,
    /// A request for authentication holds no code.
    NoCode,
    /// The mirror wants a password.
    WantsPassword,
    /// The mirror reports an error.
    Failed,
    /// A message's length is wrong.
    Invalid(int),
}

/// What one message of a mirror comes to; nothing where the next one is to be looked at.
pub open spec fn message_verdict(frame: Frame) -> Option<MirrorScan> {
    if frame.tag == BackendTag::Authentication.byte() {
        match request_code(frame.payload) {
            None => Some(MirrorScan::NoCode),
            Some(code) => if code_wants_answer(code) {
                Some(MirrorScan::WantsPassword)
            } else {
                None
            },
        }
    } else if frame.tag == BackendTag::ErrorResponse.byte() {
        Some(MirrorScan::Failed)
    } else if frame.tag == BackendTag::ReadyForQuery.byte() {
        Some(MirrorScan::Ready)
    } else {
        None
    }
}

/// What some bytes of a mirror come to: the first message that says anything decides.
pub open spec fn mirror_scan(bytes: Seq<u8>) -> MirrorScan
    decreases bytes.len(),
{
    match scan_frame(bytes) {
        FrameScan::Incomplete => MirrorScan::More,
        FrameScan::Invalid(length) => MirrorScan::Invalid(length),
        FrameScan::Complete(size) => if 0 < size <= bytes.len() {
            match message_verdict(frame_of(bytes, size)) {
                Some(verdict) => verdict,
                None => mirror_scan(bytes.skip(size)),
            }
        } else {
            MirrorScan::More
        },
    }
}

/// What is left of some bytes of a mirror once they were looked at: what follows the first message
/// that says anything, and where none does, what follows the whole messages.
pub open spec fn mirror_left(bytes: Seq<u8>) -> Seq<u8>
    decreases bytes.len(),
{
    match scan_frame(bytes) {
        FrameScan::Complete(size) => if 0 < size <= bytes.len() {
            match message_verdict(frame_of(bytes, size)) {
                Some(_) => bytes.skip(size),
                None => mirror_left(bytes.skip(size)),
            }
        } else {
            bytes
        },
        _ => bytes,
    }
}

/// Where no message says anything, the whole messages are used up and what has come of the next
/// one is kept.
pub proof fn law_incomplete_message_kept(bytes: Seq<u8>)
    requires
        mirror_scan(bytes) is More,
    ensures
        mirror_left(bytes) == after_frames(bytes),
    decreases bytes.len(),
{
    match scan_frame(bytes) {
        FrameScan::Complete(size) => {
            if 0 < size <= bytes.len() {
                law_incomplete_message_kept(bytes.skip(size));
            }
        },
        _ => {},
    }
}

/// What is said of a mirror that cannot be used; nothing where it is ready or more is to be read.
pub open spec fn mirror_complaint(scan: MirrorScan, context: Seq<char>) -> Option<Seq<char>> {
    match scan {
        MirrorScan::More | MirrorScan::Ready => None,
        MirrorScan::NoCode => Some("authentication request missing code"@),
        MirrorScan::WantsPassword => Some(context + " backend requires client authentication"@),
        MirrorScan::Failed => Some(context + " backend returned error"@),
        MirrorScan::Invalid(length) => Some(invalid_length_text(length)),
    }
}

/// Whether another read may follow: the bytes that are held have not reached the limit.
pub fn check_mirror_room(buffered: usize, context: &str) -> (r: Result<(), String>)
    ensures
        match r {
            Ok(()) => buffered < DEFAULT_MIRROR_BUFFER_BYTES,
            Err(message) => buffered >= DEFAULT_MIRROR_BUFFER_BYTES && message@ == context@
                + " buffer limit exceeded"@,
        },
{
    if buffered >= DEFAULT_MIRROR_BUFFER_BYTES {
        Err(join2(context, " buffer limit exceeded"))
    } else {
        Ok(())
    }
}

/// Looks at what has been read of a mirror's answer, of which the last read brought `read` bytes:
/// whether the mirror is ready, or more has to be read.
pub fn drain_mirror_bytes(buffer: &mut bytes::BytesMut, read: usize, context: &str) -> (r: Result<
    bool,
    String,
>)
    ensures
        ({
            let bytes = buffer_bytes(*old(buffer));
            let scan = mirror_scan(bytes);
            match r {
                Ok(ready) => read > 0 && bytes.len() <= DEFAULT_MIRROR_BUFFER_BYTES
                    && mirror_complaint(scan, context@) is None && ready == (scan is Ready),
                Err(message) => if read == 0 {
                    message@ == context@ + " backend disconnected"@
                } else if bytes.len() > DEFAULT_MIRROR_BUFFER_BYTES {
                    message@ == context@ + " buffer limit exceeded"@
                } else {
                    mirror_complaint(scan, context@) == Some(message@)
                },
            }
        }),
        ({
            let bytes = buffer_bytes(*old(buffer));
            buffer_bytes(*final(buffer)) == if read == 0 || bytes.len()
                > DEFAULT_MIRROR_BUFFER_BYTES {
                bytes
            } else {
                mirror_left(bytes)
            }
        }),
        r matches Ok(ready) && !ready ==> buffer_bytes(*final(buffer)) == after_frames(
            buffer_bytes(*old(buffer)),
        ),
{
    if read == 0 {
        return Err(join2(context, " backend disconnected"));
    }
    if crate::buffer::buffer_len(buffer) > DEFAULT_MIRROR_BUFFER_BYTES {
        return Err(join2(context, " buffer limit exceeded"));
    }
    loop
        invariant
            mirror_scan(buffer_bytes(*buffer)) == mirror_scan(buffer_bytes(*old(buffer))),
            mirror_left(buffer_bytes(*buffer)) == mirror_left(buffer_bytes(*old(buffer))),
            buffer_bytes(*old(buffer)).len() <= DEFAULT_MIRROR_BUFFER_BYTES,
            read > 0,
        decreases buffer_bytes(*buffer).len(),
    {
        match parse_backend_frame(buffer) {
            Err(error) => {
                return Err(error.message());
            },
            Ok(None) => {
                proof {
                    law_incomplete_message_kept(buffer_bytes(*old(buffer)));
                }
                return Ok(false);
            },
            Ok(Some(frame)) => {
                if frame.tag == BackendTag::Authentication.as_byte() {
                    match auth_request_expects_client_response(frozen_slice(&frame.payload)) {
                        Err(message) => {
                            return Err(message);
                        },
                        Ok(wants) => {
                            if wants {
                                return Err(
                                    join2(context, " backend requires client authentication"),
                                );
                            }
                        },
                    }
                } else if frame.tag == BackendTag::ErrorResponse.as_byte() {
                    return Err(join2(context, " backend returned error"));
                } else if frame.tag == BackendTag::ReadyForQuery.as_byte() {
                    return Ok(true);
                }
            },
        }
    }
}

/// What one message of a mirror means, by the byte that it begins with: a request for a login (`R`)
/// that wants an answer ends the mirroring, as an error (`E`) does; a `ReadyForQuery` (`Z`) ends the
/// answer; every other message is passed over.
pub proof fn law_mirror_answer_by_tag(frame: Frame)
    ensures
        ({
            let verdict = message_verdict(frame);
            let code = be_at(frame.payload, 0);
            &&& verdict == Some(MirrorScan::Ready) <==> frame.tag == 90u8
            &&& verdict == Some(MirrorScan::Failed) <==> frame.tag == 69u8
            &&& verdict == Some(MirrorScan::NoCode) <==> frame.tag == 82u8 && frame.payload.len() < 4
            &&& verdict == Some(MirrorScan::WantsPassword) <==> frame.tag == 82u8
                && frame.payload.len() >= 4 && (code == 3 || code == 5 || code == 6 || code == 7
                || code == 8 || code == 9 || code == 10 || code == 11)
            &&& verdict is None <==> frame.tag != 90u8 && frame.tag != 69u8 && (frame.tag != 82u8 || (
            frame.payload.len() >= 4 && code != 3 && !(5 <= code <= 11)))
        }),
{
}

/// The first message that means anything decides, and what stands behind it is kept.
pub proof fn law_first_mirror_answer_decides(frame: Frame, rest: Seq<u8>)
    requires
        frame.payload.len() + 4 <= i32::MAX,
    ensures
        message_verdict(frame) matches Some(verdict) ==> mirror_scan(frame.encoded() + rest)
            == verdict && mirror_left(frame.encoded() + rest) == rest,
        message_verdict(frame) is None ==> mirror_scan(frame.encoded() + rest) == mirror_scan(rest)
            && mirror_left(frame.encoded() + rest) == mirror_left(rest),
{
    crate::wire::law_frame_round_trip(frame, rest);
}

/// What becomes of a request that is not mirrored is recorded with the reason that was given.
pub proof fn law_status_follows_decision(decision: MirrorDecision)
    ensures
        decision.outcome is Mirrored ==> status_of(decision) is Completed,
        decision.outcome is Skipped ==> status_of(decision) is Skipped
            && status_of(decision)->Skipped_reason == decision.reason->0,
        decision.outcome is Rejected ==> status_of(decision) is Rejected
            && status_of(decision)->Rejected_reason == decision.reason->0,
{
}

/// Where a request falls in the sample depends on its session, its number and the seed alone, mixed
/// by the finalizer of SplitMix64 and cut to 53 bits.
pub proof fn law_sample_place(sampler: MirrorSampler, session_id: u64, query_id: u64)
    ensures
        ({
            let start = sampler.start() ^ ((session_id << 17) | (session_id >> 47)) ^ ((query_id
                << 41) | (query_id >> 23));
            let a = vstd::wrapping::u64_specs::wrapping_add(start, 0x9E37_79B9_7F4A_7C15);
            let b = vstd::wrapping::u64_specs::wrapping_mul(a ^ (a >> 30), 0xBF58_476D_1CE4_E5B9);
            let c = vstd::wrapping::u64_specs::wrapping_mul(b ^ (b >> 27), 0x94D0_49BB_1331_11EB);
            sampler.place(session_id, query_id) == (c ^ (c >> 31)) >> 11
        }),
{
}

/// What ends the mirroring with an error is told with its context.
pub proof fn law_mirror_errors(scan: MirrorScan, context: Seq<char>)
    ensures
        mirror_complaint(scan, context) is None <==> scan is More || scan is Ready,
        scan is WantsPassword ==> mirror_complaint(scan, context) == Some(
            context + " backend requires client authentication"@,
        ),
        scan is Failed ==> mirror_complaint(scan, context) == Some(
            context + " backend returned error"@,
        ),
{
}

} // verus!
