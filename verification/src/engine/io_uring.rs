//! The engine on top of `io_uring`: which settings it supports, and how its shards start and stop.
use vstd::prelude::*;

use crate::address::SocketAddress;
use crate::clock::Duration;
use crate::config::{
    BackendTlsMode, ClientTlsMode, Config, FreshnessConfig, HaConfig, ReadRoutingConfig,
    RouteConfig,
};
use crate::text::join2;

verus! {

/// What is wrong with the only route, for this engine.
pub open spec fn route_complaint(route: RouteConfig) -> Option<Seq<char>> {
    if route.replicas@.len() > 0 {
        Some("experimental_io_uring currently rejects replicas until route selection exists"@)
    } else if !route.read_routing.is_default() {
        Some("experimental_io_uring currently rejects read routing until route selection exists"@)
    } else if !route.freshness.is_default() {
        Some(
            "experimental_io_uring currently rejects freshness policy until route selection exists"@,
        )
    } else if !route.ha.is_default() {
        Some("experimental_io_uring currently rejects route HA until route selection exists"@)
    } else if route.primary.tls_mode != BackendTlsMode::Disable {
        Some("experimental_io_uring currently requires route primary tls_mode=disable"@)
    } else {
        None
    }
}

/// The only server that there is, or why this engine does not support the routes.
pub open spec fn only_backend(config: Config) -> Result<SocketAddress, Seq<char>> {
    if config.routes@.len() == 0 {
        Ok(config.connection.backend_addr)
    } else if config.routes@.len() > 1 {
        Err("experimental_io_uring currently requires a single primary route"@)
    } else {
        match route_complaint(config.routes@[0]) {
            Some(message) => Err(message),
            None => Ok(config.routes@[0].primary.address),
        }
    }
}

/// The first thing in the settings that this engine does not support.
pub open spec fn unsupported_setting(config: Config) -> Option<Seq<char>> {
    if config.tls.client_tls_mode != ClientTlsMode::Disable {
        Some("experimental_io_uring currently requires client_tls_mode=disable"@)
    } else if config.tls.backend_tls_mode != BackendTlsMode::Disable {
        Some("experimental_io_uring currently requires backend_tls_mode=disable"@)
    } else {
        match only_backend(config) {
            Ok(_) => None,
            Err(message) => Some(message),
        }
    }
}

fn check_route(route: &RouteConfig) -> (r: Result<(), String>)
    ensures
        match r {
            Ok(()) => route_complaint(*route) is None,
            Err(message) => route_complaint(*route) == Some(message@),
        },
{
    if route.replicas.len() > 0 {
        return Err(
            "experimental_io_uring currently rejects replicas until route selection exists".to_owned(),
        );
    }
    if route.read_routing != ReadRoutingConfig::default() {
        return Err(
            "experimental_io_uring currently rejects read routing until route selection exists".to_owned(),
        );
    }
    if route.freshness != FreshnessConfig::default() {
        return Err(
            "experimental_io_uring currently rejects freshness policy until route selection exists".to_owned(),
        );
    }
    if route.ha != HaConfig::default() {
        return Err(
            "experimental_io_uring currently rejects route HA until route selection exists".to_owned(),
        );
    }
    if route.primary.tls_mode != BackendTlsMode::Disable {
        return Err(
            "experimental_io_uring currently requires route primary tls_mode=disable".to_owned(),
        );
    }
    Ok(())
}

/// The only server that there is.
pub fn direct_backend_addr(config: &Config) -> (r: Result<SocketAddress, String>)
    ensures
        match r {
            Ok(address) => only_backend(*config) == Ok::<SocketAddress, Seq<char>>(address),
            Err(message) => only_backend(*config) == Err::<SocketAddress, Seq<char>>(message@),
        },
{
    let routes = config.effective_routes();
    if routes.len() != 1 {
        return Err(
            "experimental_io_uring currently requires a single primary route".to_owned(),
        );
    }
    match check_route(&routes[0]) {
        Ok(()) => Ok(routes[0].primary.address),
        Err(message) => Err(message),
    }
}

/// Checks that this engine supports the settings: plain connections to one server.
pub fn validate_supported_config(config: &Config) -> (r: Result<(), String>)
    ensures
        match r {
            Ok(()) => unsupported_setting(*config) is None,
            Err(message) => unsupported_setting(*config) == Some(message@),
        },
{
    if config.tls.client_tls_mode != ClientTlsMode::Disable {
        return Err(
            "experimental_io_uring currently requires client_tls_mode=disable".to_owned(),
        );
    }
    if config.tls.backend_tls_mode != BackendTlsMode::Disable {
        return Err(
            "experimental_io_uring currently requires backend_tls_mode=disable".to_owned(),
        );
    }
    match direct_backend_addr(config) {
        Ok(_) => Ok(()),
        Err(message) => Err(message),
    }
}

/// The settings that a process starts with are supported.
pub proof fn law_defaults_supported(config: Config)
    requires
        config.is_default(),
    ensures
        unsupported_setting(config) is None,
        only_backend(config) == Ok::<SocketAddress, Seq<char>>(config.connection.backend_addr),
{
}

/// The same check as [`validate_supported_config`], for those who try settings out.
pub fn validate_supported_config_for_test(config: &Config) -> (r: Result<(), String>)
    ensures
        match r {
            Ok(()) => unsupported_setting(*config) is None,
            Err(message) => unsupported_setting(*config) == Some(message@),
        },
{
    validate_supported_config(config)
}

/// The same as [`direct_backend_addr`], for those who try settings out.
pub fn direct_backend_addr_for_test(config: &Config) -> (r: Result<SocketAddress, String>)
    ensures
        match r {
            Ok(address) => only_backend(*config) == Ok::<SocketAddress, Seq<char>>(address),
            Err(message) => only_backend(*config) == Err::<SocketAddress, Seq<char>>(message@),
        },
{
    direct_backend_addr(config)
}

/// What this engine's sessions are made of.
#[derive(Clone, Copy, Debug, PartialEq, Eq)]
pub struct IoUringSessionLifecycleSummary {
    pub client_transport: &'static str,
    pub backend_checkout: &'static str,
    pub session_lifecycle: &'static str,
}

/// What this engine's sessions are made of, where it supports the settings.
pub fn session_lifecycle_summary_for_test(config: &Config) -> (r: Result<
    IoUringSessionLifecycleSummary,
    String,
>)
    ensures
        match r {
            Ok(summary) => unsupported_setting(*config) is None && summary.client_transport@
                == "monoio"@ && summary.backend_checkout@ == "shared_pool"@
                && summary.session_lifecycle@ == "shared_proxy"@,
            Err(message) => unsupported_setting(*config) == Some(message@),
        },
{
    match validate_supported_config(config) {
        Err(message) => Err(message),
        Ok(()) => Ok(
            IoUringSessionLifecycleSummary {
                client_transport: "monoio",
                backend_checkout: "shared_pool",
                session_lifecycle: "shared_proxy",
            },
        ),
    }
}

// ---------------------------------------------------------------------------
// Shards
// ---------------------------------------------------------------------------

/// How many shards there are: as many as the settings say, or as the machine can run at once.
pub fn shard_count(configured: Option<usize>, parallelism: Option<usize>) -> (r: usize)
    ensures
        r == match configured {
            Some(count) => count,
            None => match parallelism {
                Some(count) => count,
                None => 1,
            },
        },
{
    match configured {
        Some(count) => count,
        None => match parallelism {
            Some(count) => count,
            None => 1,
        },
    }
}

/// How many connections wake the shards that wait for clients.
pub fn wake_attempts(shard_count: usize) -> (r: usize)
    ensures
        r == if shard_count * 16 <= usize::MAX {
            (shard_count * 16) as usize
        } else {
            usize::MAX
        },
{
    match shard_count.checked_mul(16) {
        Some(count) => count,
        None => usize::MAX,
    }
}

/// What came while the shards start.
#[derive(Clone, Debug)]
pub enum ShardEvent {
    /// A shard is ready.
    Ready,
    /// A shard cannot start.
    Failed(String),
    /// No shard was heard of in time.
    TimedOut,
    /// No shard is left that could be heard of.
    Disconnected,
}

/// Why the shards do not start, if this is why. `grace` is how long was waited.
pub open spec fn shard_complaint(event: ShardEvent, grace: Seq<char>) -> Option<Seq<char>> {
    match event {
        ShardEvent::Ready => None,
        ShardEvent::Failed(error) => Some("io_uring shard startup failed: "@ + error@),
        ShardEvent::TimedOut => Some("io_uring shard startup timed out after "@ + grace),
        ShardEvent::Disconnected => Some(
            "io_uring shard startup channel closed before all shards were ready"@,
        ),
    }
}

/// The shards that are still to start.
#[derive(Debug)]
pub struct ShardStartup {
    left: usize,
}

impl ShardStartup {
    /// How many shards are still to start.
    pub closed spec fn waiting(self) -> nat {
        self.left as nat
    }

    /// Some shards are to start.
    pub fn new(shard_count: usize) -> (r: ShardStartup)
        ensures
            r.waiting() == shard_count,
    {
        ShardStartup { left: shard_count }
    }

    /// Whether every shard has started.
    pub fn is_done(&self) -> (r: bool)
        ensures
            r == (self.waiting() == 0),
    {
        self.left == 0
    }

    /// Takes what came while the shards start.
    pub fn accept(&mut self, event: &ShardEvent, grace: &str) -> (r: Result<(), String>)
        requires
            old(self).waiting() > 0,
        ensures
            match r {
                Ok(()) => shard_complaint(*event, grace@) is None && final(self).waiting()
                    == old(self).waiting() - 1,
                Err(message) => shard_complaint(*event, grace@) == Some(message@) && final(self).waiting()
                    == old(self).waiting(),
            },
    {
        match event {
            ShardEvent::Ready => {
                self.left -= 1;
                Ok(())
            },
            ShardEvent::Failed(error) => Err(
                join2("io_uring shard startup failed: ", error.as_str()),
            ),
            ShardEvent::TimedOut => Err(join2("io_uring shard startup timed out after ", grace)),
            ShardEvent::Disconnected => Err(
                "io_uring shard startup channel closed before all shards were ready".to_owned(),
            ),
        }
    }
}

/// How many shards are still to start after some events, or what stopped the start.
pub open spec fn startup_after(
    left: nat,
    events: Seq<ShardEvent>,
    grace: Seq<char>,
) -> Result<nat, Seq<char>>
    decreases events.len(),
{
    if events.len() == 0 {
        Ok(left)
    } else {
        match startup_after(left, events.drop_last(), grace) {
            Err(message) => Err(message),
            Ok(waiting) => match shard_complaint(events.last(), grace) {
                Some(message) => Err(message),
                None => Ok((waiting - 1) as nat),
            },
        }
    }
}

/// The engine starts once every shard has said that it is ready, and not before; one shard that
/// does not say so stops the start.
pub proof fn law_every_shard_is_waited_for(left: nat, events: Seq<ShardEvent>, grace: Seq<char>)
    requires
        events.len() <= left,
    ensures
        startup_after(left, events, grace) is Ok <==> (forall|i: int|
            0 <= i < events.len() ==> (#[trigger] events[i]) is Ready),
        startup_after(left, events, grace) matches Ok(waiting) ==> waiting == left - events.len(),
    decreases events.len(),
{
    if events.len() > 0 {
        let front = events.drop_last();
        law_every_shard_is_waited_for(left, front, grace);
        assert(events.last() == events[events.len() - 1]);
        if startup_after(left, events, grace) is Ok {
            assert forall|i: int| 0 <= i < events.len() implies (#[trigger] events[i]) is Ready by {
                if i < front.len() {
                    assert(front[i] == events[i]);
                }
            }
        } else if forall|i: int| 0 <= i < events.len() ==> (#[trigger] events[i]) is Ready {
            assert forall|i: int| 0 <= i < front.len() implies (#[trigger] front[i]) is Ready by {
                assert(front[i] == events[i]);
            }
        }
    }
}

/// Whether a shard goes on waiting for the sign to take clients.
pub fn waits_for_start(start_accepting: bool, stop: bool) -> (r: bool)
    ensures
        r == (!start_accepting && !stop),
{
    !start_accepting && !stop
}

/// What a shard does with a client that has come.
#[derive(Clone, Copy, Debug, PartialEq, Eq, Structural)]
pub enum AcceptStep {
    /// It serves the client.
    Serve,
    /// It lets the client go and waits for the next.
    Drop,
    /// It takes no more clients.
    Stop,
}

/// What a shard does with a client that has come, by whether it is to stop, whether sessions may
/// begin and whether there is room.
pub fn accept_step(stop: bool, may_enter: bool, has_room: bool) -> (r: AcceptStep)
    ensures
        r == if stop {
            AcceptStep::Stop
        } else if may_enter && has_room {
            AcceptStep::Serve
        } else {
            AcceptStep::Drop
        },
        r is Stop <==> stop,
        r is Serve <==> !stop && may_enter && has_room,
        r is Drop <==> !stop && !(may_enter && has_room),
{
    if stop {
        AcceptStep::Stop
    } else if may_enter && has_room {
        AcceptStep::Serve
    } else {
        AcceptStep::Drop
    }
}

/// What a shard that takes no more clients does about those that it still serves.
#[derive(Clone, Copy, Debug, PartialEq, Eq, Structural)]
pub enum SessionWait {
    /// None is left.
    Done,
    /// It has waited long enough.
    GiveUp,
    /// It waits on.
    Wait,
}

/// What a shard that takes no more clients does about those that it still serves.
pub fn session_wait(active_clients: usize, waited: &Duration, drain_timeout: &Duration) -> (r:
    SessionWait)
    ensures
        r == if active_clients == 0 {
            SessionWait::Done
        } else if waited@ >= drain_timeout@ {
            SessionWait::GiveUp
        } else {
            SessionWait::Wait
        },
        r is Done <==> active_clients == 0,
        r is GiveUp <==> active_clients > 0 && waited@ >= drain_timeout@,
        r is Wait <==> active_clients > 0 && waited@ < drain_timeout@,
{
    if active_clients == 0 {
        SessionWait::Done
    } else if !drain_timeout.longer_than(waited) {
        SessionWait::GiveUp
    } else {
        SessionWait::Wait
    }
}

/// What is said where this engine is asked for and was not built.
pub fn missing_engine_message() -> (r: &'static str)
    ensures
        r@ == "experimental_io_uring requires Linux and the pg-kinetic io-uring cargo feature"@,
{
    "experimental_io_uring requires Linux and the pg-kinetic io-uring cargo feature"
}

/// Settings are supported exactly where nothing is encrypted and there is one server to go to: no
/// route at all, or one with a primary alone and every other setting at its default.
pub proof fn law_supported_exactly_where(config: Config)
    ensures
        unsupported_setting(config) is None <==> {
            &&& config.tls.client_tls_mode is Disable
            &&& config.tls.backend_tls_mode is Disable
            &&& config.routes@.len() <= 1
            &&& config.routes@.len() == 1 ==> {
                let route = config.routes@[0];
                &&& route.replicas@.len() == 0
                &&& route.read_routing.read_routing_mode == crate::modes::ReadRoutingMode::Off
                &&& route.read_routing.fallback_policy == crate::modes::FallbackPolicy::Primary
                &&& route.freshness.freshness_policy
                    == crate::modes::FreshnessPolicy::SessionWriteLsn
                &&& route.freshness.max_replica_lag_ms == 1_000
                &&& route.freshness.read_after_write_timeout_ms == 500
                &&& route.ha.replica_health_interval_ms == 1_000
                &&& route.ha.replica_health_timeout_ms == 500
                &&& route.primary.tls_mode is Disable
            }
        },
        unsupported_setting(config) is None ==> only_backend(config) == Ok::<
            SocketAddress,
            Seq<char>,
        >(
            if config.routes@.len() == 1 {
                config.routes@[0].primary.address
            } else {
                config.connection.backend_addr
            },
        ),
{
}

/// The first shard that does not get ready ends the start, with what it says.
pub proof fn law_first_failure_is_told(
    left: nat,
    events: Seq<ShardEvent>,
    grace: Seq<char>,
    event: ShardEvent,
)
    ensures
        startup_after(left, events, grace) is Err ==> startup_after(left, events.push(event), grace)
            == startup_after(left, events, grace),
        startup_after(left, events, grace) is Ok ==> match event {
            ShardEvent::Ready => startup_after(left, events.push(event), grace) == Ok::<
                nat,
                Seq<char>,
            >((startup_after(left, events, grace)->Ok_0 - 1) as nat),
            ShardEvent::Failed(error) => startup_after(left, events.push(event), grace) == Err::<
                nat,
                Seq<char>,
            >("io_uring shard startup failed: "@ + error@),
            ShardEvent::TimedOut => startup_after(left, events.push(event), grace) == Err::<
                nat,
                Seq<char>,
            >("io_uring shard startup timed out after "@ + grace),
            ShardEvent::Disconnected => startup_after(left, events.push(event), grace) is Err,
        },
{
    assert(events.push(event).drop_last() =~= events);
}

} // verus!
