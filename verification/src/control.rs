//! The nodes of a cluster: what each reports of itself, and what the others know of it.
use vstd::prelude::*;

use crate::clock::Duration;
use crate::config::NodeId;
use crate::runtime::{ReadinessState, RuntimeLifecycleState};
use crate::text::same_text;

verus! {

/// How a node is doing.
#[derive(Clone, Copy, Debug, PartialEq, Eq, Structural)]
pub enum PeerHealth {
    Healthy,
    Degraded,
    Unavailable,
    Unknown,
}

impl PeerHealth {
    /// The name under which the value is written.
    pub open spec fn name(self) -> Seq<char> {
        match self {
            PeerHealth::Healthy => "healthy"@,
            PeerHealth::Degraded => "degraded"@,
            PeerHealth::Unavailable => "unavailable"@,
            PeerHealth::Unknown => "unknown"@,
        }
    }

    /// The name under which the value is written.
    pub fn as_str(self) -> (r: &'static str)
        ensures
            r@ == self.name(),
    {
        match self {
            PeerHealth::Healthy => "healthy",
            PeerHealth::Degraded => "degraded",
            PeerHealth::Unavailable => "unavailable",
            PeerHealth::Unknown => "unknown",
        }
    }

    /// What each value is written as.
    pub proof fn law_written_as(self)
        ensures
            self is Healthy ==> self.name() == "healthy"@,
            self is Degraded ==> self.name() == "degraded"@,
            self is Unavailable ==> self.name() == "unavailable"@,
            self is Unknown ==> self.name() == "unknown"@,
    {
    }

    /// No two values have the same name.
    pub proof fn law_names_differ(a: PeerHealth, b: PeerHealth)
        requires
            a.name() == b.name(),
        ensures
            a == b,
    {
        reveal_strlit("healthy");
        reveal_strlit("degraded");
        reveal_strlit("unavailable");
        reveal_strlit("unknown");
        assert("healthy"@.len() == 7 && "healthy"@[0] == 'h');
        assert("degraded"@.len() == 8 && "degraded"@[0] == 'd');
        assert("unavailable"@.len() == 11 && "unavailable"@[0] == 'u');
        assert("unknown"@.len() == 7 && "unknown"@[0] == 'u');
    }
}

/// What happened to a node.
#[derive(Clone, Copy, Debug, PartialEq, Eq, Structural)]
pub enum ControlEventKind {
    HeartbeatPublished,
    PeerHeartbeatObserved,
    PeerMarkedUnknown,
}

impl ControlEventKind {
    /// The name under which the value is written.
    pub open spec fn name(self) -> Seq<char> {
        match self {
            ControlEventKind::HeartbeatPublished => "heartbeat_published"@,
            ControlEventKind::PeerHeartbeatObserved => "peer_heartbeat_observed"@,
            ControlEventKind::PeerMarkedUnknown => "peer_marked_unknown"@,
        }
    }

    /// The name under which the value is written.
    pub fn as_str(self) -> (r: &'static str)
        ensures
            r@ == self.name(),
    {
        match self {
            ControlEventKind::HeartbeatPublished => "heartbeat_published",
            ControlEventKind::PeerHeartbeatObserved => "peer_heartbeat_observed",
            ControlEventKind::PeerMarkedUnknown => "peer_marked_unknown",
        }
    }

    /// What each value is written as.
    pub proof fn law_written_as(self)
        ensures
            self is HeartbeatPublished ==> self.name() == "heartbeat_published"@,
            self is PeerHeartbeatObserved ==> self.name() == "peer_heartbeat_observed"@,
            self is PeerMarkedUnknown ==> self.name() == "peer_marked_unknown"@,
    {
    }

    /// No two values have the same name.
    pub proof fn law_names_differ(a: ControlEventKind, b: ControlEventKind)
        requires
            a.name() == b.name(),
        ensures
            a == b,
    {
        reveal_strlit("heartbeat_published");
        reveal_strlit("peer_heartbeat_observed");
        reveal_strlit("peer_marked_unknown");
        assert("heartbeat_published"@.len() == 19 && "heartbeat_published"@[0] == 'h');
        assert("peer_heartbeat_observed"@.len() == 23 && "peer_heartbeat_observed"@[0] == 'p');
        assert("peer_marked_unknown"@.len() == 19 && "peer_marked_unknown"@[0] == 'p');
    }
}


/// How far a node has come.
#[derive(Clone, Copy, Debug, PartialEq, Eq, Structural)]
pub struct NodeLifecycleSummary {
    pub lifecycle_state: RuntimeLifecycleState,
    pub readiness_state: ReadinessState,
}

/// What a node reports of itself: its name, how far it has come and how it is doing.
#[derive(Clone, Debug, PartialEq, Eq)]
pub struct NodeStatus {
    pub node_id: NodeId,
    pub lifecycle: NodeLifecycleSummary,
    pub health: PeerHealth,
}

/// A node's report as plain values.
pub struct StatusFacts {
    pub node: Seq<char>,
    pub lifecycle: NodeLifecycleSummary,
    pub health: PeerHealth,
}

impl View for NodeStatus {
    type V = StatusFacts;

    open spec fn view(&self) -> StatusFacts {
        StatusFacts { node: self.node_id@, lifecycle: self.lifecycle, health: self.health }
    }
}

fn copy_id(id: &NodeId) -> (r: NodeId)
    ensures
        r@ == id@,
{
    NodeId::new(id.as_str())
}

impl NodeStatus {
    /// The same report once more.
    pub fn copied(&self) -> (r: NodeStatus)
        ensures
            r@ == self@,
    {
        NodeStatus {
            node_id: copy_id(&self.node_id),
            lifecycle: self.lifecycle,
            health: self.health,
        }
    }
}

/// A node's report and which of its reports it is.
#[derive(Clone, Debug, PartialEq, Eq)]
pub struct NodeHeartbeat {
    pub status: NodeStatus,
    pub generation: u64,
}

/// What is known of another node.
#[derive(Clone, Debug, PartialEq, Eq)]
pub struct PeerState {
    pub status: NodeStatus,
    pub heartbeat_generation: u64,
    pub unknown: bool,
}

/// What is known of another node, as plain values.
pub struct PeerFacts {
    pub status: StatusFacts,
    pub generation: u64,
    pub unknown: bool,
}

impl View for PeerState {
    type V = PeerFacts;

    open spec fn view(&self) -> PeerFacts {
        PeerFacts {
            status: self.status@,
            generation: self.heartbeat_generation,
            unknown: self.unknown,
        }
    }
}

impl PeerState {
    /// What is known of a node that was not heard of in time.
    pub fn unknown(status: NodeStatus, heartbeat_generation: u64) -> (r: PeerState)
        ensures
            r@ == (PeerFacts {
                status: status@,
                generation: heartbeat_generation,
                unknown: true,
            }),
    {
        PeerState { status, heartbeat_generation, unknown: true }
    }

    /// What is known of a node from its report.
    pub fn from_heartbeat(heartbeat: &NodeHeartbeat, unknown: bool) -> (r: PeerState)
        ensures
            r@ == (PeerFacts {
                status: heartbeat.status@,
                generation: heartbeat.generation,
                unknown,
            }),
    {
        PeerState {
            status: heartbeat.status.copied(),
            heartbeat_generation: heartbeat.generation,
            unknown,
        }
    }

    /// The same once more.
    pub fn copied(&self) -> (r: PeerState)
        ensures
            r@ == self@,
    {
        PeerState {
            status: self.status.copied(),
            heartbeat_generation: self.heartbeat_generation,
            unknown: self.unknown,
        }
    }
}

// ---------------------------------------------------------------------------
// Peers
// ---------------------------------------------------------------------------

/// Whether an entry is that of a node.
pub open spec fn entry_of(peers: Seq<PeerState>, node: Seq<char>, i: int) -> bool {
    0 <= i < peers.len() && peers[i]@.status.node == node
}

/// What is known of each node, where no node has two entries.
pub open spec fn peer_map(peers: Seq<PeerState>) -> Map<Seq<char>, PeerFacts> {
    Map::new(
        |node: Seq<char>| exists|i: int| #[trigger] entry_of(peers, node, i),
        |node: Seq<char>| peers[choose|i: int| #[trigger] entry_of(peers, node, i)]@,
    )
}

/// That no node has two entries.
pub open spec fn one_entry_each(peers: Seq<PeerState>) -> bool {
    forall|node: Seq<char>, i: int, j: int| #[trigger]
        entry_of(peers, node, i) && #[trigger] entry_of(peers, node, j) ==> i == j
}

/// What is known of the other nodes.
#[derive(Debug)]
pub struct PeerTable {
    peers: Vec<PeerState>,
}

impl View for PeerTable {
    type V = Map<Seq<char>, PeerFacts>;

    closed spec fn view(&self) -> Map<Seq<char>, PeerFacts> {
        peer_map(self.peers@)
    }
}

impl PeerTable {
    /// That no node has two entries.
    pub closed spec fn wf(self) -> bool {
        one_entry_each(self.peers@)
    }

    /// Nothing is known of any node.
    pub fn new() -> (r: PeerTable)
        ensures
            r.wf(),
            r@ == Map::<Seq<char>, PeerFacts>::empty(),
    {
        let table = PeerTable { peers: Vec::new() };
        assert(table@ =~= Map::<Seq<char>, PeerFacts>::empty());
        table
    }

    fn find(&self, node: &str) -> (r: Option<usize>)
        ensures
            match r {
                Some(i) => entry_of(self.peers@, node@, i as int),
                None => forall|i: int| !entry_of(self.peers@, node@, i),
            },
    {
        let mut i: usize = 0;
        while i < self.peers.len()
            invariant
                i <= self.peers@.len(),
                forall|j: int| 0 <= j < i ==> !entry_of(self.peers@, node@, j),
            decreases self.peers@.len() - i,
        {
            if same_text(self.peers[i].status.node_id.as_str(), node) {
                return Some(i);
            }
            i += 1;
        }
        None
    }

    /// What is known of a node.
    pub fn get(&self, node: &str) -> (r: Option<&PeerState>)
        requires
            self.wf(),
        ensures
            match r {
                Some(peer) => self@.dom().contains(node@) && peer@ == self@[node@],
                None => !self@.dom().contains(node@),
            },
    {
        match self.find(node) {
            Some(i) => Some(&self.peers[i]),
            None => None,
        }
    }

    /// Every node's entry, in the order in which the nodes became known.
    pub fn entries(&self) -> (r: &Vec<PeerState>)
        ensures
            peer_map(r@) == self@,
            self.wf() ==> one_entry_each(r@),
    {
        &self.peers
    }

    /// Keeps what is known of a node, in place of what was known before.
    pub fn insert(&mut self, peer: PeerState)
        requires
            old(self).wf(),
        ensures
            final(self).wf(),
            final(self)@ == old(self)@.insert(peer@.status.node, peer@),
    {
        let ghost before = self.peers@;
        let ghost node = peer@.status.node;
        let ghost mut at: int = 0;
        match self.find(peer.status.node_id.as_str()) {
            Some(i) => {
                self.peers.set(i, peer);
                proof {
                    at = i as int;
                    assert forall|other: Seq<char>, k: int| #[trigger]
                        entry_of(self.peers@, other, k) == entry_of(before, other, k) by {}
                }
            },
            None => {
                self.peers.push(peer);
                proof {
                    at = before.len() as int;
                    assert forall|other: Seq<char>, k: int| #[trigger]
                        entry_of(self.peers@, other, k) == (entry_of(before, other, k) || (k
                        == before.len() && other == node)) by {}
                }
            },
        }
        proof {
            let after = self.peers@;
            assert(entry_of(after, node, at) && after[at] == peer);
            let expected = peer_map(before).insert(node, peer@);
            assert forall|other: Seq<char>| #[trigger]
                peer_map(after).dom().contains(other) == expected.dom().contains(other) by {
                if peer_map(before).dom().contains(other) {
                    let k = choose|k: int| #[trigger] entry_of(before, other, k);
                    assert(entry_of(after, other, k));
                }
                if other == node {
                    assert(entry_of(after, other, at));
                }
            }
            assert forall|other: Seq<char>|
                expected.dom().contains(other) implies #[trigger] peer_map(after)[other]
                == expected[other] by {
                let k = choose|k: int| #[trigger] entry_of(after, other, k);
                assert(peer_map(after).dom().contains(other));
                assert(entry_of(after, other, k));
                if other != node {
                    let old_k = choose|k: int| #[trigger] entry_of(before, other, k);
                    assert(entry_of(after, other, old_k));
                    assert(k == old_k);
                }
            }
            assert(peer_map(after) =~= expected);
        }
    }

    /// The same once more.
    pub fn copied(&self) -> (r: PeerTable)
        requires
            self.wf(),
        ensures
            r.wf(),
            r@ == self@,
    {
        let mut peers: Vec<PeerState> = Vec::new();
        let mut i: usize = 0;
        while i < self.peers.len()
            invariant
                i <= self.peers@.len(),
                peers@.len() == i,
                forall|j: int| 0 <= j < i ==> (#[trigger] peers@[j])@ == self.peers@[j]@,
            decreases self.peers@.len() - i,
        {
            peers.push(self.peers[i].copied());
            i += 1;
        }
        let table = PeerTable { peers };
        proof {
            let a = self.peers@;
            let b = table.peers@;
            assert forall|node: Seq<char>, k: int| #[trigger] entry_of(b, node, k) == entry_of(
                a,
                node,
                k,
            ) by {}
            assert forall|node: Seq<char>| #[trigger]
                peer_map(b).dom().contains(node) == peer_map(a).dom().contains(node) by {
                if peer_map(a).dom().contains(node) {
                    let k = choose|k: int| #[trigger] entry_of(a, node, k);
                    assert(entry_of(b, node, k));
                }
            }
            assert forall|node: Seq<char>|
                peer_map(a).dom().contains(node) implies #[trigger] peer_map(b)[node]
                == peer_map(a)[node] by {
                let k = choose|k: int| #[trigger] entry_of(a, node, k);
                let m = choose|m: int| #[trigger] entry_of(b, node, m);
                assert(entry_of(b, node, k));
                assert(entry_of(b, node, m));
                assert(entry_of(a, node, m));
                assert(k == m);
            }
            assert(peer_map(b) =~= peer_map(a));
            assert(one_entry_each(b)) by {
                assert forall|node: Seq<char>, i: int, j: int| #[trigger]
                    entry_of(b, node, i) && #[trigger] entry_of(b, node, j) implies i == j by {
                    assert(entry_of(a, node, i));
                    assert(entry_of(a, node, j));
                }
            }
        }
        table
    }
}

/// What is known of the nodes in a list, where a later entry takes the place of an earlier one.
pub open spec fn latest_peers(peers: Seq<PeerState>) -> Map<Seq<char>, PeerFacts>
    decreases peers.len(),
{
    if peers.len() == 0 {
        Map::empty()
    } else {
        latest_peers(peers.drop_last()).insert(peers.last()@.status.node, peers.last()@)
    }
}

fn table_of(peers: &Vec<PeerState>) -> (r: PeerTable)
    ensures
        r.wf(),
        r@ == latest_peers(peers@),
{
    let mut table = PeerTable::new();
    let mut i: usize = 0;
    assert(peers@.take(0) =~= Seq::empty());
    while i < peers.len()
        invariant
            i <= peers@.len(),
            table.wf(),
            table@ == latest_peers(peers@.take(i as int)),
        decreases peers@.len() - i,
    {
        assert(peers@.take(i + 1).drop_last() =~= peers@.take(i as int));
        table.insert(peers[i].copied());
        i += 1;
    }
    assert(peers@.take(i as int) =~= peers@);
    table
}

// ---------------------------------------------------------------------------
// The cluster
// ---------------------------------------------------------------------------

/// The cluster as one node sees it.
#[derive(Debug)]
pub struct ClusterView {
    local: NodeStatus,
    peers: PeerTable,
    generation: u64,
}

/// The cluster as one node sees it, as plain values.
pub struct ClusterFacts {
    pub local: StatusFacts,
    pub peers: Map<Seq<char>, PeerFacts>,
    pub generation: u64,
}

impl View for ClusterView {
    type V = ClusterFacts;

    closed spec fn view(&self) -> ClusterFacts {
        ClusterFacts { local: self.local@, peers: self.peers@, generation: self.generation }
    }
}

impl ClusterView {
    /// That no node has two entries.
    pub closed spec fn wf(self) -> bool {
        self.peers.wf()
    }

    /// A node by itself.
    pub fn new(local: NodeStatus) -> (r: ClusterView)
        ensures
            r.wf(),
            r@ == (ClusterFacts { local: local@, peers: Map::empty(), generation: 0 }),
    {
        ClusterView { local, peers: PeerTable::new(), generation: 0 }
    }

    /// A node and others that it knows of.
    pub fn with_peers(local: NodeStatus, peers: &Vec<PeerState>) -> (r: ClusterView)
        ensures
            r.wf(),
            r@ == (ClusterFacts { local: local@, peers: latest_peers(peers@), generation: 0 }),
    {
        ClusterView { local, peers: table_of(peers), generation: 0 }
    }

    /// What the node reports of itself.
    pub fn local(&self) -> (r: &NodeStatus)
        ensures
            r@ == self@.local,
    {
        &self.local
    }

    /// What is known of the other nodes.
    pub fn peers(&self) -> (r: &PeerTable)
        requires
            self.wf(),
        ensures
            r.wf(),
            r@ == self@.peers,
    {
        &self.peers
    }

    /// How often the view has changed.
    pub fn generation(&self) -> (r: u64)
        ensures
            r == self@.generation,
    {
        self.generation
    }
}

/// A node's own name, and the nodes that it is told of from the start.
#[derive(Debug)]
pub struct NodeRegistry {
    local_node_id: NodeId,
    static_peers: PeerTable,
}

impl NodeRegistry {
    /// The node's own name.
    pub closed spec fn own(self) -> Seq<char> {
        self.local_node_id@
    }

    /// What is known of the nodes that it was told of.
    pub closed spec fn told(self) -> Map<Seq<char>, PeerFacts> {
        self.static_peers@
    }

    /// That no node has two entries.
    pub closed spec fn wf(self) -> bool {
        self.static_peers.wf()
    }

    /// A node that knows of no others.
    pub fn new(local_node_id: NodeId) -> (r: NodeRegistry)
        ensures
            r.wf(),
            r.own() == local_node_id@,
            r.told() == Map::<Seq<char>, PeerFacts>::empty(),
    {
        NodeRegistry { local_node_id, static_peers: PeerTable::new() }
    }

    /// A node that is told of some others. Where a name comes twice, the later entry holds.
    pub fn with_static_peers(local_node_id: NodeId, peers: &Vec<PeerState>) -> (r: NodeRegistry)
        ensures
            r.wf(),
            r.own() == local_node_id@,
            r.told() == latest_peers(peers@),
    {
        NodeRegistry { local_node_id, static_peers: table_of(peers) }
    }

    /// The node's own name.
    pub fn local_node_id(&self) -> (r: &NodeId)
        ensures
            r@ == self.own(),
    {
        &self.local_node_id
    }

    /// The node's own name, to keep.
    pub fn node_identity(&self) -> (r: NodeId)
        ensures
            r@ == self.own(),
    {
        copy_id(&self.local_node_id)
    }

    /// The cluster as the node sees it at the start.
    pub fn cluster_view(&self, local: NodeStatus) -> (r: ClusterView)
        requires
            self.wf(),
        ensures
            r.wf(),
            r@ == (ClusterFacts { local: local@, peers: self.told(), generation: 0 }),
    {
        ClusterView { local, peers: self.static_peers.copied(), generation: 0 }
    }
}

// ---------------------------------------------------------------------------
// Events
// ---------------------------------------------------------------------------

/// Something that happened to a node.
#[derive(Clone, Debug, PartialEq, Eq)]
pub struct ControlEvent {
    pub node_id: NodeId,
    pub generation: u64,
    pub kind: ControlEventKind,
}

/// Something that happened to a node, as plain values.
pub struct EventFacts {
    pub node: Seq<char>,
    pub generation: u64,
    pub kind: ControlEventKind,
}

impl View for ControlEvent {
    type V = EventFacts;

    open spec fn view(&self) -> EventFacts {
        EventFacts { node: self.node_id@, generation: self.generation, kind: self.kind }
    }
}

/// Events as plain values.
pub open spec fn event_facts(events: Seq<ControlEvent>) -> Seq<EventFacts> {
    events.map_values(|event: ControlEvent| event@)
}

/// The events that nobody has taken yet.
#[derive(Debug)]
pub struct LocalControlEventSink {
    events: Vec<ControlEvent>,
}

impl View for LocalControlEventSink {
    type V = Seq<EventFacts>;

    closed spec fn view(&self) -> Seq<EventFacts> {
        event_facts(self.events@)
    }
}

impl LocalControlEventSink {
    /// No events yet.
    pub fn new() -> (r: LocalControlEventSink)
        ensures
            r@ == Seq::<EventFacts>::empty(),
    {
        let sink = LocalControlEventSink { events: Vec::new() };
        assert(sink@ =~= Seq::<EventFacts>::empty());
        sink
    }

    /// Adds an event behind the others.
    pub fn publish(&mut self, event: ControlEvent)
        ensures
            final(self)@ == old(self)@.push(event@),
    {
        self.events.push(event);
        assert(self@ =~= old(self)@.push(event@));
    }

    /// Takes all events, the earliest first.
    pub fn drain(&mut self) -> (r: Vec<ControlEvent>)
        ensures
            event_facts(r@) == old(self)@,
            final(self)@ == Seq::<EventFacts>::empty(),
    {
        let mut events: Vec<ControlEvent> = Vec::new();
        events.append(&mut self.events);
        assert(event_facts(events@) =~= old(self)@);
        assert(self@ =~= Seq::<EventFacts>::empty());
        events
    }

    /// Events are kept by the node alone: no other has to agree.
    pub fn requires_consensus(&self) -> (r: bool)
        ensures
            !r,
    {
        false
    }
}

impl Default for LocalControlEventSink {
    fn default() -> (r: LocalControlEventSink)
        ensures
            r@ == Seq::<EventFacts>::empty(),
    {
        LocalControlEventSink::new()
    }
}

// ---------------------------------------------------------------------------
// Heartbeats
// ---------------------------------------------------------------------------

/// Reports a node's own state.
#[derive(Debug)]
pub struct HeartbeatPublisher {
    node_id: NodeId,
    generation: u64,
}

impl HeartbeatPublisher {
    /// The node that reports.
    pub closed spec fn own(self) -> Seq<char> {
        self.node_id@
    }

    /// How many reports there have been.
    pub closed spec fn reports(self) -> u64 {
        self.generation
    }

    /// A publisher that has reported nothing yet.
    pub fn new(registry: &NodeRegistry) -> (r: HeartbeatPublisher)
        ensures
            r.own() == registry.own(),
            r.reports() == 0,
    {
        HeartbeatPublisher { node_id: registry.node_identity(), generation: 0 }
    }

    /// Reports the node's state, under the next number, and says so.
    pub fn publish(
        &mut self,
        sink: &mut LocalControlEventSink,
        lifecycle: NodeLifecycleSummary,
        health: PeerHealth,
    ) -> (r: NodeHeartbeat)
        requires
            old(self).reports() < u64::MAX,
        ensures
            r.status@ == (StatusFacts { node: old(self).own(), lifecycle, health }),
            r.generation == old(self).reports() + 1,
            final(self).own() == old(self).own(),
            final(self).reports() == old(self).reports() + 1,
            final(sink)@ == old(sink)@.push(
                EventFacts {
                    node: old(self).own(),
                    generation: r.generation,
                    kind: ControlEventKind::HeartbeatPublished,
                },
            ),
    {
        self.generation += 1;
        let generation = self.generation;
        let status = NodeStatus { node_id: copy_id(&self.node_id), lifecycle, health };
        sink.publish(
            ControlEvent {
                node_id: copy_id(&self.node_id),
                generation,
                kind: ControlEventKind::HeartbeatPublished,
            },
        );
        NodeHeartbeat { status, generation }
    }
}

/// Keeps the cluster as a node sees it.
#[derive(Debug)]
pub struct ClusterViewStore {
    view: ClusterView,
}

impl View for ClusterViewStore {
    type V = ClusterFacts;

    closed spec fn view(&self) -> ClusterFacts {
        self.view@
    }
}

impl ClusterViewStore {
    /// That no node has two entries.
    pub closed spec fn wf(self) -> bool {
        self.view.wf()
    }

    /// A node by itself.
    pub fn new(local: NodeStatus) -> (r: ClusterViewStore)
        ensures
            r.wf(),
            r@ == (ClusterFacts { local: local@, peers: Map::empty(), generation: 0 }),
    {
        ClusterViewStore { view: ClusterView::new(local) }
    }

    /// A node and others that it knows of.
    pub fn with_peers(local: NodeStatus, peers: &Vec<PeerState>) -> (r: ClusterViewStore)
        ensures
            r.wf(),
            r@ == (ClusterFacts { local: local@, peers: latest_peers(peers@), generation: 0 }),
    {
        ClusterViewStore { view: ClusterView::with_peers(local, peers) }
    }

    /// The cluster as the node sees it.
    pub fn snapshot(&self) -> (r: &ClusterView)
        requires
            self.wf(),
        ensures
            r.wf(),
            r@ == self@,
    {
        &self.view
    }

    /// Takes the node's own new report.
    pub fn set_local(&mut self, local: NodeStatus)
        requires
            old(self).wf(),
            old(self)@.generation < u64::MAX,
        ensures
            final(self).wf(),
            final(self)@ == (ClusterFacts {
                local: local@,
                peers: old(self)@.peers,
                generation: (old(self)@.generation + 1) as u64,
            }),
    {
        self.view.local = local;
        self.view.generation += 1;
    }

    /// Takes what is newly known of another node.
    pub fn observe_peer(&mut self, peer: PeerState)
        requires
            old(self).wf(),
            old(self)@.generation < u64::MAX,
        ensures
            final(self).wf(),
            final(self)@ == (ClusterFacts {
                local: old(self)@.local,
                peers: old(self)@.peers.insert(peer@.status.node, peer@),
                generation: (old(self)@.generation + 1) as u64,
            }),
    {
        self.view.peers.insert(peer);
        self.view.generation += 1;
    }

    /// Notes that a node has not been heard of in time, where the node is known at all.
    pub fn mark_peer_unknown(&mut self, node_id: &NodeId, heartbeat_generation: u64) -> (r: bool)
        requires
            old(self).wf(),
            old(self)@.generation < u64::MAX,
        ensures
            final(self).wf(),
            r == old(self)@.peers.dom().contains(node_id@),
            r ==> final(self)@ == (ClusterFacts {
                local: old(self)@.local,
                peers: old(self)@.peers.insert(
                    node_id@,
                    PeerFacts {
                        generation: heartbeat_generation,
                        unknown: true,
                        status: old(self)@.peers[node_id@].status,
                    },
                ),
                generation: (old(self)@.generation + 1) as u64,
            }),
            !r ==> final(self)@ == old(self)@,
    {
        proof {
            lemma_entries_by_name(self.view.peers);
        }
        let status = match self.view.peers.get(node_id.as_str()) {
            Some(existing) => existing.status.copied(),
            None => {
                return false;
            },
        };
        let peer = PeerState::unknown(status, heartbeat_generation);
        self.view.peers.insert(peer);
        self.view.generation += 1;
        true
    }
}

proof fn lemma_entries_by_name(table: PeerTable)
    requires
        table.wf(),
    ensures
        forall|node: Seq<char>|
            table@.dom().contains(node) ==> (#[trigger] table@[node]).status.node == node,
{
    assert forall|node: Seq<char>| table@.dom().contains(node) implies (
    #[trigger] table@[node]).status.node == node by {
        let i = choose|i: int| #[trigger] entry_of(table.peers@, node, i);
        assert(entry_of(table.peers@, node, i));
    }
}

/// Listens for the reports of other nodes.
#[derive(Clone, Copy, Debug)]
pub struct HeartbeatObserver {
    stale_after: Duration,
}

impl HeartbeatObserver {
    /// How old a report may be.
    pub closed spec fn limit(self) -> nat {
        self.stale_after@
    }

    /// An observer that takes reports up to some age.
    pub fn new(stale_after: Duration) -> (r: HeartbeatObserver)
        ensures
            r.limit() == stale_after@,
    {
        HeartbeatObserver { stale_after }
    }

    /// Takes a report of some age: a node whose report is too old counts as unknown.
    pub fn observe(
        &self,
        store: &mut ClusterViewStore,
        sink: &mut LocalControlEventSink,
        heartbeat: NodeHeartbeat,
        age: Duration,
    ) -> (r: PeerState)
        requires
            old(store).wf(),
            old(store)@.generation < u64::MAX,
        ensures
            r@ == (PeerFacts {
                status: heartbeat.status@,
                generation: heartbeat.generation,
                unknown: age@ >= self.limit(),
            }),
            final(store).wf(),
            final(store)@ == (ClusterFacts {
                local: old(store)@.local,
                peers: old(store)@.peers.insert(heartbeat.status@.node, r@),
                generation: (old(store)@.generation + 1) as u64,
            }),
            final(sink)@ == old(sink)@.push(
                EventFacts {
                    node: heartbeat.status@.node,
                    generation: heartbeat.generation,
                    kind: if age@ >= self.limit() {
                        ControlEventKind::PeerMarkedUnknown
                    } else {
                        ControlEventKind::PeerHeartbeatObserved
                    },
                },
            ),
            r@.unknown <==> self.limit() <= age@,
            final(sink)@.last().kind is PeerMarkedUnknown <==> r@.unknown,
            final(store)@.peers[heartbeat.status@.node].generation == heartbeat.generation,
    {
        let stale = !self.stale_after.longer_than(&age);
        let peer = PeerState::from_heartbeat(&heartbeat, stale);
        store.observe_peer(peer.copied());
        sink.publish(
            ControlEvent {
                node_id: copy_id(&heartbeat.status.node_id),
                generation: heartbeat.generation,
                kind: if stale {
                    ControlEventKind::PeerMarkedUnknown
                } else {
                    ControlEventKind::PeerHeartbeatObserved
                },
            },
        );
        peer
    }

    /// Notes that a node has not been heard of in time, and says so where the node is known.
    pub fn mark_stale(
        &self,
        store: &mut ClusterViewStore,
        sink: &mut LocalControlEventSink,
        node_id: &NodeId,
        heartbeat_generation: u64,
    ) -> (r: bool)
        requires
            old(store).wf(),
            old(store)@.generation < u64::MAX,
        ensures
            final(store).wf(),
            r == old(store)@.peers.dom().contains(node_id@),
            r ==> final(store)@ == (ClusterFacts {
                local: old(store)@.local,
                peers: old(store)@.peers.insert(
                    node_id@,
                    PeerFacts {
                        generation: heartbeat_generation,
                        unknown: true,
                        status: old(store)@.peers[node_id@].status,
                    },
                ),
                generation: (old(store)@.generation + 1) as u64,
            }),
            !r ==> final(store)@ == old(store)@,
            final(sink)@ == if r {
                old(sink)@.push(
                    EventFacts {
                        node: node_id@,
                        generation: heartbeat_generation,
                        kind: ControlEventKind::PeerMarkedUnknown,
                    },
                )
            } else {
                old(sink)@
            },
    {
        let marked = store.mark_peer_unknown(node_id, heartbeat_generation);
        if marked {
            sink.publish(
                ControlEvent {
                    node_id: copy_id(node_id),
                    generation: heartbeat_generation,
                    kind: ControlEventKind::PeerMarkedUnknown,
                },
            );
        }
        marked
    }
}

/// Of several reports of a node the last one holds, and those of other nodes stay.
pub proof fn law_last_report_holds(peers: Seq<PeerState>, peer: PeerState, other: Seq<char>)
    ensures
        latest_peers(peers.push(peer)).dom().contains(peer@.status.node),
        latest_peers(peers.push(peer))[peer@.status.node] == peer@,
        other != peer@.status.node ==> (latest_peers(peers.push(peer)).dom().contains(other)
            <==> latest_peers(peers).dom().contains(other)),
        other != peer@.status.node && latest_peers(peers).dom().contains(other) ==> latest_peers(
            peers.push(peer),
        )[other] == latest_peers(peers)[other],
{
    assert(peers.push(peer).drop_last() =~= peers);
}

} // verus!
