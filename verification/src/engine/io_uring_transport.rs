//! The pools of the engine on top of `io_uring`: which requests share a pool.
use vstd::prelude::*;

use crate::address::SocketAddress;
use crate::config::{SocketConfig, TlsConfig};
use crate::routing::RoutingTarget;
use crate::text::same_text;

verus! {

/// Where a pool's connections lead, and how they are made.
#[derive(Clone, Debug)]
pub struct BackendConnectionKey {
    pub backend_addr: SocketAddress,
    pub tls: TlsConfig,
    pub socket: SocketConfig,
}

impl BackendConnectionKey {
    /// Whether two pools' connections lead to the same place and are made in the same way.
    pub open spec fn same(self, other: BackendConnectionKey) -> bool {
        self.backend_addr == other.backend_addr && self.tls.same(other.tls) && self.socket
            == other.socket
    }

    /// A pool's connections.
    pub fn new(backend_addr: SocketAddress, tls: TlsConfig, socket: SocketConfig) -> (r:
        BackendConnectionKey)
        ensures
            r == (BackendConnectionKey { backend_addr, tls, socket }),
    {
        BackendConnectionKey { backend_addr, tls, socket }
    }

    fn same_as(&self, other: &BackendConnectionKey) -> (r: bool)
        ensures
            r == self.same(*other),
    {
        self.backend_addr == other.backend_addr && self.tls.same_as(&other.tls) && self.socket
            == other.socket
    }
}

/// A pool of a route's own.
#[derive(Debug)]
struct RoutePool {
    selection_key: String,
    connection: BackendConnectionKey,
}

/// A pool of a route's own, as plain values.
pub struct RoutePoolFacts {
    pub selection_key: Seq<char>,
    pub connection: BackendConnectionKey,
}

impl View for RoutePool {
    type V = RoutePoolFacts;

    closed spec fn view(&self) -> RoutePoolFacts {
        RoutePoolFacts { selection_key: self.selection_key@, connection: self.connection }
    }
}

/// Which pool is used: the one that all routes share, or one of a route's own.
#[derive(Clone, Copy, Debug, PartialEq, Eq, Structural)]
pub enum PoolChoice {
    Default,
    Route(usize),
}

/// The pools that there are: the one that all routes share, and those of routes' own.
#[derive(Debug)]
pub struct MonoioBackendPoolSelector {
    default_connection: BackendConnectionKey,
    route_pools: Vec<RoutePool>,
}

/// The pools that there are, as plain values.
pub struct SelectorFacts {
    pub default_connection: BackendConnectionKey,
    pub pools: Seq<RoutePoolFacts>,
}

/// Whether a pool of a route's own is the one for some connections.
pub open spec fn serves(
    pool: RoutePoolFacts,
    key: Seq<char>,
    connection: BackendConnectionKey,
) -> bool {
    pool.selection_key == key && pool.connection.same(connection)
}

impl SelectorFacts {
    /// The first pool of a route's own for some connections.
    pub open spec fn found(
        self,
        key: Seq<char>,
        connection: BackendConnectionKey,
        from: int,
    ) -> Option<
        int,
    >
        decreases self.pools.len() - from,
    {
        if from < 0 || from >= self.pools.len() {
            None
        } else if serves(self.pools[from], key, connection) {
            Some(from)
        } else {
            self.found(key, connection, from + 1)
        }
    }

    /// The pool for some connections, where there is one.
    pub open spec fn choice(self, key: Seq<char>, connection: BackendConnectionKey) -> Option<
        PoolChoice,
    > {
        if connection.same(self.default_connection) {
            Some(PoolChoice::Default)
        } else {
            match self.found(key, connection, 0) {
                Some(i) => Some(PoolChoice::Route(i as usize)),
                None => None,
            }
        }
    }

    /// The connections of a pool.
    pub open spec fn connection(self, choice: PoolChoice) -> BackendConnectionKey {
        match choice {
            PoolChoice::Default => self.default_connection,
            PoolChoice::Route(i) => self.pools[i as int].connection,
        }
    }

    /// The pools with one more.
    pub open spec fn with_pool(
        self,
        key: Seq<char>,
        connection: BackendConnectionKey,
    ) -> SelectorFacts {
        SelectorFacts {
            pools: self.pools.push(RoutePoolFacts { selection_key: key, connection }),
            ..self
        }
    }
}

impl View for MonoioBackendPoolSelector {
    type V = SelectorFacts;

    closed spec fn view(&self) -> SelectorFacts {
        SelectorFacts {
            default_connection: self.default_connection,
            pools: self.route_pools@.map_values(|pool: RoutePool| pool@),
        }
    }
}

proof fn lemma_found(
    selector: SelectorFacts,
    key: Seq<char>,
    connection: BackendConnectionKey,
    from: int,
)
    requires
        0 <= from,
    ensures
        selector.found(key, connection, from) matches Some(i) ==> from <= i < selector.pools.len()
            && serves(selector.pools[i], key, connection),
    decreases selector.pools.len() - from,
{
    if from < selector.pools.len() && !serves(selector.pools[from], key, connection) {
        lemma_found(selector, key, connection, from + 1);
    }
}

proof fn lemma_found_kept(
    selector: SelectorFacts,
    key: Seq<char>,
    connection: BackendConnectionKey,
    new_key: Seq<char>,
    new_connection: BackendConnectionKey,
    from: int,
)
    requires
        0 <= from <= selector.pools.len(),
    ensures
        ({
            let after = selector.with_pool(new_key, new_connection);
            &&& selector.found(key, connection, from) is Some ==> after.found(key, connection, from)
                == selector.found(key, connection, from)
            &&& selector.found(key, connection, from) is None && new_key == key
                && new_connection.same(connection) ==> after.found(key, connection, from) == Some(
                selector.pools.len() as int,
            )
        }),
    decreases selector.pools.len() - from,
{
    let after = selector.with_pool(new_key, new_connection);
    if from < selector.pools.len() {
        assert(after.pools[from] == selector.pools[from]);
        if !serves(selector.pools[from], key, connection) {
            lemma_found_kept(selector, key, connection, new_key, new_connection, from + 1);
        }
    } else {
        assert(after.pools[from] == (RoutePoolFacts {
            selection_key: new_key,
            connection: new_connection,
        }));
    }
}

/// A pool that was chosen leads where it was asked to lead: connections of two kinds never share a
/// pool.
pub proof fn law_choice_leads_there(
    selector: SelectorFacts,
    key: Seq<char>,
    connection: BackendConnectionKey,
)
    requires
        selector.choice(key, connection) is Some,
        selector.pools.len() <= usize::MAX,
    ensures
        connection.same(selector.default_connection) || selector.connection(
            selector.choice(key, connection)->0,
        ).same(connection),
{
    if !connection.same(selector.default_connection) {
        lemma_found(selector, key, connection, 0);
    }
}

/// A new pool changes nothing about which pool is chosen where there was one.
pub proof fn law_pools_stay(
    selector: SelectorFacts,
    key: Seq<char>,
    connection: BackendConnectionKey,
    new_key: Seq<char>,
    new_connection: BackendConnectionKey,
)
    requires
        selector.choice(key, connection) is Some,
    ensures
        selector.with_pool(new_key, new_connection).choice(key, connection) == selector.choice(
            key,
            connection,
        ),
{
    lemma_found_kept(selector, key, connection, new_key, new_connection, 0);
}

impl MonoioBackendPoolSelector {
    /// That every pool has a number.
    pub closed spec fn wf(self) -> bool {
        self.route_pools@.len() <= usize::MAX
    }

    /// The pool that all routes share, and none of a route's own.
    pub fn new(
        default_backend_addr: SocketAddress,
        default_tls: TlsConfig,
        default_socket: SocketConfig,
    ) -> (r: MonoioBackendPoolSelector)
        ensures
            r.wf(),
            r@ == (SelectorFacts {
                default_connection: BackendConnectionKey {
                    backend_addr: default_backend_addr,
                    tls: default_tls,
                    socket: default_socket,
                },
                pools: Seq::empty(),
            }),
    {
        let selector = MonoioBackendPoolSelector {
            default_connection: BackendConnectionKey::new(
                default_backend_addr,
                default_tls,
                default_socket,
            ),
            route_pools: Vec::new(),
        };
        assert(selector@.pools =~= Seq::empty());
        selector
    }

    /// The connections of a pool.
    pub fn connection(&self, choice: PoolChoice) -> (r: &BackendConnectionKey)
        requires
            choice matches PoolChoice::Route(i) ==> i < self@.pools.len(),
        ensures
            *r == self@.connection(choice),
    {
        match choice {
            PoolChoice::Default => &self.default_connection,
            PoolChoice::Route(i) => &self.route_pools[i].connection,
        }
    }

    /// The pool for some connections of a route. A pool is made where there is none yet, and used
    /// again from then on.
    pub fn pool_for_route(
        &mut self,
        selection_key: &str,
        backend_addr: SocketAddress,
        tls: TlsConfig,
        socket: SocketConfig,
    ) -> (r: PoolChoice)
        requires
            old(self).wf(),
            old(self)@.pools.len() < usize::MAX,
        ensures
            final(self).wf(),
            ({
                let connection = BackendConnectionKey { backend_addr, tls, socket };
                &&& final(self)@.choice(selection_key@, connection) == Some(r)
                &&& old(self)@.choice(selection_key@, connection) is Some ==> final(self)@
                    == old(self)@
                &&& old(self)@.choice(selection_key@, connection) is None ==> final(self)@
                    == old(self)@.with_pool(selection_key@, connection)
            }),
    {
        let connection = BackendConnectionKey::new(backend_addr, tls, socket);
        if connection.same_as(&self.default_connection) {
            return PoolChoice::Default;
        }
        let ghost facts = self@;
        let mut i: usize = 0;
        while i < self.route_pools.len()
            invariant
                i <= self.route_pools@.len(),
                self.wf(),
                self@ == old(self)@,
                connection == (BackendConnectionKey { backend_addr, tls, socket }),
                facts == self@,
                facts.pools.len() == self.route_pools@.len(),
                !connection.same(facts.default_connection),
                facts.found(selection_key@, connection, 0) == facts.found(
                    selection_key@,
                    connection,
                    i as int,
                ),
            decreases self.route_pools@.len() - i,
        {
            assert(facts.pools[i as int] == self.route_pools@[i as int]@);
            if same_text(self.route_pools[i].selection_key.as_str(), selection_key)
                && self.route_pools[i].connection.same_as(&connection) {
                return PoolChoice::Route(i);
            }
            i += 1;
        }
        proof {
            lemma_same_self(connection);
            lemma_found_kept(facts, selection_key@, connection, selection_key@, connection, 0);
        }
        let index: usize = self.route_pools.len();
        let ghost added = RoutePoolFacts { selection_key: selection_key@, connection };
        self.route_pools.push(RoutePool { selection_key: selection_key.to_owned(), connection });
        assert(self@.pools =~= facts.pools.push(added));
        PoolChoice::Route(index)
    }

    /// The pool for where a request is sent; none where it is sent nowhere, or to a server that the
    /// route does not have.
    pub fn pool_for_target(
        &mut self,
        selection_key: &str,
        route_pools: &RoutePools,
        target: RoutingTarget,
    ) -> (r: Option<PoolChoice>)
        requires
            old(self).wf(),
            old(self)@.pools.len() < usize::MAX,
        ensures
            final(self).wf(),
            match route_pools.endpoint(target) {
                None => r is None && final(self)@ == old(self)@,
                Some(endpoint) => {
                    &&& r is Some
                    &&& final(self)@.choice(selection_key@, endpoint) == r
                    &&& old(self)@.choice(selection_key@, endpoint) is Some ==> final(self)@
                        == old(self)@
                    &&& old(self)@.choice(selection_key@, endpoint) is None ==> exists|connection: BackendConnectionKey|
                        connection.same(endpoint) && final(self)@
                            == #[trigger] old(self)@.with_pool(selection_key@, connection)
                },
            },
    {
        match route_pools.find(target) {
            None => None,
            Some(endpoint) => {
                let tls = endpoint.tls.copied();
                let ghost before = self@;
                let ghost copied = BackendConnectionKey {
                    backend_addr: endpoint.backend_addr,
                    tls,
                    socket: endpoint.socket,
                };
                let choice = self.pool_for_route(
                    selection_key,
                    endpoint.backend_addr,
                    tls,
                    endpoint.socket,
                );
                proof {
                    lemma_choice_same(before, selection_key@, copied, *endpoint);
                    lemma_choice_same(self@, selection_key@, copied, *endpoint);
                }
                Some(choice)
            },
        }
    }
}

proof fn lemma_found_same(
    selector: SelectorFacts,
    key: Seq<char>,
    a: BackendConnectionKey,
    b: BackendConnectionKey,
    from: int,
)
    requires
        a.same(b),
    ensures
        selector.found(key, a, from) == selector.found(key, b, from),
    decreases selector.pools.len() - from,
{
    if 0 <= from < selector.pools.len() {
        assert(serves(selector.pools[from], key, a) == serves(selector.pools[from], key, b));
        lemma_found_same(selector, key, a, b, from + 1);
    }
}

proof fn lemma_choice_same(
    selector: SelectorFacts,
    key: Seq<char>,
    a: BackendConnectionKey,
    b: BackendConnectionKey,
)
    requires
        a.same(b),
    ensures
        selector.choice(key, a) == selector.choice(key, b),
{
    lemma_found_same(selector, key, a, b, 0);
}

proof fn lemma_same_self(connection: BackendConnectionKey)
    ensures
        connection.same(connection),
{
}

// ---------------------------------------------------------------------------
// The servers of a route
// ---------------------------------------------------------------------------

/// A replica of a route.
#[derive(Debug)]
pub struct ReplicaPool {
    pub endpoint_id: u64,
    pub connection: BackendConnectionKey,
}

/// The servers of a route.
#[derive(Debug)]
pub struct RoutePools {
    pub primary: BackendConnectionKey,
    pub replicas: Vec<ReplicaPool>,
}

/// The first replica with a number.
pub open spec fn replica_of(replicas: Seq<ReplicaPool>, endpoint_id: u64) -> Option<
    BackendConnectionKey,
>
    decreases replicas.len(),
{
    if replicas.len() == 0 {
        None
    } else if replicas[0].endpoint_id == endpoint_id {
        Some(replicas[0].connection)
    } else {
        replica_of(replicas.skip(1), endpoint_id)
    }
}

impl RoutePools {
    /// The server that a request is sent to.
    pub open spec fn endpoint(self, target: RoutingTarget) -> Option<BackendConnectionKey> {
        match target {
            RoutingTarget::Primary { reason } => Some(self.primary),
            RoutingTarget::Replica { endpoint_id, reason } => replica_of(
                self.replicas@,
                endpoint_id,
            ),
            _ => None,
        }
    }

    fn find(&self, target: RoutingTarget) -> (r: Option<&BackendConnectionKey>)
        ensures
            match r {
                Some(endpoint) => self.endpoint(target) == Some(*endpoint),
                None => self.endpoint(target) is None,
            },
    {
        match target {
            RoutingTarget::Primary { reason: _ } => Some(&self.primary),
            RoutingTarget::Replica { endpoint_id, reason: _ } => {
                let mut i: usize = 0;
                assert(self.replicas@.skip(0) =~= self.replicas@);
                while i < self.replicas.len()
                    invariant
                        i <= self.replicas@.len(),
                        replica_of(self.replicas@, endpoint_id) == replica_of(
                            self.replicas@.skip(i as int),
                            endpoint_id,
                        ),
                        self.endpoint(target) == replica_of(self.replicas@, endpoint_id),
                    decreases self.replicas@.len() - i,
                {
                    assert(self.replicas@.skip(i as int)[0] == self.replicas@[i as int]);
                    if self.replicas[i].endpoint_id == endpoint_id {
                        return Some(&self.replicas[i].connection);
                    }
                    assert(self.replicas@.skip(i as int).skip(1) =~= self.replicas@.skip(i + 1));
                    i += 1;
                }
                None
            },
            _ => None,
        }
    }
}

/// Two connections are the same exactly where they lead to the same address, with the same
/// encryption and the same socket options.
pub proof fn law_same_connection(a: BackendConnectionKey, b: BackendConnectionKey)
    ensures
        a.same(b) ==> {
            &&& a.backend_addr == b.backend_addr
            &&& a.tls.client_tls_mode == b.tls.client_tls_mode
            &&& a.tls.backend_tls_mode == b.tls.backend_tls_mode
            &&& crate::text::opt_text(a.tls.backend_server_name) == crate::text::opt_text(
                b.tls.backend_server_name,
            )
            &&& crate::text::same_opt_path_text(a.tls.backend_ca_path, b.tls.backend_ca_path)
            &&& crate::text::same_opt_path_text(a.tls.client_cert_path, b.tls.client_cert_path)
            &&& crate::text::same_opt_path_text(a.tls.client_key_path, b.tls.client_key_path)
            &&& crate::text::same_opt_path_text(a.tls.client_ca_path, b.tls.client_ca_path)
            &&& a.socket == b.socket
        },
        a.backend_addr == b.backend_addr && a.tls == b.tls && a.socket == b.socket ==> a.same(b),
{
}

proof fn lemma_first_found(
    selector: SelectorFacts,
    key: Seq<char>,
    connection: BackendConnectionKey,
    from: int,
)
    requires
        0 <= from,
    ensures
        match selector.found(key, connection, from) {
            Some(i) => from <= i < selector.pools.len() && selector.pools[i].selection_key == key
                && selector.pools[i].connection.same(connection) && (forall|j: int|
                from <= j < i ==> (#[trigger] selector.pools[j]).selection_key != key
                    || !selector.pools[j].connection.same(connection)),
            None => forall|j: int|
                from <= j < selector.pools.len() ==> (#[trigger] selector.pools[j]).selection_key
                    != key || !selector.pools[j].connection.same(connection),
        },
    decreases selector.pools.len() - from,
{
    if from < selector.pools.len() && !serves(selector.pools[from], key, connection) {
        lemma_first_found(selector, key, connection, from + 1);
    }
}

/// A connection gets the default pool where it is the default connection; otherwise the first pool
/// of its key that is set up for the same connection, and none where there is none.
pub proof fn law_first_pool_chosen(
    selector: SelectorFacts,
    key: Seq<char>,
    connection: BackendConnectionKey,
)
    requires
        selector.pools.len() <= usize::MAX,
    ensures
        connection.same(selector.default_connection) ==> selector.choice(key, connection) == Some(
            PoolChoice::Default,
        ),
        !connection.same(selector.default_connection) ==> match selector.choice(key, connection) {
            Some(PoolChoice::Default) => false,
            Some(PoolChoice::Route(i)) => {
                &&& i < selector.pools.len()
                &&& selector.pools[i as int].selection_key == key
                &&& selector.pools[i as int].connection.same(connection)
                &&& forall|j: int|
                    0 <= j < i ==> (#[trigger] selector.pools[j]).selection_key != key
                        || !selector.pools[j].connection.same(connection)
            },
            None => forall|j: int|
                0 <= j < selector.pools.len() ==> (#[trigger] selector.pools[j]).selection_key
                    != key || !selector.pools[j].connection.same(connection),
        },
{
    lemma_first_found(selector, key, connection, 0);
}

/// A replica is found under its own number, where it is listed first.
pub proof fn law_replica_by_number(replicas: Seq<ReplicaPool>, i: int)
    requires
        0 <= i < replicas.len(),
        forall|j: int|
            0 <= j < i ==> (#[trigger] replicas[j]).endpoint_id != replicas[i].endpoint_id,
    ensures
        replica_of(replicas, replicas[i].endpoint_id) == Some(replicas[i].connection),
    decreases replicas.len(),
{
    if i > 0 {
        let rest = replicas.skip(1);
        assert(replicas[0].endpoint_id != replicas[i].endpoint_id);
        assert(rest[i - 1] == replicas[i]);
        assert forall|j: int| 0 <= j < i - 1 implies (#[trigger] rest[j]).endpoint_id
            != rest[i - 1].endpoint_id by {
            assert(rest[j] == replicas[j + 1]);
        }
        law_replica_by_number(rest, i - 1);
    }
}

} // verus!
