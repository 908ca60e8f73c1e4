//! Connections to servers: whether they are encrypted, and what the servers say of themselves.
use vstd::prelude::*;

use crate::address::SocketAddress;
use crate::auth::{hex_lower, hex_text};
use crate::buffer::{be_bytes4, buffer_bytes, new_buffer, put_i32};
use crate::clock::Duration;
use crate::config::BackendTlsMode;
use crate::metrics::{record_server_snapshot, remove_server_snapshot};
use crate::routing::RouteKey;
use crate::snapshot::ServerSnapshot;
use crate::snapshot_store::{SnapshotStore, StoreFacts};
use crate::text::{join2, same_text};
use crate::wire::{pair_texts, read_startup, StartupFacts, SSL_REQUEST_CODE};

verus! {

// ---------------------------------------------------------------------------
// Encryption
// ---------------------------------------------------------------------------

/// The packet that asks a server for TLS.
pub open spec fn ssl_request() -> Seq<u8> {
    be_bytes4(8) + be_bytes4(SSL_REQUEST_CODE as int)
}

/// The packet that asks a server for TLS.
pub fn ssl_request_packet() -> (r: bytes::BytesMut)
    ensures
        buffer_bytes(r) == ssl_request(),
{
    let mut packet = new_buffer();
    put_i32(&mut packet, 8);
    put_i32(&mut packet, SSL_REQUEST_CODE);
    assert(buffer_bytes(packet) =~= ssl_request());
    packet
}

/// The request for TLS is read as one.
pub proof fn law_ssl_request_reads_back()
    ensures
        read_startup(ssl_request()) == Ok::<StartupFacts, crate::wire::StartupError>(
            StartupFacts::Ssl,
        ),
{
    let packet = ssl_request();
    crate::buffer::law_be_round_trip(8);
    crate::buffer::law_be_round_trip(SSL_REQUEST_CODE);
    let length = be_bytes4(8);
    let code = be_bytes4(SSL_REQUEST_CODE as int);
    assert(packet.len() == 8);
    assert(packet[0] == length[0] && packet[1] == length[1] && packet[2] == length[2] && packet[3]
        == length[3]);
    assert(packet[4] == code[0] && packet[5] == code[1] && packet[6] == code[2] && packet[7]
        == code[3]);
    assert(crate::buffer::be_at(packet, 0) == crate::buffer::be_at(length, 0));
    assert(crate::buffer::be_at(packet, 4) == crate::buffer::be_at(code, 0));
}

/// Whether a server is asked for TLS at all.
pub fn negotiates_tls(mode: BackendTlsMode) -> (r: bool)
    ensures
        r == (mode != BackendTlsMode::Disable),
{
    mode != BackendTlsMode::Disable
}

/// What a connection is after the server has answered the request for TLS.
#[derive(Clone, Copy, Debug, PartialEq, Eq, Structural)]
pub enum BackendChannel {
    Plain,
    Tls,
}

/// A byte as it is shown: `0x` and two digits.
pub open spec fn shown_byte(byte: u8) -> Seq<char> {
    "0x"@ + hex_text(seq![byte])
}

fn byte_text(byte: u8) -> (r: String)
    ensures
        r@ == shown_byte(byte),
{
    let mut bytes: Vec<u8> = Vec::new();
    bytes.push(byte);
    assert(bytes@ =~= seq![byte]);
    join2("0x", hex_lower(&bytes).as_str())
}

/// What a connection is after a server's answer to the request for TLS, or why there is none: a
/// server that denies TLS is taken as it is only where TLS is merely preferred.
pub open spec fn negotiated(mode: BackendTlsMode, answer: u8) -> Result<BackendChannel, Seq<char>> {
    if answer == 83 {
        Ok(BackendChannel::Tls)
    } else if answer == 78 {
        if mode == BackendTlsMode::Prefer {
            Ok(BackendChannel::Plain)
        } else {
            Err("backend denied TLS negotiation"@)
        }
    } else {
        Err("unexpected backend SSLResponse byte "@ + shown_byte(answer))
    }
}

/// Takes a server's answer to the request for TLS.
pub fn negotiate_backend_tls(mode: BackendTlsMode, answer: u8) -> (r: Result<BackendChannel, String>)
    requires
        mode != BackendTlsMode::Disable,
    ensures
        match r {
            Ok(channel) => negotiated(mode, answer) == Ok::<BackendChannel, Seq<char>>(channel),
            Err(message) => negotiated(mode, answer) == Err::<BackendChannel, Seq<char>>(message@),
        },
{
    if answer == 83 {
        Ok(BackendChannel::Tls)
    } else if answer == 78 {
        match mode {
            BackendTlsMode::Prefer => Ok(BackendChannel::Plain),
            _ => Err("backend denied TLS negotiation".to_owned()),
        }
    } else {
        Err(join2("unexpected backend SSLResponse byte ", byte_text(answer).as_str()))
    }
}

/// Where TLS is required, no answer of a server leads to a connection without it.
pub proof fn law_required_tls_is_kept(mode: BackendTlsMode, answer: u8)
    requires
        mode == BackendTlsMode::Require || mode == BackendTlsMode::VerifyCa || mode
            == BackendTlsMode::VerifyFull,
    ensures
        negotiated(mode, answer) != Ok::<BackendChannel, Seq<char>>(BackendChannel::Plain),
{
}

// ---------------------------------------------------------------------------
// What servers say of themselves
// ---------------------------------------------------------------------------

/// A server's parameters, of which one is set: in its place where the name is there already, and
/// behind the others where it is not.
pub open spec fn with_parameter(
    pairs: Seq<(Seq<char>, Seq<char>)>,
    name: Seq<char>,
    value: Seq<char>,
) -> Seq<(Seq<char>, Seq<char>)>
    decreases pairs.len(),
{
    if pairs.len() == 0 {
        seq![(name, value)]
    } else if pairs[0].0 == name {
        seq![(name, value)] + pairs.skip(1)
    } else {
        seq![pairs[0]] + with_parameter(pairs.skip(1), name, value)
    }
}

/// The value of a server's parameter.
pub open spec fn parameter_of(
    pairs: Seq<(Seq<char>, Seq<char>)>,
    name: Seq<char>,
) -> Option<Seq<char>>
    decreases pairs.len(),
{
    if pairs.len() == 0 {
        None
    } else if pairs[0].0 == name {
        Some(pairs[0].1)
    } else {
        parameter_of(pairs.skip(1), name)
    }
}

/// A parameter that was set has the value that it was set to, and every other parameter has the
/// value that it had.
pub proof fn law_parameter_set(
    pairs: Seq<(Seq<char>, Seq<char>)>,
    name: Seq<char>,
    value: Seq<char>,
    other: Seq<char>,
)
    ensures
        parameter_of(with_parameter(pairs, name, value), name) == Some(value),
        other != name ==> parameter_of(with_parameter(pairs, name, value), other) == parameter_of(
            pairs,
            other,
        ),
    decreases pairs.len(),
{
    let after = with_parameter(pairs, name, value);
    if pairs.len() == 0 {
        assert(after.skip(1) =~= Seq::empty());
        assert(parameter_of(after.skip(1), other) is None);
    } else if pairs[0].0 == name {
        assert(after.skip(1) =~= pairs.skip(1));
    } else {
        law_parameter_set(pairs.skip(1), name, value, other);
        assert(after.skip(1) =~= with_parameter(pairs.skip(1), name, value));
    }
}

proof fn lemma_with_parameter_at(
    pairs: Seq<(Seq<char>, Seq<char>)>,
    name: Seq<char>,
    value: Seq<char>,
    k: int,
)
    requires
        0 <= k <= pairs.len(),
        forall|j: int| 0 <= j < k ==> (#[trigger] pairs[j]).0 != name,
        k == pairs.len() || pairs[k].0 == name,
    ensures
        k == pairs.len() ==> with_parameter(pairs, name, value) == pairs.push((name, value)),
        k < pairs.len() ==> with_parameter(pairs, name, value) == pairs.update(k, (name, value)),
    decreases pairs.len(),
{
    if pairs.len() == 0 {
        assert(pairs.push((name, value)) =~= seq![(name, value)]);
    } else if k == 0 {
        assert(seq![(name, value)] + pairs.skip(1) =~= pairs.update(0, (name, value)));
    } else {
        let rest = pairs.skip(1);
        assert(pairs[0].0 != name);
        assert forall|j: int| 0 <= j < k - 1 implies (#[trigger] rest[j]).0 != name by {
            assert(rest[j] == pairs[j + 1]);
        }
        lemma_with_parameter_at(rest, name, value, k - 1);
        if k == pairs.len() {
            assert(seq![pairs[0]] + rest.push((name, value)) =~= pairs.push((name, value)));
        } else {
            assert(seq![pairs[0]] + rest.update(k - 1, (name, value)) =~= pairs.update(
                k,
                (name, value),
            ));
        }
    }
}

/// A connection to a server, as far as its bytes are not concerned.
#[derive(Debug)]
pub struct Backend {
    id: u64,
    addr: SocketAddress,
    tls: bool,
    parameter_status: Vec<(String, String)>,
    key_data: Option<(i32, i32)>,
}

/// A connection to a server, as plain values.
pub struct BackendFacts {
    pub id: u64,
    pub addr: SocketAddress,
    pub tls: bool,
    pub parameters: Seq<(Seq<char>, Seq<char>)>,
    pub key_data: Option<(i32, i32)>,
}

impl View for Backend {
    type V = BackendFacts;

    closed spec fn view(&self) -> BackendFacts {
        BackendFacts {
            id: self.id,
            addr: self.addr,
            tls: self.tls,
            parameters: pair_texts(self.parameter_status@),
            key_data: self.key_data,
        }
    }
}

impl Backend {
    /// A new connection, of which the server has said nothing yet.
    pub fn new(id: u64, addr: SocketAddress, channel: BackendChannel) -> (r: Backend)
        ensures
            r@ == (BackendFacts {
                id,
                addr,
                tls: channel == BackendChannel::Tls,
                parameters: Seq::empty(),
                key_data: None,
            }),
    {
        let backend = Backend {
            id,
            addr,
            tls: channel == BackendChannel::Tls,
            parameter_status: Vec::new(),
            key_data: None,
        };
        assert(backend@.parameters =~= Seq::empty());
        backend
    }

    /// The connection's number.
    pub fn id(&self) -> (r: u64)
        ensures
            r == self@.id,
    {
        self.id
    }

    /// The server's address.
    pub fn addr(&self) -> (r: SocketAddress)
        ensures
            r == self@.addr,
    {
        self.addr
    }

    /// Whether the connection is encrypted.
    pub fn is_tls(&self) -> (r: bool)
        ensures
            r == self@.tls,
    {
        self.tls
    }

    /// The parameters that the server has reported.
    pub fn parameter_status(&self) -> (r: &Vec<(String, String)>)
        ensures
            pair_texts(r@) == self@.parameters,
    {
        &self.parameter_status
    }

    /// Keeps a parameter that the server has reported.
    pub fn push_parameter_status(&mut self, name: String, value: String)
        ensures
            final(self)@ == (BackendFacts {
                parameters: with_parameter(old(self)@.parameters, name@, value@),
                ..old(self)@
            }),
    {
        let ghost pairs = self@.parameters;
        let mut k: usize = 0;
        while k < self.parameter_status.len() && !same_text(
            self.parameter_status[k].0.as_str(),
            name.as_str(),
        )
            invariant
                k <= self.parameter_status@.len(),
                self@ == old(self)@,
                pairs == self@.parameters,
                pairs.len() == self.parameter_status@.len(),
                forall|j: int| 0 <= j < k ==> (#[trigger] pairs[j]).0 != name@,
            decreases self.parameter_status@.len() - k,
        {
            assert(pairs[k as int].0 == self.parameter_status@[k as int].0@);
            k += 1;
        }
        proof {
            if k < self.parameter_status@.len() {
                assert(pairs[k as int].0 == self.parameter_status@[k as int].0@);
            }
            lemma_with_parameter_at(pairs, name@, value@, k as int);
        }
        if k < self.parameter_status.len() {
            self.parameter_status.set(k, (name, value));
            assert(self@.parameters =~= pairs.update(k as int, (name@, value@)));
        } else {
            self.parameter_status.push((name, value));
            assert(self@.parameters =~= pairs.push((name@, value@)));
        }
    }

    /// What a request to cancel has to name, where the server has said it.
    pub fn key_data(&self) -> (r: Option<(i32, i32)>)
        ensures
            r == self@.key_data,
    {
        self.key_data
    }

    /// Keeps what a request to cancel has to name.
    pub fn set_key_data(&mut self, process_id: i32, secret_key: i32)
        ensures
            final(self)@ == (BackendFacts {
                key_data: Some((process_id, secret_key)),
                ..old(self)@
            }),
    {
        self.key_data = Some((process_id, secret_key));
    }

    /// What is told of the connection.
    pub fn server_snapshot(&self, state: &str, age: Duration, route_key: Option<RouteKey>) -> (r:
        ServerSnapshot)
        ensures
            self.shown_as(r, state@, age, route_key),
    {
        ServerSnapshot {
            backend_id: self.id,
            route_key,
            state: state.to_owned(),
            age,
            in_transaction: false,
        }
    }

    /// Whether a snapshot is this connection's, in a state.
    pub open spec fn shown_as(
        self,
        snapshot: ServerSnapshot,
        state: Seq<char>,
        age: Duration,
        route_key: Option<RouteKey>,
    ) -> bool {
        &&& snapshot.backend_id == self@.id
        &&& snapshot.state@ == state
        &&& snapshot.age == age
        &&& snapshot.route_key == route_key
        &&& !snapshot.in_transaction
    }

    /// Says that a client has taken the connection.
    pub fn mark_checked_out(
        &self,
        store: &mut SnapshotStore,
        age: Duration,
        route_key: Option<RouteKey>,
    )
        requires
            old(store).wf(),
        ensures
            final(store).wf(),
            final(store)@.pool == old(store)@.pool,
            final(store)@.servers.remove(self@.id) == old(store)@.servers.remove(self@.id),
            final(store)@.servers.contains_key(self@.id),
            self.shown_as(final(store)@.servers[self@.id], "checked_out"@, age, route_key),
    {
        self.publish_snapshot(store, "checked_out", age, route_key);
    }

    /// Says that the connection waits in the pool.
    pub fn mark_idle(&self, store: &mut SnapshotStore, age: Duration, route_key: Option<RouteKey>)
        requires
            old(store).wf(),
        ensures
            final(store).wf(),
            final(store)@.pool == old(store)@.pool,
            final(store)@.servers.remove(self@.id) == old(store)@.servers.remove(self@.id),
            final(store)@.servers.contains_key(self@.id),
            self.shown_as(final(store)@.servers[self@.id], "idle"@, age, route_key),
    {
        self.publish_snapshot(store, "idle", age, route_key);
    }

    /// Says that the connection is gone.
    pub fn mark_discarded(&self, store: &mut SnapshotStore)
        requires
            old(store).wf(),
        ensures
            final(store).wf(),
            final(store)@ == (StoreFacts {
                servers: old(store)@.servers.remove(self@.id),
                ..old(store)@
            }),
    {
        remove_server_snapshot(store, self.id);
    }

    fn publish_snapshot(
        &self,
        store: &mut SnapshotStore,
        state: &str,
        age: Duration,
        route_key: Option<RouteKey>,
    )
        requires
            old(store).wf(),
        ensures
            final(store).wf(),
            final(store)@.pool == old(store)@.pool,
            final(store)@.servers.remove(self@.id) == old(store)@.servers.remove(self@.id),
            final(store)@.servers.contains_key(self@.id),
            self.shown_as(final(store)@.servers[self@.id], state@, age, route_key),
    {
        let snapshot = self.server_snapshot(state, age, route_key);
        record_server_snapshot(store, snapshot);
        assert(store@.servers.remove(self@.id) =~= old(store)@.servers.remove(self@.id));
    }
}

/// Gives out the numbers of connections.
#[derive(Debug)]
pub struct BackendIds {
    next: u64,
}

impl BackendIds {
    /// The number that comes next.
    pub closed spec fn upcoming(self) -> u64 {
        self.next
    }

    /// No number is given out yet.
    pub fn new() -> (r: BackendIds)
        ensures
            r.upcoming() == 1,
    {
        BackendIds { next: 1 }
    }

    /// The number that is given out next.
    pub fn next_id(&self) -> (r: u64)
        ensures
            r == self.upcoming(),
    {
        self.next
    }

    /// Gives out the next number: none is given out twice.
    pub fn take(&mut self) -> (r: u64)
        requires
            old(self).upcoming() < u64::MAX,
        ensures
            r == old(self).upcoming(),
            final(self).upcoming() == r + 1,
    {
        let id = self.next;
        self.next = id + 1;
        id
    }
}

/// A server that answers `S` is spoken to in TLS; one that answers `N` is spoken to in the clear
/// only where TLS is preferred and not required; any other answer is an error.
pub proof fn law_tls_by_answer(mode: BackendTlsMode, answer: u8)
    ensures
        negotiated(mode, answer) == Ok::<BackendChannel, Seq<char>>(BackendChannel::Tls) <==> answer
            == 83u8,
        negotiated(mode, answer) == Ok::<BackendChannel, Seq<char>>(BackendChannel::Plain)
            <==> answer == 78u8 && mode == BackendTlsMode::Prefer,
        answer != 83u8 && answer != 78u8 ==> negotiated(mode, answer) is Err,
{
}

} // verus!
