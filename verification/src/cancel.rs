//! Requests to cancel a statement: the keys that clients hold, and the server connections that
//! they stand for.
use vstd::prelude::*;

use crate::address::SocketAddress;
use crate::buffer::{be_at, be_bytes4, buffer_bytes, new_buffer, put_i32, read_be32};
use crate::crypto::{sha256_digest, sha256_of};
use crate::text::utf8_bytes;
use crate::wire::{read_startup, StartupFacts, CANCEL_REQUEST_CODE};

verus! {

/// The server connection whose statement is to be canceled, and its key.
#[derive(Clone, Copy, Debug, PartialEq, Eq, Structural)]
pub struct CancelTarget {
    pub backend_addr: SocketAddress,
    pub process_id: i32,
    pub secret_key: i32,
}

/// What a client's key stands for.
#[derive(Clone, Copy, Debug, PartialEq, Eq, Structural)]
pub struct CancelBinding {
    /// Tells this binding from any other that had the same key.
    pub id: u64,
    /// The server connection that the client uses now, where it uses one.
    pub target: Option<CancelTarget>,
    /// Whether a request is on its way to the server.
    pub forwarding: bool,
}

/// A request that is on its way to a server. It is given back with `release_forwarding`.
#[derive(Debug)]
pub struct CancelForwardingLease {
    key: (i32, i32),
    id: u64,
    target: CancelTarget,
}

impl CancelForwardingLease {
    /// The key of the client that asked.
    pub closed spec fn of_key(self) -> (i32, i32) {
        self.key
    }

    /// Which binding the lease is of.
    pub closed spec fn of_binding(self) -> u64 {
        self.id
    }

    /// Where the request goes.
    pub closed spec fn to(self) -> CancelTarget {
        self.target
    }

    /// Where the request goes.
    pub fn target(&self) -> (r: CancelTarget)
        ensures
            r == self.to(),
    {
        self.target
    }
}

/// The keys that clients hold.
#[derive(Debug)]
pub struct CancelRegistry {
    keys: Vec<(i32, i32)>,
    bindings: Vec<CancelBinding>,
    issued: u64,
}

/// What each key stands for.
pub open spec fn bindings_of(keys: Seq<(i32, i32)>, bindings: Seq<CancelBinding>) -> Map<
    (i32, i32),
    CancelBinding,
> {
    Map::new(|key: (i32, i32)| keys.contains(key), |key: (i32, i32)| bindings[keys.index_of(key)])
}

impl View for CancelRegistry {
    type V = Map<(i32, i32), CancelBinding>;

    closed spec fn view(&self) -> Map<(i32, i32), CancelBinding> {
        bindings_of(self.keys@, self.bindings@)
    }
}

/// The server connection that a client uses, where its key is known and it uses one.
pub open spec fn target_of(held: Map<(i32, i32), CancelBinding>, key: (i32, i32)) -> Option<
    CancelTarget,
> {
    if held.contains_key(key) {
        held[key].target
    } else {
        None
    }
}

/// The keys after a client has said which server connection it uses, or that it uses none.
pub open spec fn with_target(
    held: Map<(i32, i32), CancelBinding>,
    key: (i32, i32),
    target: Option<CancelTarget>,
) -> Map<(i32, i32), CancelBinding> {
    if held.contains_key(key) {
        held.insert(key, CancelBinding { target, ..held[key] })
    } else {
        held
    }
}

/// Whether a request may go to the server that a client uses.
pub open spec fn may_forward(held: Map<(i32, i32), CancelBinding>, key: (i32, i32)) -> bool {
    held.contains_key(key) && !held[key].forwarding && held[key].target is Some
}

/// The keys after a request went on its way to a server, or has reached it.
pub open spec fn with_forwarding(
    held: Map<(i32, i32), CancelBinding>,
    key: (i32, i32),
    forwarding: bool,
) -> Map<(i32, i32), CancelBinding> {
    if held.contains_key(key) {
        held.insert(key, CancelBinding { forwarding, ..held[key] })
    } else {
        held
    }
}

/// A client that holds a key is found under the server connection that it was bound to.
pub proof fn law_bound_is_found(
    held: Map<(i32, i32), CancelBinding>,
    key: (i32, i32),
    target: CancelTarget,
)
    requires
        held.contains_key(key),
    ensures
        target_of(with_target(held, key, Some(target)), key) == Some(target),
{
}

/// A client that was unbound is not found, and no request goes to a server for it.
pub proof fn law_unbound_is_not_found(held: Map<(i32, i32), CancelBinding>, key: (i32, i32))
    ensures
        target_of(with_target(held, key, None), key) is None,
        !may_forward(with_target(held, key, None), key),
{
}

/// A key that was forgotten cannot be bound again.
pub proof fn law_forgotten_stays_unbound(
    held: Map<(i32, i32), CancelBinding>,
    key: (i32, i32),
    target: CancelTarget,
)
    ensures
        target_of(with_target(held.remove(key), key, Some(target)), key) is None,
{
}

/// While one request is on its way to a server, no second one goes there for the same key, and a
/// request that has arrived makes way for the next.
pub proof fn law_one_request_at_a_time(held: Map<(i32, i32), CancelBinding>, key: (i32, i32))
    requires
        may_forward(held, key),
    ensures
        !may_forward(with_forwarding(held, key, true), key),
        may_forward(with_forwarding(with_forwarding(held, key, true), key, false), key),
{
}

/// What one client does leaves every other client's key as it was.
pub proof fn law_other_keys_untouched(
    held: Map<(i32, i32), CancelBinding>,
    key: (i32, i32),
    other: (i32, i32),
    target: Option<CancelTarget>,
    forwarding: bool,
)
    requires
        key != other,
    ensures
        target_of(with_target(held, key, target), other) == target_of(held, other),
        target_of(with_forwarding(held, key, forwarding), other) == target_of(held, other),
        target_of(held.remove(key), other) == target_of(held, other),
{
}

/// A number without its sign bit.
pub open spec fn positive31(value: int) -> int {
    if value < 0 {
        value + 0x8000_0000
    } else {
        value
    }
}

/// The key that a digest gives: its first four bytes without the sign bit, and the four after
/// them; none where the first number is zero.
pub open spec fn digest_key(digest: Seq<u8>) -> Option<(int, int)> {
    let process = positive31(be_at(digest, 0));
    if process == 0 {
        None
    } else {
        Some((process, be_at(digest, 4)))
    }
}

/// The key that a digest gives.
pub fn key_from_digest(digest: &[u8; 32]) -> (r: Option<(i32, i32)>)
    ensures
        match r {
            Some((process_id, secret_key)) => digest_key(digest@) == Some(
                (process_id as int, secret_key as int),
            ) && process_id > 0,
            None => digest_key(digest@) is None,
        },
{
    let raw: i32 = read_be32(digest.as_slice(), 0);
    let process_id: i32 = if raw < 0 {
        (raw as i64 + 0x8000_0000i64) as i32
    } else {
        raw
    };
    if process_id == 0 {
        return None;
    }
    Some((process_id, read_be32(digest.as_slice(), 4)))
}

impl CancelRegistry {
    /// That no key is held twice, and that every binding was issued.
    pub closed spec fn wf(self) -> bool {
        &&& self.keys@.len() == self.bindings@.len()
        &&& self.keys@.no_duplicates()
        &&& forall|i: int|
            0 <= i < self.bindings@.len() ==> (#[trigger] self.bindings@[i]).id < self.issued
    }

    /// How many keys were issued so far.
    pub closed spec fn count(self) -> nat {
        self.issued as nat
    }

    /// Every binding was issued under a number below the count.
    pub proof fn law_ids_below_count(self, key: (i32, i32))
        requires
            self.wf(),
            self@.contains_key(key),
        ensures
            self@[key].id < self.count(),
    {
        let i = self.keys@.index_of(key);
        assert(self.keys@[i] == key);
        assert(self.bindings@[i].id < self.issued);
    }

    /// No client holds a key.
    pub fn new() -> (r: CancelRegistry)
        ensures
            r.wf(),
            r@ == Map::<(i32, i32), CancelBinding>::empty(),
            r.count() == 0,
    {
        let registry = CancelRegistry { keys: Vec::new(), bindings: Vec::new(), issued: 0 };
        assert(registry@ =~= Map::<(i32, i32), CancelBinding>::empty());
        registry
    }

    fn find(&self, key: (i32, i32)) -> (r: Option<usize>)
        requires
            self.wf(),
        ensures
            match r {
                Some(i) => i < self.keys@.len() && self.keys@[i as int] == key
                    && self.keys@.index_of(key) == i && self@.contains_key(key) && self@[key]
                    == self.bindings@[i as int],
                None => !self.keys@.contains(key) && !self@.contains_key(key),
            },
    {
        let mut i: usize = 0;
        while i < self.keys.len()
            invariant
                i <= self.keys@.len(),
                self.wf(),
                forall|j: int| 0 <= j < i ==> self.keys@[j] != key,
            decreases self.keys@.len() - i,
        {
            if self.keys[i].0 == key.0 && self.keys[i].1 == key.1 {
                proof {
                    let k = self.keys@.index_of(key);
                    assert(self.keys@[i as int] == key);
                    assert(self.keys@.contains(key));
                    assert(self.keys@[k] == key);
                }
                return Some(i);
            }
            i += 1;
        }
        None
    }

    fn set(&mut self, i: usize, binding: CancelBinding)
        requires
            old(self).wf(),
            i < old(self).keys@.len(),
            binding.id < old(self).issued,
        ensures
            final(self).wf(),
            final(self)@ == old(self)@.insert(old(self).keys@[i as int], binding),
            final(self).count() == old(self).count(),
    {
        let ghost key = self.keys@[i as int];
        self.bindings.set(i, binding);
        proof {
            assert(self.keys@.contains(key));
            let k = self.keys@.index_of(key);
            assert(self.keys@[k] == key);
            assert(k == i);
            assert forall|other: (i32, i32)| self.keys@.contains(other) && other != key implies
                self.keys@.index_of(other) != i by {
                assert(self.keys@[self.keys@.index_of(other)] == other);
            }
            assert(self@ =~= old(self)@.insert(key, binding));
        }
    }

    /// How many keys were issued.
    pub fn issued(&self) -> (r: u64)
        ensures
            r == self.count(),
    {
        self.issued
    }

    /// Issues the key that a nonce gives, unless the nonce gives none or another client holds it.
    pub fn issue_client_key(&mut self, nonce: &str) -> (r: Option<(i32, i32)>)
        requires
            old(self).wf(),
            old(self).count() < u64::MAX,
        ensures
            final(self).wf(),
            match digest_key(sha256_of(utf8_bytes(nonce@))) {
                None => r is None && final(self)@ == old(self)@,
                Some((process, secret)) => {
                    let key = (process as i32, secret as i32);
                    if old(self)@.contains_key(key) {
                        r is None && final(self)@ == old(self)@
                    } else {
                        &&& r == Some(key)
                        &&& process > 0
                        &&& final(self)@ == old(self)@.insert(
                            key,
                            CancelBinding {
                                id: old(self).count() as u64,
                                target: None,
                                forwarding: false,
                            },
                        )
                    }
                },
            },
            final(self).count() == old(self).count() + (if r is Some {
                1nat
            } else {
                0nat
            }),
            r matches Some(key) ==> !old(self)@.contains_key(key) && final(self)@.contains_key(key)
                && final(self)@[key].target is None && !final(self)@[key].forwarding && key.0 > 0,
    {
        let digest = sha256_digest(nonce.as_bytes());
        self.issue_from_digest(&digest)
    }

    /// Issues the key that a digest gives, unless it gives none or another client holds it.
    pub fn issue_from_digest(&mut self, digest: &[u8; 32]) -> (r: Option<(i32, i32)>)
        requires
            old(self).wf(),
            old(self).count() < u64::MAX,
        ensures
            final(self).wf(),
            match digest_key(digest@) {
                None => r is None && final(self)@ == old(self)@,
                Some((process, secret)) => {
                    let key = (process as i32, secret as i32);
                    if old(self)@.contains_key(key) {
                        r is None && final(self)@ == old(self)@
                    } else {
                        &&& r == Some(key)
                        &&& process > 0
                        &&& final(self)@ == old(self)@.insert(
                            key,
                            CancelBinding {
                                id: old(self).count() as u64,
                                target: None,
                                forwarding: false,
                            },
                        )
                    }
                },
            },
            final(self).count() == old(self).count() + (if r is Some {
                1nat
            } else {
                0nat
            }),
    {
        let key = match key_from_digest(digest) {
            Some(key) => key,
            None => {
                return None;
            },
        };
        if self.find(key).is_some() {
            return None;
        }
        let binding = CancelBinding { id: self.issued, target: None, forwarding: false };
        self.keys.push(key);
        self.bindings.push(binding);
        self.issued += 1;
        proof {
            let keys = self.keys@;
            let n = old(self).keys@.len() as int;
            assert forall|i: int, j: int|
                0 <= i < keys.len() && 0 <= j < keys.len() && i != j implies keys[i] != keys[j] by {
                if i < n && j < n {
                    assert(old(self).keys@[i] != old(self).keys@[j]);
                } else if i < n {
                    assert(old(self).keys@.contains(old(self).keys@[i]));
                } else {
                    assert(old(self).keys@.contains(old(self).keys@[j]));
                }
            }
            assert(keys[n] == key);
            assert forall|other: (i32, i32)| #[trigger] keys.contains(other) && other != key implies
                old(self).keys@.contains(other) && keys.index_of(other) == old(
                self,
            ).keys@.index_of(other) by {
                let k = keys.index_of(other);
                assert(keys[k] == other);
                assert(old(self).keys@[k] == other);
                assert(old(self).keys@.contains(other));
                let m = old(self).keys@.index_of(other);
                assert(old(self).keys@[m] == other);
                assert(keys[m] == other);
            }
            assert forall|other: (i32, i32)| old(self).keys@.contains(other) implies
                #[trigger] keys.contains(other) by {
                let m = old(self).keys@.index_of(other);
                assert(keys[m] == other);
            }
            assert(keys.contains(key));
            assert(keys[keys.index_of(key)] == key);
            assert(keys.index_of(key) == n);
            assert(self@ =~= old(self)@.insert(key, binding));
        }
        Some(key)
    }

    /// Says which server connection a client uses. A key that nobody holds stays unused.
    pub fn bind(&mut self, key: (i32, i32), target: CancelTarget)
        requires
            old(self).wf(),
        ensures
            final(self).wf(),
            final(self).count() == old(self).count(),
            final(self)@ == with_target(old(self)@, key, Some(target)),
    {
        if let Some(i) = self.find(key) {
            let binding = self.bindings[i];
            self.set(
                i,
                CancelBinding {
                    id: binding.id,
                    target: Some(target),
                    forwarding: binding.forwarding,
                },
            );
        }
    }

    /// Says that a client uses no server connection any more. The answer is whether a request is
    /// still on its way to the server, which the caller has to wait for.
    pub fn unbind(&mut self, key: (i32, i32)) -> (r: bool)
        requires
            old(self).wf(),
        ensures
            final(self).wf(),
            final(self).count() == old(self).count(),
            r == (old(self)@.contains_key(key) && old(self)@[key].forwarding),
            final(self)@ == with_target(old(self)@, key, None),
    {
        match self.find(key) {
            Some(i) => {
                let binding = self.bindings[i];
                self.set(
                    i,
                    CancelBinding {
                        id: binding.id,
                        target: None,
                        forwarding: binding.forwarding,
                    },
                );
                binding.forwarding
            },
            None => false,
        }
    }

    /// The server connection that a client uses, where its key is known and it uses one.
    pub fn lookup(&self, key: (i32, i32)) -> (r: Option<CancelTarget>)
        requires
            self.wf(),
        ensures
            r == target_of(self@, key),
            r matches Some(target) ==> self@.contains_key(key) && self@[key].target == Some(target),
    {
        match self.find(key) {
            Some(i) => self.bindings[i].target,
            None => None,
        }
    }

    /// Lets a request go to the server that a client uses, unless it uses none or another request
    /// is on its way there.
    pub fn acquire_forwarding(&mut self, key: (i32, i32)) -> (r: Option<CancelForwardingLease>)
        requires
            old(self).wf(),
        ensures
            final(self).wf(),
            final(self).count() == old(self).count(),
            ({
                match r {
                    Some(lease) => {
                        &&& may_forward(old(self)@, key)
                        &&& lease.of_key() == key
                        &&& lease.of_binding() == old(self)@[key].id
                        &&& Some(lease.to()) == target_of(old(self)@, key)
                        &&& final(self)@ == with_forwarding(old(self)@, key, true)
                    },
                    None => !may_forward(old(self)@, key) && final(self)@ == old(self)@,
                }
            }),
            r matches Some(lease) ==> final(self)@[key].forwarding && !old(self)@[key].forwarding
                && old(self)@[key].target == Some(lease.to()),
    {
        let i = match self.find(key) {
            Some(i) => i,
            None => {
                return None;
            },
        };
        let binding = self.bindings[i];
        if binding.forwarding {
            return None;
        }
        match binding.target {
            Some(target) => {
                self.set(
                    i,
                    CancelBinding { id: binding.id, target: binding.target, forwarding: true },
                );
                Some(CancelForwardingLease { key, id: binding.id, target })
            },
            None => None,
        }
    }

    /// Says that a request has reached its server. Where the client has gone in the meantime,
    /// nothing changes.
    pub fn release_forwarding(&mut self, lease: CancelForwardingLease)
        requires
            old(self).wf(),
        ensures
            final(self).wf(),
            final(self).count() == old(self).count(),
            final(self)@ == if old(self)@.contains_key(lease.of_key()) && old(
                self,
            )@[lease.of_key()].id == lease.of_binding() {
                with_forwarding(old(self)@, lease.of_key(), false)
            } else {
                old(self)@
            },
    {
        if let Some(i) = self.find(lease.key) {
            let binding = self.bindings[i];
            if binding.id == lease.id {
                self.set(
                    i,
                    CancelBinding { id: binding.id, target: binding.target, forwarding: false },
                );
            }
        }
    }

    /// Forgets a client's key.
    pub fn remove_session(&mut self, key: (i32, i32))
        requires
            old(self).wf(),
        ensures
            final(self).wf(),
            final(self).count() == old(self).count(),
            final(self)@ == old(self)@.remove(key),
    {
        match self.find(key) {
            Some(i) => {
                let _ = self.keys.remove(i);
                let _ = self.bindings.remove(i);
                proof {
                    let before = old(self).keys@;
                    let keys = self.keys@;
                    assert(keys =~= before.remove(i as int));
                    assert(self.bindings@ =~= old(self).bindings@.remove(i as int));
                    assert forall|a: int, b: int|
                        0 <= a < keys.len() && 0 <= b < keys.len() && a != b implies keys[a]
                        != keys[b] by {
                        let x = if a < i {
                            a
                        } else {
                            a + 1
                        };
                        let y = if b < i {
                            b
                        } else {
                            b + 1
                        };
                        assert(before[x] != before[y]);
                    }
                    assert forall|k: int| 0 <= k < self.bindings@.len() implies (
                    #[trigger] self.bindings@[k]).id < self.issued by {
                        let x = if k < i {
                            k
                        } else {
                            k + 1
                        };
                        assert(self.bindings@[k] == old(self).bindings@[x]);
                    }
                    assert forall|other: (i32, i32)| #[trigger] keys.contains(other) implies
                        before.contains(other) && other != key && self.bindings@[keys.index_of(
                        other,
                    )] == old(self).bindings@[before.index_of(other)] by {
                        let k = keys.index_of(other);
                        assert(keys[k] == other);
                        let x = if k < i {
                            k
                        } else {
                            k + 1
                        };
                        assert(before[x] == other);
                        assert(before.contains(other));
                        assert(before[before.index_of(other)] == other);
                        assert(before.index_of(other) == x);
                    }
                    assert forall|other: (i32, i32)|
                        before.contains(other) && other != key implies #[trigger] keys.contains(
                        other,
                    ) by {
                        let x = before.index_of(other);
                        assert(before[x] == other);
                        if x < i {
                            assert(keys[x] == other);
                        } else {
                            assert(keys[x - 1] == other);
                        }
                    }
                    assert(self@ =~= old(self)@.remove(key));
                }
            },
            None => {
                assert(self@ =~= old(self)@.remove(key));
            },
        }
    }
}

/// The packet that asks a server to cancel a statement.
pub open spec fn cancel_request_bytes(process_id: i32, secret_key: i32) -> Seq<u8> {
    be_bytes4(16) + be_bytes4(CANCEL_REQUEST_CODE as int) + be_bytes4(process_id as int)
        + be_bytes4(secret_key as int)
}

/// Writes the packet that asks a server to cancel a statement.
pub fn encode_cancel_request(process_id: i32, secret_key: i32) -> (r: bytes::BytesMut)
    ensures
        buffer_bytes(r) == cancel_request_bytes(process_id, secret_key),
{
    let mut packet = new_buffer();
    put_i32(&mut packet, 16);
    put_i32(&mut packet, CANCEL_REQUEST_CODE);
    put_i32(&mut packet, process_id);
    put_i32(&mut packet, secret_key);
    assert(buffer_bytes(packet) =~= cancel_request_bytes(process_id, secret_key));
    packet
}

/// The packet is read back as a request to cancel, with the same key.
pub proof fn law_cancel_request_reads_back(process_id: i32, secret_key: i32)
    ensures
        read_startup(cancel_request_bytes(process_id, secret_key)) == Ok::<
            StartupFacts,
            crate::wire::StartupError,
        >(StartupFacts::Cancel(process_id as int, secret_key as int)),
{
    let packet = cancel_request_bytes(process_id, secret_key);
    crate::buffer::law_be_round_trip(16);
    crate::buffer::law_be_round_trip(CANCEL_REQUEST_CODE);
    crate::buffer::law_be_round_trip(process_id);
    crate::buffer::law_be_round_trip(secret_key);
    assert(packet.len() == 16);
    assert(be_at(packet, 0) == be_at(be_bytes4(16), 0));
    assert(be_at(packet, 4) == be_at(be_bytes4(CANCEL_REQUEST_CODE as int), 0));
    assert(be_at(packet, 8) == be_at(be_bytes4(process_id as int), 0));
    assert(be_at(packet, 12) == be_at(be_bytes4(secret_key as int), 0));
}

/// A request goes on exactly to a session that is bound to a server and has no other request on
/// its way.
pub proof fn law_forwards_exactly_where(held: Map<(i32, i32), CancelBinding>, key: (i32, i32))
    ensures
        may_forward(held, key) <==> held.contains_key(key) && held[key].target is Some
            && !held[key].forwarding,
        may_forward(held, key) ==> target_of(held, key) is Some,
        !held.contains_key(key) ==> target_of(held, key) is None,
{
}

/// Binding a session changes where its requests go and nothing else, and no key becomes known by
/// it.
pub proof fn law_binding_changes_target_only(
    held: Map<(i32, i32), CancelBinding>,
    key: (i32, i32),
    target: Option<CancelTarget>,
    forwarding: bool,
)
    ensures
        with_target(held, key, target).dom() == held.dom(),
        with_forwarding(held, key, forwarding).dom() == held.dom(),
        held.contains_key(key) ==> {
            let bound = with_target(held, key, target)[key];
            let marked = with_forwarding(held, key, forwarding)[key];
            &&& bound.target == target
            &&& bound.id == held[key].id
            &&& bound.forwarding == held[key].forwarding
            &&& marked.forwarding == forwarding
            &&& marked.id == held[key].id
            &&& marked.target == held[key].target
        },
        forall|other: (i32, i32)|
            #![trigger held[other]]
            other != key && held.contains_key(other) ==> with_target(held, key, target)[other]
                == held[other] && with_forwarding(held, key, forwarding)[other] == held[other],
{
    assert(with_target(held, key, target).dom() =~= held.dom());
    assert(with_forwarding(held, key, forwarding).dom() =~= held.dom());
}

/// A key is made of the first eight bytes of a digest: the first four without their sign bit, which
/// must not come to nothing, and the next four as they are.
pub proof fn law_key_of_digest(digest: Seq<u8>)
    requires
        digest.len() >= 8,
    ensures
        ({
            let first = 0x100_0000 * (digest[0] % 128) + 0x1_0000 * digest[1] + 0x100 * digest[2]
                + digest[3];
            &&& digest_key(digest) is None <==> first == 0
            &&& digest_key(digest) matches Some((process, secret)) ==> {
                &&& process == first
                &&& 0 < process <= i32::MAX
                &&& secret == be_at(digest, 4)
                &&& i32::MIN <= secret <= i32::MAX
            }
        }),
{
}

} // verus!
