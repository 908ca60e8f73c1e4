//! The latest snapshots of the pool and of the connections to servers.
use vstd::prelude::*;

use crate::snapshot::{PoolSnapshot, ServerSnapshot};

verus! {

/// The latest snapshots.
#[derive(Debug)]
pub struct SnapshotStore {
    pool: PoolSnapshot,
    servers: Vec<ServerSnapshot>,
}

/// The latest snapshots: that of the pool, and that of each server connection by its number.
pub struct StoreFacts {
    pub pool: PoolSnapshot,
    pub servers: Map<u64, ServerSnapshot>,
}

/// The numbers of some server connections.
pub open spec fn server_ids(servers: Seq<ServerSnapshot>) -> Seq<u64> {
    servers.map_values(|server: ServerSnapshot| server.backend_id)
}

/// Snapshots of server connections by their numbers.
pub open spec fn by_id(servers: Seq<ServerSnapshot>) -> Map<u64, ServerSnapshot> {
    Map::new(
        |id: u64| server_ids(servers).contains(id),
        |id: u64| servers[server_ids(servers).index_of(id)],
    )
}

proof fn lemma_by_id(servers: Seq<ServerSnapshot>, i: int)
    requires
        server_ids(servers).no_duplicates(),
        0 <= i < servers.len(),
    ensures
        by_id(servers).contains_key(servers[i].backend_id),
        by_id(servers)[servers[i].backend_id] == servers[i],
{
    let ids = server_ids(servers);
    assert(ids[i] == servers[i].backend_id);
    let k = ids.index_of(ids[i]);
    assert(ids[k] == ids[i]);
}

impl View for SnapshotStore {
    type V = StoreFacts;

    closed spec fn view(&self) -> StoreFacts {
        StoreFacts { pool: self.pool, servers: by_id(self.servers@) }
    }
}

impl SnapshotStore {
    /// No server connection has two snapshots.
    pub closed spec fn wf(self) -> bool {
        server_ids(self.servers@).no_duplicates()
    }

    /// There are no server connections yet.
    pub fn new(pool: PoolSnapshot) -> (r: SnapshotStore)
        ensures
            r.wf(),
            r@.pool == pool,
            r@.servers == Map::<u64, ServerSnapshot>::empty(),
    {
        let servers: Vec<ServerSnapshot> = Vec::new();
        assert(by_id(servers@) =~= Map::<u64, ServerSnapshot>::empty());
        SnapshotStore { pool, servers }
    }

    /// The pool's snapshot.
    pub fn pool_snapshot(&self) -> (r: &PoolSnapshot)
        ensures
            *r == self@.pool,
    {
        &self.pool
    }

    /// Takes the pool's snapshot.
    pub fn set_pool_snapshot(&mut self, snapshot: PoolSnapshot)
        requires
            old(self).wf(),
        ensures
            final(self).wf(),
            final(self)@ == (StoreFacts { pool: snapshot, ..old(self)@ }),
    {
        self.pool = snapshot;
    }

    /// The snapshots of all server connections, one for each.
    pub fn server_snapshots(&self) -> (r: &Vec<ServerSnapshot>)
        requires
            self.wf(),
        ensures
            server_ids(r@).no_duplicates(),
            by_id(r@) == self@.servers,
    {
        &self.servers
    }

    fn find(&self, backend_id: u64) -> (r: Option<usize>)
        requires
            self.wf(),
        ensures
            match r {
                Some(i) => i < self.servers@.len() && self.servers@[i as int].backend_id
                    == backend_id,
                None => !server_ids(self.servers@).contains(backend_id),
            },
    {
        let mut i: usize = 0;
        while i < self.servers.len()
            invariant
                i <= self.servers@.len(),
                forall|j: int| 0 <= j < i ==> server_ids(self.servers@)[j] != backend_id,
            decreases self.servers@.len() - i,
        {
            if self.servers[i].backend_id == backend_id {
                return Some(i);
            }
            i += 1;
        }
        None
    }

    /// Takes the snapshot of a server connection, in place of an earlier one of the same number.
    pub fn set_server_snapshot(&mut self, snapshot: ServerSnapshot)
        requires
            old(self).wf(),
        ensures
            final(self).wf(),
            final(self)@ == (StoreFacts {
                servers: old(self)@.servers.insert(snapshot.backend_id, snapshot),
                ..old(self)@
            }),
    {
        let ghost before = self.servers@;
        let ghost id = snapshot.backend_id;
        match self.find(snapshot.backend_id) {
            Some(i) => {
                self.servers.set(i, snapshot);
                proof {
                    assert(server_ids(self.servers@) =~= server_ids(before));
                    lemma_by_id(before, i as int);
                    lemma_by_id(self.servers@, i as int);
                    assert forall|other: u64|
                        by_id(before).contains_key(other) && other != id implies by_id(
                        self.servers@,
                    )[other] == by_id(before)[other] by {
                        let k = server_ids(before).index_of(other);
                        assert(server_ids(before)[k] == other);
                        assert(k != i);
                    }
                    assert(by_id(self.servers@) =~= by_id(before).insert(id, snapshot));
                }
            },
            None => {
                self.servers.push(snapshot);
                proof {
                    let after = self.servers@;
                    let ids = server_ids(before);
                    assert(server_ids(after) =~= ids.push(id));
                    assert forall|i: int, j: int|
                        0 <= i < ids.len() + 1 && 0 <= j < ids.len() + 1 && i != j implies
                        server_ids(after)[i] != server_ids(after)[j] by {
                        if i < ids.len() {
                            assert(ids.contains(ids[i]));
                        }
                        if j < ids.len() {
                            assert(ids.contains(ids[j]));
                        }
                    }
                    lemma_by_id(after, before.len() as int);
                    assert forall|other: u64| #[trigger]
                        by_id(after).contains_key(other) implies by_id(before).insert(
                        id,
                        snapshot,
                    ).contains_key(other) && by_id(after)[other] == by_id(before).insert(
                        id,
                        snapshot,
                    )[other] by {
                        let k = server_ids(after).index_of(other);
                        assert(server_ids(after)[k] == other);
                        if k < before.len() {
                            assert(ids[k] == other);
                            lemma_by_id(before, k);
                            lemma_by_id(after, k);
                        }
                    }
                    assert forall|other: u64| #[trigger]
                        by_id(before).contains_key(other) implies by_id(after).contains_key(
                        other,
                    ) by {
                        let k = ids.index_of(other);
                        assert(ids[k] == other);
                        lemma_by_id(after, k);
                    }
                    assert(by_id(after) =~= by_id(before).insert(id, snapshot));
                }
            },
        }
    }

    /// Forgets a server connection. The answer is whether it was known.
    pub fn remove_server_snapshot(&mut self, backend_id: u64) -> (r: bool)
        requires
            old(self).wf(),
        ensures
            final(self).wf(),
            r == old(self)@.servers.contains_key(backend_id),
            final(self)@ == (StoreFacts {
                servers: old(self)@.servers.remove(backend_id),
                ..old(self)@
            }),
    {
        let ghost before = self.servers@;
        match self.find(backend_id) {
            Some(i) => {
                self.servers.remove(i);
                proof {
                    let after = self.servers@;
                    let ids = server_ids(before);
                    lemma_by_id(before, i as int);
                    assert(ids[i as int] == backend_id);
                    assert(server_ids(after) =~= ids.remove(i as int));
                    assert forall|j: int| 0 <= j < after.len() implies (#[trigger] after[j])
                        == before[if j < i {
                        j
                    } else {
                        j + 1
                    }] by {}
                    assert forall|other: u64| #[trigger]
                        by_id(after).contains_key(other) implies by_id(before).remove(
                        backend_id,
                    ).contains_key(other) && by_id(after)[other] == by_id(before)[other] by {
                        let k = server_ids(after).index_of(other);
                        assert(server_ids(after)[k] == other);
                        let place = if k < i {
                            k
                        } else {
                            k + 1
                        };
                        assert(ids[place] == other);
                        lemma_by_id(before, place);
                        lemma_by_id(after, k);
                    }
                    assert forall|other: u64| #[trigger]
                        by_id(before).contains_key(other) && other != backend_id implies by_id(
                        after,
                    ).contains_key(other) by {
                        let k = ids.index_of(other);
                        assert(ids[k] == other);
                        let place = if k < i {
                            k
                        } else {
                            k - 1
                        };
                        assert(server_ids(after)[place] == other);
                        lemma_by_id(after, place);
                    }
                    assert(by_id(after) =~= by_id(before).remove(backend_id));
                }
                true
            },
            None => {
                assert(by_id(before).remove(backend_id) =~= by_id(before));
                false
            },
        }
    }
}

} // verus!
