//! The connection registry: the authoritative mapping from connection
//! identity to session handle, owned by one server actor. An identity is
//! granted at accept time as the lowest non-negative integer not
//! currently in use, and becomes free again only when the disconnection
//! of its holder is processed.

use vstd::prelude::*;
use vstd::set_lib::lemma_int_range;
use vstd::set_lib::lemma_len_subset;
use vstd::set_lib::set_int_range;

verus! {

/// A cloneable address of one session actor's inbound queue, tagged with
/// the session's own identity. The channel field names the queue endpoint
/// in the embedding runtime.
#[derive(Clone, Copy, Debug)]
pub struct SessionHandle {
    pub id: usize,
    pub channel: u64,
}

/// Holds when `id` is the lowest connection identity not live in `m`.
pub open spec fn is_lowest_free(m: Map<int, u64>, id: int) -> bool {
    &&& 0 <= id
    &&& !m.dom().contains(id)
    &&& forall|j: int| 0 <= j < id ==> m.dom().contains(j)
}

/// The registry of live connections. A slot's index is the identity of
/// the connection stored in it; a vacant slot is a free identity.
pub struct Registry {
    slots: Vec<Option<SessionHandle>>,
}

impl Registry {
    /// The live connections: each identity maps to the channel of the
    /// session handle registered under it.
    pub closed spec fn connections(&self) -> Map<int, u64> {
        Map::new(
            |i: int| 0 <= i < self.slots@.len() && self.slots@[i] is Some,
            |i: int| self.slots@[i]->0.channel,
        )
    }

    /// Every stored handle is tagged with the identity of its slot.
    pub closed spec fn wf(&self) -> bool {
        forall|i: int|
            0 <= i < self.slots@.len() && (#[trigger] self.slots@[i]) is Some
                ==> self.slots@[i]->0.id == i
    }

    /// An empty registry: no connection is live.
    pub fn new() -> (r: Registry)
        ensures
            r.wf(),
            r.connections() == Map::<int, u64>::empty(),
    {
        let r = Registry { slots: Vec::new() };
        proof {
            assert(r.connections() =~= Map::<int, u64>::empty());
        }
        r
    }

    /// The set of live identities is finite.
    pub proof fn lemma_connections_finite(&self)
        ensures
            self.connections().dom().finite(),
    {
        let n = self.slots@.len() as int;
        lemma_int_range(0, n);
        lemma_len_subset(self.connections().dom(), set_int_range(0, n));
    }

    /// Registers a new connection: grants the lowest identity not
    /// currently in use, records the handle under it, and returns the
    /// identity. No live entry is disturbed.
    #[verifier::loop_isolation(false)]
    pub fn insert(&mut self, channel: u64) -> (id: usize)
        requires
            old(self).wf(),
        ensures
            final(self).wf(),
            is_lowest_free(old(self).connections(), id as int),
            id as int == lowest_free_of(old(self).connections()),
            final(self).connections() == old(self).connections().insert(id as int, channel),
    {
        let ghost m0 = self.connections();
        let n = self.slots.len();
        let mut i: usize = 0;
        while i < n
            invariant
                i <= n,
                self == old(self),
                forall|j: int| 0 <= j < i ==> (#[trigger] self.slots@[j]) is Some,
            decreases n - i,
        {
            if self.slots[i].is_none() {
                self.slots[i] = Some(SessionHandle { id: i, channel });
                proof {
                    assert(is_lowest_free(m0, i as int));
                    lemma_lowest_free_unique(m0, i as int);
                    assert(self.connections() =~= m0.insert(i as int, channel));
                }
                return i;
            }
            i += 1;
        }
        self.slots.push(Some(SessionHandle { id: n, channel }));
        proof {
            assert(is_lowest_free(m0, n as int));
            lemma_lowest_free_unique(m0, n as int);
            assert(self.connections() =~= m0.insert(n as int, channel));
        }
        n
    }

    /// Frees a connection identity: removes its entry if one is live and
    /// reports whether one was. This is the only path by which an
    /// identity becomes reusable.
    pub fn remove(&mut self, id: usize) -> (was_live: bool)
        requires
            old(self).wf(),
        ensures
            final(self).wf(),
            was_live == old(self).connections().dom().contains(id as int),
            final(self).connections() == old(self).connections().remove(id as int),
    {
        if id < self.slots.len() {
            if self.slots[id].is_some() {
                self.slots[id] = None;
                proof {
                    assert(self.connections() =~= old(self).connections().remove(id as int));
                }
                return true;
            }
        }
        proof {
            assert(self.connections() =~= old(self).connections().remove(id as int));
        }
        false
    }

    /// Whether an identity is currently live.
    pub fn contains(&self, id: usize) -> (b: bool)
        ensures
            b == self.connections().dom().contains(id as int),
    {
        id < self.slots.len() && self.slots[id].is_some()
    }

    /// The handle registered under an identity, if it is live.
    pub fn get(&self, id: usize) -> (r: Option<SessionHandle>)
        requires
            self.wf(),
        ensures
            r is Some <==> self.connections().dom().contains(id as int),
            r is Some ==> r->0.id == id && r->0.channel == self.connections()[id as int],
    {
        if id < self.slots.len() {
            self.slots[id]
        } else {
            None
        }
    }

    /// The handles of exactly the live connections whose identity is not
    /// in the exclusion list, in ascending identity order, each once:
    /// the target selection of a broadcast.
    #[verifier::loop_isolation(false)]
    pub fn broadcast_targets(&self, exclude: &Vec<usize>) -> (targets: Vec<SessionHandle>)
        requires
            self.wf(),
        ensures
            forall|k: int|
                0 <= k < targets@.len() ==> {
                    let h = #[trigger] targets@[k];
                    &&& self.connections().dom().contains(h.id as int)
                    &&& h.channel == self.connections()[h.id as int]
                    &&& !exclude@.contains(h.id)
                },
            forall|j: int|
                #[trigger] self.connections().dom().contains(j) && !exclude@.contains(j as usize)
                    ==> exists|k: int| 0 <= k < targets@.len() && targets@[k].id as int == j,
            forall|k1: int, k2: int|
                0 <= k1 < k2 < targets@.len() ==> targets@[k1].id < targets@[k2].id,
    {
        let mut targets: Vec<SessionHandle> = Vec::new();
        let n = self.slots.len();
        let mut i: usize = 0;
        while i < n
            invariant
                i <= n,
                forall|k: int|
                    0 <= k < targets@.len() ==> {
                        let h = #[trigger] targets@[k];
                        &&& self.connections().dom().contains(h.id as int)
                        &&& h.id < i
                        &&& h.channel == self.connections()[h.id as int]
                        &&& !exclude@.contains(h.id)
                    },
                forall|j: int|
                    0 <= j < i && #[trigger] self.connections().dom().contains(j)
                        && !exclude@.contains(j as usize)
                        ==> exists|k: int| 0 <= k < targets@.len() && targets@[k].id as int == j,
                forall|k1: int, k2: int|
                    0 <= k1 < k2 < targets@.len() ==> targets@[k1].id < targets@[k2].id,
            decreases n - i,
        {
            let ghost t0 = targets@;
            if let Some(h) = self.slots[i] {
                assert(h.id == i);
                if !contains_id(exclude, h.id) {
                    targets.push(h);
                }
            }
            proof {
                assert forall|j: int|
                    0 <= j < i + 1 && #[trigger] self.connections().dom().contains(j)
                        && !exclude@.contains(j as usize) implies exists|k: int|
                    0 <= k < targets@.len() && targets@[k].id as int == j by {
                    if j < i {
                        let k0 = choose|k: int| 0 <= k < t0.len() && t0[k].id as int == j;
                        assert(targets@[k0].id as int == j);
                    } else {
                        assert(targets@[targets@.len() - 1].id as int == j);
                    }
                }
            }
            i += 1;
        }
        targets
    }
}

/// Whether a list of identities contains a given identity.
#[verifier::loop_isolation(false)]
pub fn contains_id(ids: &Vec<usize>, x: usize) -> (b: bool)
    ensures
        b == ids@.contains(x),
{
    let mut i: usize = 0;
    let n = ids.len();
    while i < n
        invariant
            i <= n,
            forall|j: int| 0 <= j < i ==> ids@[j] != x,
        decreases n - i,
    {
        if ids[i] == x {
            assert(ids@.contains(x)) by {
                assert(ids@[i as int] == x);
            }
            return true;
        }
        i += 1;
    }
    false
}

/// One operation on the registry as the server actor performs it.
pub enum RegistryOp {
    Accept { channel: u64 },
    Disconnect { id: usize },
}

/// The lowest free identity of a map of live connections.
pub open spec fn lowest_free_of(m: Map<int, u64>) -> int {
    choose|i: int| is_lowest_free(m, i)
}

/// The live connections after a sequence of accept and disconnect
/// operations applied to an initially empty registry: an accept grants
/// the lowest free identity, a disconnect frees one.
pub open spec fn registry_after(ops: Seq<RegistryOp>) -> Map<int, u64>
    decreases ops.len(),
{
    if ops.len() == 0 {
        Map::empty()
    } else {
        let m = registry_after(ops.drop_last());
        match ops.last() {
            RegistryOp::Accept { channel } => m.insert(lowest_free_of(m), channel),
            RegistryOp::Disconnect { id } => m.remove(id as int),
        }
    }
}

/// Walking upward over a prefix of live identities reaches the lowest
/// free one.
proof fn lemma_lowest_free_exists_from(m: Map<int, u64>, i: int)
    requires
        m.dom().finite(),
        0 <= i,
        forall|j: int| 0 <= j < i ==> m.dom().contains(j),
    ensures
        exists|k: int| is_lowest_free(m, k),
    decreases m.dom().len() + 1 - i,
{
    lemma_int_range(0, i);
    assert(set_int_range(0, i).subset_of(m.dom()));
    lemma_len_subset(set_int_range(0, i), m.dom());
    if !m.dom().contains(i) {
        assert(is_lowest_free(m, i));
    } else {
        lemma_lowest_free_exists_from(m, i + 1);
    }
}

/// No two distinct identities are both the lowest free one.
proof fn lemma_lowest_free_unique(m: Map<int, u64>, id: int)
    requires
        is_lowest_free(m, id),
    ensures
        lowest_free_of(m) == id,
{
    let w = lowest_free_of(m);
    assert(is_lowest_free(m, w));
    if w < id {
        assert(m.dom().contains(w));
    }
    if id < w {
        assert(m.dom().contains(id));
    }
}

/// Law: whatever the history, the set of live connections stays finite.
pub proof fn lemma_registry_after_finite(ops: Seq<RegistryOp>)
    ensures
        registry_after(ops).dom().finite(),
    decreases ops.len(),
{
    if ops.len() > 0 {
        lemma_registry_after_finite(ops.drop_last());
    }
}

/// Law: over every sequence of accept and disconnect operations starting
/// from the empty registry, the identity an accept grants next is never
/// one that is currently live, and it is the unique lowest free one.
/// Since the registry is a map, no two live entries ever share an
/// identity, and an identity is granted anew only after its removal has
/// been processed.
pub proof fn lemma_registry_ids_unique(ops: Seq<RegistryOp>)
    ensures
        is_lowest_free(registry_after(ops), lowest_free_of(registry_after(ops))),
        !registry_after(ops).dom().contains(lowest_free_of(registry_after(ops))),
{
    lemma_registry_after_finite(ops);
    lemma_lowest_free_exists_from(registry_after(ops), 0);
}

} // verus!
