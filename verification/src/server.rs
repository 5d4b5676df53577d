//! The server actor's decision logic: the single owner of the
//! authoritative connection registry. The embedding runtime owns the two
//! inbound queues (connection requests and application calls), drains
//! exactly one ready event per iteration, and invokes one of these
//! operations for it, so every registry mutation and every extension
//! invocation is serialized without locks.

use crate::registry::is_lowest_free;
use crate::registry::lowest_free_of;
use crate::registry::Registry;
use crate::registry::SessionHandle;
use vstd::prelude::*;

verus! {

/// The state the server actor owns: the registry of live connections.
/// The server-level extension logic lives in the embedding application,
/// which invokes these operations from its actor loop.
pub struct Server {
    registry: Registry,
}

impl Server {
    /// The live connections: each identity maps to the channel of the
    /// session handle registered under it.
    pub closed spec fn connections(&self) -> Map<int, u64> {
        self.registry.connections()
    }

    /// The registry is well-formed.
    pub closed spec fn wf(&self) -> bool {
        self.registry.wf()
    }

    /// A server actor with no live connections.
    pub fn create() -> (s: Server)
        ensures
            s.wf(),
            s.connections() == Map::<int, u64>::empty(),
    {
        Server { registry: Registry::new() }
    }

    /// Handles one connection-establishment request drained from the
    /// connection queue: grants the lowest identity not currently in
    /// use, registers the new session's queue endpoint under it, and
    /// returns the session handle to the caller.
    pub fn accept(&mut self, channel: u64) -> (h: SessionHandle)
        requires
            old(self).wf(),
        ensures
            final(self).wf(),
            is_lowest_free(old(self).connections(), h.id as int),
            h.id as int == lowest_free_of(old(self).connections()),
            h.channel == channel,
            final(self).connections() == old(self).connections().insert(h.id as int, channel),
    {
        let id = self.registry.insert(channel);
        SessionHandle { id, channel }
    }

    /// Handles one session actor's termination report: frees its
    /// identity. Invoked by the actor loop itself, never externally;
    /// only this path makes an identity reusable.
    pub fn disconnected(&mut self, id: usize) -> (was_live: bool)
        requires
            old(self).wf(),
        ensures
            final(self).wf(),
            was_live == old(self).connections().dom().contains(id as int),
            final(self).connections() == old(self).connections().remove(id as int),
    {
        self.registry.remove(id)
    }

    /// Handles one application call drained from the call queue, here a
    /// broadcast with an exclusion list: returns the handles of exactly
    /// the live connections whose identity is not excluded, each once,
    /// in ascending identity order. The caller delivers the payload to
    /// each returned handle.
    pub fn call(&self, exclude: &Vec<usize>) -> (targets: Vec<SessionHandle>)
        requires
            self.wf(),
        ensures
            forall|k: int|
                0 <= k < targets@.len() ==> {
                    let h = #[trigger] targets@[k];
                    &&& self.connections().dom().contains(h.id as int)
                    &&& h.channel == self.connections()[h.id as int]
                    &&& !exclude@.contains(h.id)
                },
            forall|j: int|
                #[trigger] self.connections().dom().contains(j) && !exclude@.contains(j as usize)
                    ==> exists|k: int| 0 <= k < targets@.len() && targets@[k].id as int == j,
            forall|k1: int, k2: int|
                0 <= k1 < k2 < targets@.len() ==> targets@[k1].id < targets@[k2].id,
    {
        self.registry.broadcast_targets(exclude)
    }

    /// Whether an identity is currently live.
    pub fn contains(&self, id: usize) -> (b: bool)
        ensures
            b == self.connections().dom().contains(id as int),
    {
        self.registry.contains(id)
    }

    /// The handle registered under an identity, if it is live.
    pub fn get(&self, id: usize) -> (r: Option<SessionHandle>)
        requires
            self.wf(),
        ensures
            r is Some <==> self.connections().dom().contains(id as int),
            r is Some ==> r->0.id == id && r->0.channel == self.connections()[id as int],
    {
        self.registry.get(id)
    }
}

} // verus!
