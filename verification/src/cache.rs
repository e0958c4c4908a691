//! The peer-client cache: lazily established, reused connections to other
//! nodes, keyed by their ring identifier.
//!
//! The cache itself only bookkeeps: establishing a connection is transport
//! work done by the surrounding program, which stores the resulting handle
//! here and looks it up again on the next request for the same peer. The
//! invariant that matters to the protocol is kept by the contracts: a node
//! never holds a connection to itself.

use std::collections::HashMap;
use vstd::prelude::*;

use crate::ring::Digest;

verus! {

/// Cached connection handles of one node, keyed by peer identifier. `C` is
/// the handle type chosen by the transport layer.
pub struct PeerCache<C> {
    pub owner_id: Digest,
    pub conns: HashMap<Digest, C>,
}

impl<C> PeerCache<C> {
    /// A node never appears in its own connection cache.
    pub open spec fn wf(self) -> bool {
        !self.conns@.contains_key(self.owner_id)
    }

    /// The empty cache of the node with the given identifier.
    pub fn new(owner_id: Digest) -> (c: PeerCache<C>)
        ensures
            c.wf(),
            c.owner_id == owner_id,
            c.conns@ == Map::<Digest, C>::empty(),
    {
        PeerCache { owner_id, conns: HashMap::new() }
    }

    /// The cached handle for peer `id`, if one exists.
    pub fn get(&self, id: Digest) -> (r: Option<&C>)
        ensures
            match r {
                Some(c) => self.conns@.contains_key(id) && *c == self.conns@[id],
                None => !self.conns@.contains_key(id),
            },
    {
        self.conns.get(&id)
    }

    /// Whether a handle for peer `id` is cached.
    pub fn contains(&self, id: Digest) -> (r: bool)
        ensures
            r == self.conns@.contains_key(id),
    {
        self.conns.contains_key(&id)
    }

    /// Stores the handle for peer `id`, replacing any previous one.
    /// Connecting a node to itself is an invariant violation, which the
    /// caller must rule out before dialling.
    pub fn insert(&mut self, id: Digest, conn: C)
        requires
            old(self).wf(),
            id != old(self).owner_id,
        ensures
            final(self).wf(),
            final(self).owner_id == old(self).owner_id,
            final(self).conns@ == old(self).conns@.insert(id, conn),
    {
        self.conns.insert(id, conn);
    }

    /// Drops the handle for peer `id`, if any: eviction after a transport
    /// failure, so that the next request reconnects.
    pub fn remove(&mut self, id: Digest)
        requires
            old(self).wf(),
        ensures
            final(self).wf(),
            final(self).owner_id == old(self).owner_id,
            final(self).conns@ == old(self).conns@.remove(id),
    {
        self.conns.remove(&id);
    }

    /// How many peers have a cached handle.
    pub fn len(&self) -> (n: usize)
        ensures
            n == self.conns@.len(),
    {
        self.conns.len()
    }
}

} // verus!
