//! The node record: an immutable descriptor of a peer, carrying its ring
//! identifier and its transport-layer address. The identifier is derived
//! deterministically from the address by a fixed hash, so the same address
//! produces the same identifier on every peer.

use std::collections::hash_map::DefaultHasher;
use std::hash::Hasher;
use vstd::prelude::*;
use vstd::std_specs::hash::DefaultHasherAdditionalSpecFns;
use vstd::string::StringSliceAdditionalSpecFns;

verus! {

/// A peer of the ring: its identifier and its network address. Two records
/// with equal `id` denote the same peer; addresses are assumed normalized
/// by the operator.
#[derive(Debug)]
pub struct Node {
    pub id: u64,
    pub addr: String,
}

impl Clone for Node {
    fn clone(&self) -> (r: Node)
        ensures
            r == *self,
    {
        Node { id: self.id, addr: self.addr.clone() }
    }
}

/// The digest of a byte sequence under the fixed hash shared by all peers.
/// A function of the bytes alone: hashing equal byte sequences yields equal
/// digests, in every process.
pub open spec fn hash_of(bytes: Seq<u8>) -> u64 {
    DefaultHasher::spec_finish(seq![bytes])
}

/// Hashes a byte string into the 64-bit identifier space.
pub fn calculate_hash(data: &[u8]) -> (r: u64)
    ensures
        r == hash_of(data@),
{
    let mut hasher = DefaultHasher::new();
    hasher.write(data);
    hasher.finish()
}

/// Builds the node record for an address: the identifier is the digest of
/// the address bytes.
pub fn construct_node(addr: &str) -> (n: Node)
    ensures
        n.addr@ == addr@,
        n.id == hash_of(addr.spec_bytes()),
{
    Node { addr: addr.to_owned(), id: calculate_hash(addr.as_bytes()) }
}

/// Hashing the same bytes twice yields the same identifier: the digest
/// depends on the hashed bytes alone.
pub proof fn lemma_hash_deterministic(a: Seq<u8>, b: Seq<u8>)
    requires
        a == b,
    ensures
        hash_of(a) == hash_of(b),
{
}

} // verus!
