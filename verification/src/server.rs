//! Per-node routing state and the decision logic of the ring-maintenance
//! protocol: join, stabilize, notify, fix-fingers and the finger scan that
//! drives successor lookup.
//!
//! Every operation that the protocol performs against a remote peer is a
//! plain remote image of a local operation. The functions here are those
//! local operations: they take the values fetched from peers as arguments
//! and return the values to be sent, so the surrounding program only moves
//! bytes. The transition performed by each mutating operation is stated by
//! a spec function (`notify_spec`, `stabilize_spec`), which the idempotence
//! and convergence lemmas reason about.

use vstd::arithmetic::power2::pow2;
use vstd::prelude::*;

use crate::node::Node;
use crate::ring::{finger_start, id_fits, in_open, spec_in_open, Digest};

verus! {

/// Mutable routing state of one locally hosted node.
///
/// `successor` is the node that follows `node` clockwise; it is never unset
/// (a solo node is its own successor). `predecessor` may be unset
/// transiently, immediately after a join and before the first notify from
/// another peer arrives. `finger_table[k]` is intended to hold the node
/// whose identifier is the first one clockwise at or after
/// `finger_start(node.id, k)`; it is seeded with `node` itself and driven
/// toward that target by `fix_fingers`.
pub struct NodeServer {
    pub node: Node,
    pub successor: Node,
    pub predecessor: Option<Node>,
    pub finger_table: Vec<Node>,
    pub bits: usize,
}

impl NodeServer {
    /// All identifiers held by the state lie in the `2^bits`-point ring and
    /// the finger table has one entry per bit.
    pub open spec fn wf(self) -> bool {
        &&& 1 <= self.bits <= 64
        &&& id_fits(self.node.id, self.bits as nat)
        &&& id_fits(self.successor.id, self.bits as nat)
        &&& match self.predecessor {
            Some(p) => id_fits(p.id, self.bits as nat),
            None => true,
        }
        &&& self.finger_table@.len() == self.bits
        &&& forall|i: int|
            0 <= i < self.finger_table@.len() ==> id_fits(
                (#[trigger] self.finger_table@[i]).id,
                self.bits as nat,
            )
    }

    /// Initializes the ring of one node on an identifier space of the given
    /// bit width: the node is its own successor and predecessor, and every
    /// finger points at it.
    pub fn new_with_bits(node: &Node, bits: usize) -> (s: NodeServer)
        requires
            1 <= bits <= 64,
            id_fits(node.id, bits as nat),
        ensures
            s.wf(),
            s.bits == bits,
            s.node == *node,
            s.successor == *node,
            s.predecessor == Some(*node),
            s.finger_table@.len() == bits,
            forall|i: int| 0 <= i < bits ==> s.finger_table@[i] == *node,
    {
        let mut finger_table: Vec<Node> = Vec::new();
        let mut i: usize = 0;
        while i < bits
            invariant
                i <= bits,
                finger_table@.len() == i,
                forall|j: int| 0 <= j < i ==> finger_table@[j] == *node,
            decreases bits - i,
        {
            finger_table.push(node.clone());
            i = i + 1;
        }
        NodeServer {
            node: node.clone(),
            successor: node.clone(),
            predecessor: Some(node.clone()),
            finger_table,
            bits,
        }
    }

    /// Initializes a solo ring on the full 64-bit identifier space.
    pub fn new(node: &Node) -> (s: NodeServer)
        ensures
            s.wf(),
            s.bits == 64,
            s.node == *node,
            s.successor == *node,
            s.predecessor == Some(*node),
            s.finger_table@.len() == 64,
            forall|i: int| 0 <= i < 64 ==> s.finger_table@[i] == *node,
    {
        Self::new_with_bits(node, 64)
    }

    /// The start of finger interval `k`: `(node.id + 2^k) mod 2^bits`.
    pub fn finger_table_start(&self, k: usize) -> (r: Digest)
        requires
            self.wf(),
            k < self.bits,
        ensures
            r == finger_start(self.node.id, k as nat, self.bits as nat),
            (r as nat) < pow2(self.bits as nat),
    {
        crate::ring::finger_table_start(self.node.id, k, self.bits)
    }

    /// The node record of this node.
    pub fn get_node(&self) -> (r: Node)
        ensures
            r == self.node,
    {
        self.node.clone()
    }

    /// The current successor.
    pub fn get_successor(&self) -> (r: Node)
        ensures
            r == self.successor,
    {
        self.successor.clone()
    }

    /// The current predecessor, if one is known.
    pub fn get_predecessor(&self) -> (r: Option<Node>)
        ensures
            r == self.predecessor,
    {
        match &self.predecessor {
            Some(p) => Some(p.clone()),
            None => None,
        }
    }

    /// Finger table entry `i`.
    pub fn get_finger(&self, i: usize) -> (r: Node)
        requires
            i < self.finger_table@.len(),
        ensures
            r == self.finger_table@[i as int],
    {
        self.finger_table[i].clone()
    }

    /// Joins a ring through an introducer: forget the predecessor and adopt
    /// the given node — the introducer's answer to
    /// `find_successor(node.id)` — as successor. The finger table is left
    /// seeded with this node itself until `fix_fingers` runs.
    pub fn join(&mut self, successor: Node)
        requires
            old(self).wf(),
            id_fits(successor.id, old(self).bits as nat),
        ensures
            *final(self) == (NodeServer {
                successor,
                predecessor: None::<Node>,
                ..*old(self)
            }),
            final(self).wf(),
    {
        self.predecessor = None;
        self.successor = successor;
    }

    /// Overwrites finger table entry `k` with the given node — the ring's
    /// answer to `find_successor(finger_start(node.id, k))`. The periodic
    /// driver picks `k` from `[1, bits)`, since entry 0 tracks the
    /// successor; repairing entry 0 explicitly is allowed all the same.
    pub fn fix_fingers(&mut self, k: usize, target: Node)
        requires
            old(self).wf(),
            k < old(self).bits,
            id_fits(target.id, old(self).bits as nat),
        ensures
            final(self).finger_table@ == old(self).finger_table@.update(k as int, target),
            final(self).node == old(self).node,
            final(self).successor == old(self).successor,
            final(self).predecessor == old(self).predecessor,
            final(self).bits == old(self).bits,
            final(self).wf(),
    {
        self.finger_table[k] = target;
    }

    /// The scan of `closest_preceding_finger` from entry `i - 1` downward:
    /// the highest finger below `i` lying strictly in `(node.id, id)`, or
    /// the node itself if none does.
    pub open spec fn cpf_from(self, id: Digest, i: int) -> Node
        decreases i,
    {
        if i <= 0 {
            self.node
        } else if spec_in_open(self.finger_table@[i - 1].id, self.node.id, id) {
            self.finger_table@[i - 1]
        } else {
            self.cpf_from(id, i - 1)
        }
    }

    /// What `closest_preceding_finger` returns: the highest finger lying
    /// strictly in `(node.id, id)`, or the node itself.
    pub open spec fn closest_preceding_finger_spec(self, id: Digest) -> Node {
        self.cpf_from(id, self.finger_table@.len() as int)
    }

    proof fn lemma_cpf_from_in_range(self, id: Digest, i: int)
        requires
            0 <= i <= self.finger_table@.len(),
        ensures
            self.cpf_from(id, i) == self.node || spec_in_open(
                self.cpf_from(id, i).id,
                self.node.id,
                id,
            ),
        decreases i,
    {
        if i > 0 && !spec_in_open(self.finger_table@[i - 1].id, self.node.id, id) {
            self.lemma_cpf_from_in_range(id, i - 1);
        }
    }

    /// The closest preceding finger is either the node itself or a node
    /// lying strictly in the clockwise open interval `(node.id, target)`.
    pub proof fn lemma_closest_preceding_finger_in_range(self, id: Digest)
        ensures
            self.closest_preceding_finger_spec(id) == self.node || spec_in_open(
                self.closest_preceding_finger_spec(id).id,
                self.node.id,
                id,
            ),
    {
        self.lemma_cpf_from_in_range(id, self.finger_table@.len() as int);
    }

    /// Scans the finger table from the top down and returns the first entry
    /// lying strictly in `(node.id, id)`, or this node if none qualifies.
    pub fn closest_preceding_finger(&self, id: Digest) -> (r: Node)
        requires
            self.wf(),
        ensures
            r == self.closest_preceding_finger_spec(id),
            r == self.node || spec_in_open(r.id, self.node.id, id),
            id_fits(r.id, self.bits as nat),
    {
        proof {
            self.lemma_closest_preceding_finger_in_range(id);
        }
        let mut i: usize = self.finger_table.len();
        while i > 0
            invariant
                self.wf(),
                i <= self.finger_table@.len(),
                self.closest_preceding_finger_spec(id) == self.cpf_from(id, i as int),
            decreases i,
        {
            i = i - 1;
            let f = &self.finger_table[i];
            if in_open(f.id, self.node.id, id) {
                return f.clone();
            }
        }
        self.node.clone()
    }

    /// The predecessor update of `notify`: a candidate claiming to precede
    /// this node is adopted if no predecessor is known, or if it lies
    /// strictly between the current predecessor and this node.
    pub open spec fn notify_spec(self, candidate: Node) -> NodeServer {
        match self.predecessor {
            None => NodeServer { predecessor: Some(candidate), ..self },
            Some(p) => if spec_in_open(candidate.id, p.id, self.node.id) {
                NodeServer { predecessor: Some(candidate), ..self }
            } else {
                self
            },
        }
    }

    /// Handles a peer's claim that it may be this node's predecessor.
    pub fn notify(&mut self, candidate: Node)
        requires
            old(self).wf(),
            id_fits(candidate.id, old(self).bits as nat),
        ensures
            *final(self) == old(self).notify_spec(candidate),
            final(self).wf(),
    {
        let adopt: bool = match &self.predecessor {
            None => true,
            Some(p) => in_open(candidate.id, p.id, self.node.id),
        };
        if adopt {
            self.predecessor = Some(candidate);
        }
    }

    /// The successor update of `stabilize`, given the predecessor reported
    /// by the current successor: that node is adopted as the new successor
    /// if it lies strictly between this node and the current successor on
    /// the ring. For a node that is its own successor the interval
    /// degenerates to the whole ring, so any other node claimed as
    /// predecessor is adopted — this is how a solo node closes the cycle
    /// after another node has joined through it.
    pub open spec fn stabilize_spec(self, succ_pred: Option<Node>) -> NodeServer {
        match succ_pred {
            Some(x) => if spec_in_open(x.id, self.node.id, self.successor.id) {
                NodeServer { successor: x, ..self }
            } else {
                self
            },
            None => self,
        }
    }

    /// Whom `stabilize` must notify afterwards: the (possibly new)
    /// successor — or nobody when the node is its own successor, since a
    /// node never connects to itself.
    pub open spec fn stabilize_notify_target(self, succ_pred: Option<Node>) -> Option<Node> {
        let after = self.stabilize_spec(succ_pred);
        if after.successor.id == after.node.id {
            None
        } else {
            Some(after.successor)
        }
    }

    /// One stabilize tick, after the caller has fetched the current
    /// successor's predecessor (`succ_pred`; for a node that is its own
    /// successor this is its own predecessor, read locally). Returns the
    /// node to which the caller must then send `notify(node)`, if any.
    pub fn stabilize(&mut self, succ_pred: Option<Node>) -> (target: Option<Node>)
        requires
            old(self).wf(),
            match succ_pred {
                Some(x) => id_fits(x.id, old(self).bits as nat),
                None => true,
            },
        ensures
            *final(self) == old(self).stabilize_spec(succ_pred),
            target == old(self).stabilize_notify_target(succ_pred),
            final(self).wf(),
    {
        match succ_pred {
            Some(x) => {
                if in_open(x.id, self.node.id, self.successor.id) {
                    self.successor = x;
                }
            },
            None => {},
        }
        if self.successor.id == self.node.id {
            None
        } else {
            Some(self.successor.clone())
        }
    }

    /// Notify is idempotent: a second notify with the same candidate
    /// changes nothing.
    pub proof fn lemma_notify_idempotent(self, candidate: Node)
        ensures
            self.notify_spec(candidate).notify_spec(candidate) == self.notify_spec(candidate),
    {
    }

    /// Stabilize is idempotent: a second stabilize with the same fetched
    /// predecessor changes nothing.
    pub proof fn lemma_stabilize_idempotent(self, succ_pred: Option<Node>)
        ensures
            self.stabilize_spec(succ_pred).stabilize_spec(succ_pred) == self.stabilize_spec(
                succ_pred,
            ),
    {
    }
}

} // verus!
