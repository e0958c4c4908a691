//! The converged ring and its laws.
//!
//! A ring is converged when every node's successor is its clockwise
//! neighbour and every node's predecessor is its counter-clockwise
//! neighbour. This module states that shape over a sequence of node states
//! ordered by identifier, and proves the structural laws of a converged
//! ring: successor and predecessor are inverse, successor pointers form a
//! single cycle through all nodes, each key has exactly one owner, and a
//! stabilize tick changes nothing.

use vstd::arithmetic::div_mod::{
    lemma_mod_add_multiples_vanish, lemma_mod_division_less_than_divisor, lemma_mod_self_0,
    lemma_mod_sub_multiples_vanish, lemma_small_mod,
};
use vstd::prelude::*;

use crate::node::Node;
use crate::ring::{finger_start, spec_in_half_open_right, Digest};
use crate::server::NodeServer;

verus! {

/// Index of the clockwise neighbour in a ring of `n` nodes.
pub open spec fn succ_idx(n: int, i: int) -> int {
    (i + 1) % n
}

/// Index of the counter-clockwise neighbour in a ring of `n` nodes.
pub open spec fn pred_idx(n: int, i: int) -> int {
    (i + n - 1) % n
}

/// Identifiers in strictly increasing order: the clockwise order of the
/// ring, starting at its lowest identifier.
pub open spec fn sorted_distinct(ids: Seq<Digest>) -> bool {
    forall|i: int, j: int| 0 <= i < j < ids.len() ==> ids[i] < ids[j]
}

/// The identifiers of a sequence of node states, in the same order.
pub open spec fn ring_ids(ss: Seq<NodeServer>) -> Seq<Digest> {
    ss.map(|i: int, s: NodeServer| s.node.id)
}

/// A converged ring with no in-flight churn: the states are ordered by
/// identifier, every successor points at the clockwise neighbour, and
/// every predecessor at the counter-clockwise neighbour.
pub open spec fn ring_converged(ss: Seq<NodeServer>) -> bool {
    &&& ss.len() >= 1
    &&& sorted_distinct(ring_ids(ss))
    &&& forall|i: int|
        0 <= i < ss.len() ==> (#[trigger] ss[i]).successor == ss[succ_idx(ss.len() as int, i)].node
    &&& forall|i: int|
        0 <= i < ss.len() ==> (#[trigger] ss[i]).predecessor == Some(
            ss[pred_idx(ss.len() as int, i)].node,
        )
}

/// Successor and predecessor indices stay in the ring and are inverse to
/// each other.
pub proof fn lemma_succ_pred_inverse(n: int, i: int)
    requires
        1 <= n,
        0 <= i < n,
    ensures
        0 <= succ_idx(n, i) < n,
        0 <= pred_idx(n, i) < n,
        pred_idx(n, succ_idx(n, i)) == i,
        succ_idx(n, pred_idx(n, i)) == i,
{
    if i + 1 < n {
        lemma_small_mod((i + 1) as nat, n as nat);
        lemma_mod_add_multiples_vanish(i, n);
        lemma_small_mod(i as nat, n as nat);
    } else {
        lemma_mod_self_0(n);
        lemma_small_mod((n - 1) as nat, n as nat);
    }
    if i == 0 {
        lemma_small_mod((n - 1) as nat, n as nat);
        lemma_mod_self_0(n);
    } else {
        lemma_mod_add_multiples_vanish(i - 1, n);
        lemma_small_mod((i - 1) as nat, n as nat);
        lemma_small_mod(i as nat, n as nat);
    }
}

/// In a converged ring every node is the predecessor of its successor:
/// `n.successor.predecessor == n`.
pub proof fn lemma_converged_successor_predecessor(ss: Seq<NodeServer>, i: int)
    requires
        ring_converged(ss),
        0 <= i < ss.len(),
    ensures
        ss[i].successor == ss[succ_idx(ss.len() as int, i)].node,
        ss[succ_idx(ss.len() as int, i)].predecessor == Some(ss[i].node),
{
    lemma_succ_pred_inverse(ss.len() as int, i);
}

/// On a converged ring one stabilize tick is a no-op: the stabilizing node
/// keeps its successor, and the successor it then notifies keeps its
/// predecessor. Together with the idempotence lemmas of `NodeServer` this
/// is the steady state of the maintenance protocol.
pub proof fn lemma_stabilize_noop_on_converged(ss: Seq<NodeServer>, i: int)
    requires
        ring_converged(ss),
        0 <= i < ss.len(),
    ensures
        ss[i].stabilize_spec(ss[succ_idx(ss.len() as int, i)].predecessor) == ss[i],
        ss[succ_idx(ss.len() as int, i)].notify_spec(ss[i].node) == ss[succ_idx(
            ss.len() as int,
            i,
        )],
{
    let n = ss.len() as int;
    let s = succ_idx(n, i);
    lemma_succ_pred_inverse(n, i);
    assert(ss[s].predecessor == Some(ss[i].node));
    let c = ss[i].node;
    assert(!crate::ring::spec_in_open(c.id, c.id, ss[i].successor.id));
    assert(ss[i].stabilize_spec(Some(c)) == ss[i]);
    assert(!crate::ring::spec_in_open(c.id, c.id, ss[s].node.id));
    assert(ss[s].notify_spec(c) == ss[s]);
}

/// The index reached from `i` after `k` hops along successor pointers.
pub open spec fn follow_succ(n: int, i: int, k: nat) -> int
    decreases k,
{
    if k == 0 {
        i
    } else {
        succ_idx(n, follow_succ(n, i, (k - 1) as nat))
    }
}

proof fn lemma_follow_succ_adds(n: int, i: int, k: nat)
    requires
        1 <= n,
        0 <= i < n,
    ensures
        follow_succ(n, i, k) == (i + k) % n,
        0 <= follow_succ(n, i, k) < n,
    decreases k,
{
    lemma_mod_division_less_than_divisor(i + k, n);
    if k == 0 {
        lemma_small_mod(i as nat, n as nat);
    } else {
        lemma_follow_succ_adds(n, i, (k - 1) as nat);
        let f = follow_succ(n, i, (k - 1) as nat);
        if n == 1 {
            lemma_mod_division_less_than_divisor(f + 1, n);
            lemma_mod_division_less_than_divisor(i + k, n);
        } else {
            vstd::arithmetic::div_mod::lemma_add_mod_noop(i + k - 1, 1, n);
            lemma_small_mod(1nat, n as nat);
        }
    }
}

/// The node reached after `k` successor hops from `ss[i]`.
pub open spec fn nth_successor(ss: Seq<NodeServer>, i: int, k: nat) -> Node {
    ss[follow_succ(ss.len() as int, i, k)].node
}

/// Following successor pointers from any node of a converged ring of N
/// nodes returns to that node after exactly N steps: N hops close the
/// cycle, and every earlier hop lands on a different node.
pub proof fn lemma_successor_cycle(ss: Seq<NodeServer>, i: int)
    requires
        ring_converged(ss),
        0 <= i < ss.len(),
    ensures
        nth_successor(ss, i, ss.len() as nat) == ss[i].node,
        forall|k: nat| 0 < k < ss.len() ==> nth_successor(ss, i, k) != ss[i].node,
{
    let n = ss.len() as int;
    lemma_follow_succ_adds(n, i, n as nat);
    lemma_mod_add_multiples_vanish(i, n);
    lemma_small_mod(i as nat, n as nat);
    assert forall|k: nat| 0 < k < ss.len() implies nth_successor(ss, i, k) != ss[i].node by {
        lemma_follow_succ_adds(n, i, k);
        let j = (i + k) % n;
        if i + k < n {
            lemma_small_mod((i + k) as nat, n as nat);
            assert(ring_ids(ss)[i] < ring_ids(ss)[j]);
        } else {
            lemma_mod_sub_multiples_vanish(i + k, n);
            lemma_small_mod((i + k - n) as nat, n as nat);
            assert(j == i + k - n);
            assert(ring_ids(ss)[j] < ring_ids(ss)[i]);
        }
        assert(ss[j].node.id != ss[i].node.id);
    }
}

/// The first index at or after `i` whose identifier is at least `k`, or 0
/// (the wrap around the top of the ring) if there is none.
pub open spec fn first_at_or_after(ids: Seq<Digest>, k: Digest, i: int) -> int
    decreases ids.len() - i,
{
    if i < 0 || i >= ids.len() {
        0
    } else if ids[i] >= k {
        i
    } else {
        first_at_or_after(ids, k, i + 1)
    }
}

/// The index of the owner of key `k`: the node whose identifier is the
/// first one clockwise at or after `k`.
pub open spec fn owner_idx(ids: Seq<Digest>, k: Digest) -> int {
    first_at_or_after(ids, k, 0)
}

proof fn lemma_first_at_or_after_props(ids: Seq<Digest>, k: Digest, i: int)
    requires
        0 <= i <= ids.len(),
    ensures
        ({
            let r = first_at_or_after(ids, k, i);
            (r == 0 && forall|j: int| i <= j < ids.len() ==> ids[j] < k) || (i <= r < ids.len()
                && ids[r] >= k && forall|j: int| i <= j < r ==> ids[j] < k)
        }),
    decreases ids.len() - i,
{
    if i < ids.len() && ids[i] < k {
        lemma_first_at_or_after_props(ids, k, i + 1);
    }
}

/// Each key has exactly one owner: `j` owns `k` iff `k` lies in the
/// clockwise half-open interval from `j`'s counter-clockwise neighbour to
/// `j`. The intervals `(pred(j).id, j.id]` partition the identifier space.
pub proof fn lemma_owner_characterizes(ids: Seq<Digest>, k: Digest, j: int)
    requires
        sorted_distinct(ids),
        ids.len() >= 1,
        0 <= j < ids.len(),
    ensures
        spec_in_half_open_right(k, ids[pred_idx(ids.len() as int, j)], ids[j]) <==> j == owner_idx(
            ids,
            k,
        ),
{
    let n = ids.len() as int;
    lemma_succ_pred_inverse(n, j);
    lemma_first_at_or_after_props(ids, k, 0);
    let o = owner_idx(ids, k);
    if j == 0 {
        assert(pred_idx(n, 0) == n - 1) by {
            lemma_small_mod((n - 1) as nat, n as nat);
        }
    } else {
        assert(pred_idx(n, j) == j - 1) by {
            lemma_mod_add_multiples_vanish(j - 1, n);
            lemma_small_mod((j - 1) as nat, n as nat);
        }
    }
}

/// Lookup agreement: two indices that both satisfy the owner
/// characterization for the same key are equal. A successor lookup for `k`
/// therefore returns the same node whichever peer initiates it.
pub proof fn lemma_owner_unique(ids: Seq<Digest>, k: Digest, j1: int, j2: int)
    requires
        sorted_distinct(ids),
        ids.len() >= 1,
        0 <= j1 < ids.len(),
        0 <= j2 < ids.len(),
        spec_in_half_open_right(k, ids[pred_idx(ids.len() as int, j1)], ids[j1]),
        spec_in_half_open_right(k, ids[pred_idx(ids.len() as int, j2)], ids[j2]),
    ensures
        j1 == j2,
{
    lemma_owner_characterizes(ids, k, j1);
    lemma_owner_characterizes(ids, k, j2);
}

/// The start of finger `k` of node `i`, as a point on the ring.
pub open spec fn finger_start_of(ss: Seq<NodeServer>, i: int, k: int) -> Digest {
    finger_start(ss[i].node.id, k as nat, ss[i].bits as nat) as Digest
}

/// Fingers fully repaired: every finger entry of every node holds the
/// owner of the finger's start. `fix_fingers` drives a ring toward this
/// state one entry at a time.
pub open spec fn fingers_converged(ss: Seq<NodeServer>) -> bool {
    forall|i: int, k: int|
        0 <= i < ss.len() && 0 <= k < ss[i].finger_table@.len() ==> (#[trigger] ss[i].finger_table@[k])
            == ss[owner_idx(ring_ids(ss), finger_start_of(ss, i, k))].node
}

/// Once fingers have converged, finger entry `k` of node `i` holds the
/// unique node whose identifier is the immediate clockwise successor of
/// `finger_start(node.id, k)`: that node satisfies the owner
/// characterization for the finger's start, and no other node does.
pub proof fn lemma_finger_entry_unique(ss: Seq<NodeServer>, i: int, k: int)
    requires
        ring_converged(ss),
        fingers_converged(ss),
        0 <= i < ss.len(),
        0 <= k < ss[i].finger_table@.len(),
    ensures
        ({
            let ids = ring_ids(ss);
            let o = owner_idx(ids, finger_start_of(ss, i, k));
            &&& 0 <= o < ss.len()
            &&& ss[i].finger_table@[k] == ss[o].node
            &&& spec_in_half_open_right(
                finger_start_of(ss, i, k),
                ids[pred_idx(ss.len() as int, o)],
                ids[o],
            )
            &&& forall|j: int|
                0 <= j < ss.len() && spec_in_half_open_right(
                    finger_start_of(ss, i, k),
                    ids[pred_idx(ss.len() as int, j)],
                    ids[j],
                ) ==> j == o
        }),
{
    let ids = ring_ids(ss);
    let t = finger_start_of(ss, i, k);
    lemma_first_at_or_after_props(ids, t, 0);
    let o = owner_idx(ids, t);
    lemma_owner_characterizes(ids, t, o);
    assert forall|j: int|
        0 <= j < ss.len() && spec_in_half_open_right(
            t,
            ids[pred_idx(ss.len() as int, j)],
            ids[j],
        ) implies j == o by {
        lemma_owner_characterizes(ids, t, j);
    }
}

} // verus!
