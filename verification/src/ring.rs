//! Identifier arithmetic on the circular m-bit identifier space.
//!
//! Identifiers are integers in `[0, 2^m)`; all arithmetic wraps modulo
//! `2^m`. The interval predicates decide membership in clockwise arcs of
//! the ring and correctly wrap across 0.

use vstd::arithmetic::div_mod::{lemma_mod_sub_multiples_vanish, lemma_small_mod};
use vstd::arithmetic::power2::{
    lemma2_to64, lemma2_to64_rest, lemma_pow2_strictly_increases, pow2,
};
use vstd::bits::{lemma_u64_pow2_no_overflow, lemma_u64_shl_is_mul};
use vstd::prelude::*;

verus! {

/// An identifier on the ring: an m-bit integer, carried in 64 bits.
pub type Digest = u64;

/// `id` lies on the ring of `2^bits` points. On the full 64-bit space
/// every machine word fits.
pub open spec fn id_fits(id: Digest, bits: nat) -> bool {
    bits >= 64 || (id as nat) < pow2(bits)
}

/// A fitting identifier is below `2^bits` whenever `bits <= 64`.
pub proof fn lemma_id_fits(id: Digest, bits: nat)
    requires
        id_fits(id, bits),
        bits <= 64,
    ensures
        (id as nat) < pow2(bits),
{
    if bits >= 64 {
        lemma2_to64_rest();
    }
}

/// True iff `x` lies strictly between `a` and `b` going clockwise on the
/// ring. When `a == b` the arc runs all the way around: the degenerate open
/// interval covers the whole ring except `a` itself.
pub open spec fn spec_in_open(x: u64, a: u64, b: u64) -> bool {
    if a < b {
        a < x && x < b
    } else if b < a {
        x > a || x < b
    } else {
        x != a
    }
}

/// True iff `x` lies in the clockwise half-open interval `(a, b]`. When
/// `a == b` the arc runs all the way around and back to its endpoint: the
/// degenerate interval covers the whole ring. (This is what makes the
/// predecessor search terminate on a ring of one node.)
pub open spec fn spec_in_half_open_right(x: u64, a: u64, b: u64) -> bool {
    if a < b {
        a < x && x <= b
    } else if b < a {
        x > a || x <= b
    } else {
        true
    }
}

/// Decides strict clockwise interval membership `x ∈ (a, b)`.
#[verifier::when_used_as_spec(spec_in_open)]
pub fn in_open(x: u64, a: u64, b: u64) -> (r: bool)
    ensures
        r == spec_in_open(x, a, b),
{
    if a < b {
        a < x && x < b
    } else if b < a {
        x > a || x < b
    } else {
        x != a
    }
}

/// Decides clockwise half-open interval membership `x ∈ (a, b]`.
#[verifier::when_used_as_spec(spec_in_half_open_right)]
pub fn in_half_open_right(x: u64, a: u64, b: u64) -> (r: bool)
    ensures
        r == spec_in_half_open_right(x, a, b),
{
    if a < b {
        a < x && x <= b
    } else if b < a {
        x > a || x <= b
    } else {
        true
    }
}

/// The start of finger interval `k` of a node with identifier `id`, on a
/// ring of `2^bits` points: `(id + 2^k) mod 2^bits`.
pub open spec fn finger_start(id: Digest, k: nat, bits: nat) -> int {
    (id + pow2(k)) % (pow2(bits) as int)
}

/// Computes `(id + 2^k) mod 2^bits`, wrapping around the top of the ring.
pub fn finger_table_start(id: Digest, k: usize, bits: usize) -> (r: Digest)
    requires
        1 <= bits <= 64,
        k < bits,
        id_fits(id, bits as nat),
    ensures
        r == finger_start(id, k as nat, bits as nat),
        (r as nat) < pow2(bits as nat),
{
    proof {
        lemma_id_fits(id, bits as nat);
        lemma_u64_pow2_no_overflow(k as nat);
        lemma_u64_shl_is_mul(1u64, k as u64);
    }
    let offset: u64 = 1u64 << (k as u64);
    if bits == 64 {
        let r: u64 = id.wrapping_add(offset);
        proof {
            lemma2_to64_rest();
            if id + offset <= u64::MAX {
                lemma_small_mod((id + offset) as nat, pow2(64));
            } else {
                lemma_mod_sub_multiples_vanish(id + offset, pow2(64) as int);
                lemma_small_mod((id + offset - pow2(64)) as nat, pow2(64));
            }
        }
        r
    } else {
        proof {
            lemma_u64_pow2_no_overflow(bits as nat);
            lemma_u64_shl_is_mul(1u64, bits as u64);
            lemma_pow2_strictly_increases(k as nat, bits as nat);
            if bits < 63 {
                lemma_pow2_strictly_increases(bits as nat, 63);
            }
            lemma2_to64_rest();
        }
        let modulus: u64 = 1u64 << (bits as u64);
        (id + offset) % modulus
    }
}

/// The first finger offset is the immediate clockwise neighbour:
/// `finger_start(id, 0) == (id + 1) mod 2^m`.
pub proof fn lemma_finger_start_first(id: Digest, bits: nat)
    requires
        1 <= bits,
    ensures
        finger_start(id, 0, bits) == (id + 1) % (pow2(bits) as int),
{
    lemma2_to64();
}

/// The last finger offset lies halfway around the ring:
/// `finger_start(id, m - 1) == (id + 2^(m - 1)) mod 2^m`.
pub proof fn lemma_finger_start_last(id: Digest, bits: nat)
    requires
        1 <= bits,
    ensures
        finger_start(id, (bits - 1) as nat, bits) == (id + pow2((bits - 1) as nat)) % (pow2(
            bits,
        ) as int),
{
}

/// The open interval wraps across zero: `0` lies strictly between
/// `2^m - 1` and `1`.
pub proof fn lemma_in_open_wraps(bits: nat)
    requires
        1 <= bits <= 64,
    ensures
        spec_in_open(0, (pow2(bits) - 1) as u64, 1),
{
    lemma2_to64();
    lemma2_to64_rest();
    if 2 < bits {
        lemma_pow2_strictly_increases(2, bits);
    }
}

/// The clockwise distance from `a` forward to `b`, in `[1, 2^bits]`: a
/// full circle when `a == b`.
pub open spec fn ring_dist(a: Digest, b: Digest, bits: nat) -> int {
    if a < b {
        b - a
    } else {
        pow2(bits) - a + b
    }
}

/// A point strictly inside the arc from `a` to `b` is closer to `b` than
/// `a` is. Each hop of the predecessor search moves to such a point, so
/// the clockwise distance to the target strictly shrinks and the search
/// terminates.
pub proof fn lemma_in_open_advances(x: Digest, a: Digest, b: Digest, bits: nat)
    requires
        1 <= bits <= 64,
        id_fits(x, bits),
        id_fits(a, bits),
        id_fits(b, bits),
        spec_in_open(x, a, b),
    ensures
        0 < ring_dist(x, b, bits) < ring_dist(a, b, bits),
{
    lemma_id_fits(x, bits);
    lemma_id_fits(a, bits);
    lemma_id_fits(b, bits);
}

} // verus!
