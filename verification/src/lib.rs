//! Core of a Chord distributed hash table overlay: identifier arithmetic on
//! the m-bit ring, the node record, per-node routing state (successor,
//! predecessor, finger table), the connection cache, and the decision logic
//! of the ring-maintenance protocol (join, stabilize, notify, fix-fingers,
//! successor lookup).
//!
//! Network transport is not part of this crate: every remote procedure call
//! is performed by the surrounding program, which feeds the fetched values
//! into the verified protocol functions below.

pub mod cache;
pub mod converged;
pub mod error;
pub mod node;
pub mod ring;
pub mod server;
