//! The error taxonomy shared by the ring core and the layers around it.

use vstd::prelude::*;
use vstd::string::StringExecFns;

use crate::node::Node;
use crate::ring::Digest;

verus! {

/// What can go wrong around the ring protocol.
#[derive(Debug)]
pub enum DhtError {
    /// Connect or send/receive failure at the wire layer. Recoverable: the
    /// next periodic tick retries.
    TransportError(String),
    /// Protocol-level error returned by a peer. Recoverable.
    RpcError(String),
    /// The introducer was unreachable or rejected the join. Fatal to the
    /// join attempt; the node stays solo.
    JoinFailure { node: Node, message: String },
    /// No live node is currently responsible for the digest. Surfaced by
    /// layers above the ring core.
    NoLiveReplica(Digest),
    /// A state the protocol cannot reach in a correct ring, such as a node
    /// connecting to itself or a started node without a successor. Fatal.
    InvariantViolation(String),
}

pub type DhtResult<T> = Result<T, DhtError>;

impl DhtError {
    /// A short description of the error, with its detail message where the
    /// variant carries one.
    pub fn describe(&self) -> (s: String)
        ensures
            match self {
                DhtError::TransportError(m) => s@ == "transport error: "@ + m@,
                DhtError::RpcError(m) => s@ == "RPC error: "@ + m@,
                DhtError::JoinFailure { node, message } => s@ == "fail to join node: "@ + message@,
                DhtError::NoLiveReplica(_) => s@ == "no live replica for key digest"@,
                DhtError::InvariantViolation(m) => s@ == "invariant violation: "@ + m@,
            },
    {
        match self {
            DhtError::TransportError(m) => "transport error: ".to_owned().concat(m.as_str()),
            DhtError::RpcError(m) => "RPC error: ".to_owned().concat(m.as_str()),
            DhtError::JoinFailure { node: _, message } => "fail to join node: ".to_owned().concat(
                message.as_str(),
            ),
            DhtError::NoLiveReplica(_) => "no live replica for key digest".to_owned(),
            DhtError::InvariantViolation(m) => "invariant violation: ".to_owned().concat(
                m.as_str(),
            ),
        }
    }
}

} // verus!
