//! Node and session identifiers, session metadata, and the error taxonomy.

use vstd::prelude::*;

verus! {

/// Identifier of a cluster node.
pub type NodeId = u64;

/// Identifier of a session.
pub type SessionId = u64;

/// Errors surfaced by a job session.
#[derive(Clone, Copy, Debug, PartialEq, Eq, Structural)]
pub enum Error {
    /// The operation is not valid in the session's current state.
    InvalidStateForRequest,
    /// The operation was invoked with a role or sender mismatch.
    InvalidMessage,
    /// A response arrived from a node that was never requested or that has
    /// already been accounted for.
    InvalidNodeForRequest,
    /// Too many nodes were rejected: the threshold can no longer be met.
    ConsensusUnreachable,
    /// A timeout removed a node the session could not afford to lose.
    NodeDisconnected,
}

/// Immutable metadata of a job session, supplied at construction and never
/// modified by the session.
#[derive(Clone, Copy, Debug, PartialEq, Eq, Structural)]
pub struct SessionMeta {
    /// Session identifier.
    pub id: SessionId,
    /// Identifier of the master node driving the session.
    pub master_node_id: NodeId,
    /// Identifier of the node that owns this session instance.
    pub self_node_id: NodeId,
    /// Threshold `t`: `t + 1` accepted partial responses complete the job.
    pub threshold: usize,
}

} // verus!
