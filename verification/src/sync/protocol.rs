//! Aether Sync wire protocol: the message set exchanged over the transport.
use std::collections::HashMap;
use vstd::prelude::*;
use crate::sync::crdt::ObjectId;
use crate::sync::sharding::CellId;

verus! {

/// A per-object vector clock: node id to the last logical time seen from
/// it, describing what a node already has so a peer sends only the
/// missing deltas.
pub type VectorClock = HashMap<u64, u64>;

#[derive(Debug, Clone)]
pub enum SyncMessage {
    /// Handshake: protocol version and capability negotiation.
    Hello { node_id: u64, protocol_version: u32 },
    /// Subscribe to updates for a spatial cell.
    Subscribe { cell: CellId },
    /// Publish a CRDT operation against an object.
    Publish { object: ObjectId, cell: CellId, operation: CrdtOp },
    /// Request the current state of an object, describing what the
    /// requester already has.
    SyncState { object: ObjectId, have: VectorClock },
    /// Liveness and latency measurement.
    Heartbeat { sent_at_ns: u64 },
}

/// The operation payloads that can ride inside a `Publish` message.
#[derive(Debug, Clone)]
pub enum CrdtOp {
    /// A serialized pose register.
    PoseUpdate { payload: Vec<u8> },
    TagAdd { tag: String, op_id: u128 },
    TagRemove { tag: String },
}

} // verus!
