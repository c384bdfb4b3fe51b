//! Temporal sync engine: hybrid logical clocks, CRDTs, wire protocol,
//! spatial sharding and the transport abstraction.
pub mod crdt;
pub mod hlc;
pub mod network;
pub mod protocol;
pub mod sharding;

pub use crate::sync::crdt::{LwwRegister, ObjectId, OrSet};
pub use crate::sync::hlc::{Hlc, HybridLogicalClock};
pub use crate::sync::protocol::{SyncMessage, VectorClock};
pub use crate::sync::sharding::CellId;

use vstd::prelude::*;

verus! {

#[derive(Debug)]
pub enum SyncError {
    ObjectNotFound(ObjectId),
    Transport(String),
    /// The incoming stamp is not causally after the current one.
    StaleWrite,
}

pub type SyncResult<T> = Result<T, SyncError>;

} // verus!
