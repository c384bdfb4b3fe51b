//! The capability-based microkernel model: capabilities, IPC, memory
//! regions, processes and the scheduler.
pub mod capability;
pub mod ipc;
pub mod memory;
pub mod process;
pub mod scheduler;

pub use crate::kernel::capability::{Capability, CapabilityId, Rights};
pub use crate::kernel::ipc::{IpcMessage, Port};
pub use crate::kernel::memory::{MemoryRegion, Permissions};
pub use crate::kernel::process::{Process, ProcessId};
pub use crate::kernel::scheduler::{Scheduler, SchedulingClass};

use vstd::prelude::*;

verus! {

/// Errors that can be raised by any kernel subsystem.
#[derive(Debug, Clone, Copy, PartialEq, Eq, Structural)]
pub enum KernelError {
    CapabilityNotFound(CapabilityId),
    AccessDenied { cap: CapabilityId, needed: Rights },
    CapabilityRevoked(CapabilityId),
    ProcessNotFound(ProcessId),
    PortClosed,
    OutOfMemory,
}

pub type KernelResult<T> = Result<T, KernelError>;

} // verus!
