//! Process lifecycle: the kernel's minimal syscall-like API surface
//! (`create_process`, state changes, lookup).
use vstd::prelude::*;
use crate::kernel::capability::CapabilityId;
use crate::kernel::{KernelError, KernelResult};

verus! {

#[derive(Debug, Clone, Copy, PartialEq, Eq, Hash, Structural)]
pub struct ProcessId(pub u64);

#[derive(Debug, Clone, Copy, PartialEq, Eq, Structural)]
pub enum ProcessState {
    Created,
    Runnable,
    Blocked,
    Terminated,
}

#[derive(Debug, Clone)]
pub struct Process {
    pub id: ProcessId,
    pub name: String,
    pub state: ProcessState,
    pub capabilities: Vec<CapabilityId>,
}

pub struct ProcessTable {
    next_id: u64,
    processes: Vec<Process>,
}

impl ProcessTable {
    /// The last process id handed out (0 before the first).
    pub closed spec fn last_id(&self) -> u64 {
        self.next_id
    }

    /// The processes, in creation order.
    pub closed spec fn processes(&self) -> Seq<Process> {
        self.processes@
    }

    /// The table's invariant: process ids strictly increase in creation
    /// order (so each names one process), and none is ahead of the last id
    /// handed out.
    pub open spec fn wf(&self) -> bool {
        &&& forall|i: int, j: int|
            0 <= i < j < self.processes().len() ==> #[trigger] self.processes()[i].id.0
                < #[trigger] self.processes()[j].id.0
        &&& forall|i: int|
            0 <= i < self.processes().len() ==> 1 <= #[trigger] self.processes()[i].id.0
                <= self.last_id()
    }

    /// Position `i` holds the process `id`.
    pub open spec fn holds_at(&self, id: ProcessId, i: int) -> bool {
        0 <= i < self.processes().len() && self.processes()[i].id == id
    }

    pub fn new() -> (r: Self)
        ensures
            r.wf(),
            r.last_id() == 0,
            r.processes() == Seq::<Process>::empty(),
    {
        ProcessTable { next_id: 0, processes: Vec::new() }
    }

    /// Create a process in the `Created` state with an initial capability
    /// set, and return its fresh id.
    pub fn create_process(&mut self, name: String, caps: Vec<CapabilityId>) -> (r: ProcessId)
        requires
            old(self).wf(),
            old(self).last_id() < u64::MAX,
        ensures
            final(self).wf(),
            r.0 == old(self).last_id() + 1,
            final(self).last_id() == r.0,
            forall|i: int| 0 <= i < old(self).processes().len() ==> !#[trigger] old(self).holds_at(r, i),
            final(self).processes() == old(self).processes().push(
                Process { id: r, name, state: ProcessState::Created, capabilities: caps },
            ),
    {
        self.next_id = self.next_id + 1;
        let id = ProcessId(self.next_id);
        self.processes.push(
            Process { id, name, state: ProcessState::Created, capabilities: caps },
        );
        id
    }

    /// The position of process `id`, if present.
    fn position(&self, id: ProcessId) -> (r: Option<usize>)
        ensures
            match r {
                Some(i) => self.holds_at(id, i as int),
                None => forall|i: int| 0 <= i < self.processes().len() ==> !#[trigger] self.holds_at(id, i),
            },
    {
        let mut i: usize = 0;
        while i < self.processes.len()
            invariant
                i <= self.processes@.len(),
                forall|j: int| 0 <= j < i ==> !#[trigger] self.holds_at(id, j),
            decreases self.processes@.len() - i,
        {
            if self.processes[i].id.0 == id.0 {
                return Some(i);
            }
            i = i + 1;
        }
        None
    }

    /// Set the state of process `id`. Fails with `ProcessNotFound` when no
    /// process has that id.
    pub fn set_state(&mut self, id: ProcessId, state: ProcessState) -> (r: KernelResult<()>)
        requires
            old(self).wf(),
        ensures
            final(self).wf(),
            final(self).last_id() == old(self).last_id(),
            match r {
                Ok(()) => exists|i: int|
                    #![trigger old(self).holds_at(id, i)]
                    old(self).holds_at(id, i) && final(self).processes() == old(self).processes().update(
                        i,
                        Process { state, ..old(self).processes()[i] },
                    ),
                Err(e) => {
                    &&& e == KernelError::ProcessNotFound(id)
                    &&& forall|i: int|
                        0 <= i < old(self).processes().len() ==> !#[trigger] old(self).holds_at(id, i)
                    &&& final(self).processes() == old(self).processes()
                },
            },
    {
        match self.position(id) {
            None => Err(KernelError::ProcessNotFound(id)),
            Some(i) => {
                self.processes[i].state = state;
                proof {
                    assert(old(self).holds_at(id, i as int));
                    assert(self.processes() =~= old(self).processes().update(
                        i as int,
                        Process { state, ..old(self).processes()[i as int] },
                    ));
                }
                Ok(())
            },
        }
    }

    /// The process with id `id`, if any.
    pub fn get(&self, id: ProcessId) -> (r: Option<&Process>)
        ensures
            match r {
                Some(p) => exists|i: int|
                    #![trigger self.holds_at(id, i)]
                    self.holds_at(id, i) && *p == self.processes()[i],
                None => forall|i: int| 0 <= i < self.processes().len() ==> !#[trigger] self.holds_at(id, i),
            },
    {
        match self.position(id) {
            Some(i) => Some(&self.processes[i]),
            None => None,
        }
    }
}

impl Default for ProcessTable {
    fn default() -> (r: Self)
        ensures
            r.wf(),
            r.last_id() == 0,
            r.processes() == Seq::<Process>::empty(),
    {
        Self::new()
    }
}

} // verus!
