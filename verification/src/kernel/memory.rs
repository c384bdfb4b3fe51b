//! Address-space isolation policy: who owns which memory region, and under
//! which permissions.
use vstd::prelude::*;
use crate::kernel::capability::{bits_contain, CapabilityId, Rights};

verus! {

#[derive(Debug, Clone, Copy, PartialEq, Eq, Structural)]
pub struct Permissions {
    pub read: bool,
    pub write: bool,
    pub execute: bool,
}

impl Permissions {
    /// The page permissions that `rights` allow.
    pub fn from_rights(rights: Rights) -> (r: Self)
        ensures
            r.read == bits_contain(rights.bits, 0b0000_0001),
            r.write == bits_contain(rights.bits, 0b0000_0010),
            r.execute == bits_contain(rights.bits, 0b0000_0100),
    {
        Self {
            read: rights.contains(Rights::read()),
            write: rights.contains(Rights::write()),
            execute: rights.contains(Rights::execute()),
        }
    }
}

/// A contiguous region of (simulated) memory owned by one process at
/// creation time and shared only through derived capabilities.
#[derive(Debug, Clone, Copy, PartialEq, Eq, Structural)]
pub struct MemoryRegion {
    pub id: u64,
    pub owner_cap: CapabilityId,
    pub size_bytes: usize,
    pub permissions: Permissions,
}

/// The total size of the regions `s`.
pub open spec fn size_sum(s: Seq<MemoryRegion>) -> int
    decreases s.len(),
{
    if s.len() == 0 {
        0
    } else {
        size_sum(s.drop_last()) + s.last().size_bytes
    }
}

proof fn lemma_size_sum_prefix(s: Seq<MemoryRegion>, i: int)
    requires
        0 <= i <= s.len(),
    ensures
        0 <= size_sum(s.take(i)) <= size_sum(s),
    decreases s.len() - i,
{
    if i < s.len() {
        lemma_size_sum_prefix(s, i + 1);
        assert(s.take(i + 1).drop_last() =~= s.take(i));
    } else {
        assert(s.take(i) =~= s);
    }
    lemma_size_sum_nonneg(s.take(i));
}

proof fn lemma_size_sum_nonneg(s: Seq<MemoryRegion>)
    ensures
        size_sum(s) >= 0,
    decreases s.len(),
{
    if s.len() > 0 {
        lemma_size_sum_nonneg(s.drop_last());
    }
}

/// Tracks all memory regions in the system.
pub struct MemoryManager {
    next_region_id: u64,
    regions: Vec<MemoryRegion>,
}

impl MemoryManager {
    /// The last region id handed out (0 before the first).
    pub closed spec fn last_id(&self) -> u64 {
        self.next_region_id
    }

    /// The allocated regions, oldest first.
    pub closed spec fn regions(&self) -> Seq<MemoryRegion> {
        self.regions@
    }

    /// The manager's invariant: region ids strictly increase in allocation
    /// order (so no two regions share an id), and none is ahead of the last
    /// id handed out.
    pub open spec fn wf(&self) -> bool {
        &&& forall|i: int, j: int|
            0 <= i < j < self.regions().len() ==> #[trigger] self.regions()[i].id
                < #[trigger] self.regions()[j].id
        &&& forall|i: int|
            0 <= i < self.regions().len() ==> 1 <= #[trigger] self.regions()[i].id
                <= self.last_id()
    }

    pub fn new() -> (r: Self)
        ensures
            r.wf(),
            r.last_id() == 0,
            r.regions() == Seq::<MemoryRegion>::empty(),
    {
        MemoryManager { next_region_id: 0, regions: Vec::new() }
    }

    /// Record a new region of `size_bytes` owned through `owner_cap`.
    pub fn allocate(&mut self, owner_cap: CapabilityId, size_bytes: usize, permissions: Permissions) -> (r:
        MemoryRegion)
        requires
            old(self).wf(),
            old(self).last_id() < u64::MAX,
        ensures
            final(self).wf(),
            r == (MemoryRegion { id: (old(self).last_id() + 1) as u64, owner_cap, size_bytes, permissions }),
            final(self).last_id() == r.id,
            final(self).regions() == old(self).regions().push(r),
            size_sum(final(self).regions()) == size_sum(old(self).regions()) + size_bytes,
    {
        self.next_region_id = self.next_region_id + 1;
        let region = MemoryRegion { id: self.next_region_id, owner_cap, size_bytes, permissions };
        self.regions.push(region);
        proof {
            assert(self.regions().drop_last() =~= old(self).regions());
        }
        region
    }

    /// The total size of all allocated regions.
    pub fn total_allocated(&self) -> (r: usize)
        requires
            size_sum(self.regions()) <= usize::MAX,
        ensures
            r == size_sum(self.regions()),
    {
        let mut total: usize = 0;
        let mut i: usize = 0;
        while i < self.regions.len()
            invariant
                i <= self.regions@.len(),
                size_sum(self.regions()) <= usize::MAX,
                total == size_sum(self.regions().take(i as int)),
            decreases self.regions@.len() - i,
        {
            proof {
                lemma_size_sum_prefix(self.regions(), i + 1);
                assert(self.regions().take(i + 1).drop_last() =~= self.regions().take(i as int));
            }
            total = total + self.regions[i].size_bytes;
            i = i + 1;
        }
        proof {
            assert(self.regions().take(i as int) =~= self.regions());
        }
        total
    }
}

impl Default for MemoryManager {
    fn default() -> (r: Self)
        ensures
            r.wf(),
            r.last_id() == 0,
            r.regions() == Seq::<MemoryRegion>::empty(),
    {
        Self::new()
    }
}

} // verus!
