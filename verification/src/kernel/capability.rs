//! Capability-based access control.
//!
//! Every resource (memory region, IPC port, device) is reached only through
//! a `Capability`: a token that names the resource and the `Rights` the
//! holder has over it. Rights can only be attenuated on derivation, never
//! amplified.
//!
//! Revocation works per target: every capability snapshots its target's
//! revocation epoch when it is minted or derived, and revoking any
//! capability over a target bumps that target's epoch. This invalidates
//! every capability naming the target at once, including derived children
//! and copies that a process cached outside the table.
use std::collections::HashMap;
use vstd::prelude::*;
use crate::kernel::KernelError;

verus! {

broadcast use vstd::std_specs::hash::group_hash_axioms;

#[derive(Debug, Clone, Copy, PartialEq, Eq, Hash, Structural)]
pub struct CapabilityId(pub u64);

/// Rights that a capability may grant over its target resource, as a set
/// of bits.
#[derive(Debug, Clone, Copy, PartialEq, Eq, Hash, Structural)]
pub struct Rights {
    pub bits: u32,
}

/// The bit of the right to derive or delegate a weaker capability.
pub const GRANT_BITS: u32 = 0b0000_1000;

/// Whether the right bits `have` include every bit of `want`.
pub open spec fn bits_contain(have: u32, want: u32) -> bool {
    (have & want) == want
}

impl Rights {
    pub fn read() -> (r: Rights)
        ensures
            r.bits == 0b0000_0001,
    {
        Rights { bits: 0b0000_0001 }
    }

    pub fn write() -> (r: Rights)
        ensures
            r.bits == 0b0000_0010,
    {
        Rights { bits: 0b0000_0010 }
    }

    pub fn execute() -> (r: Rights)
        ensures
            r.bits == 0b0000_0100,
    {
        Rights { bits: 0b0000_0100 }
    }

    /// May derive or delegate a weaker capability.
    pub fn grant() -> (r: Rights)
        ensures
            r.bits == GRANT_BITS,
    {
        Rights { bits: GRANT_BITS }
    }

    /// May revoke capabilities it derived.
    pub fn revoke() -> (r: Rights)
        ensures
            r.bits == 0b0001_0000,
    {
        Rights { bits: 0b0001_0000 }
    }

    pub fn empty() -> (r: Rights)
        ensures
            r.bits == 0,
    {
        Rights { bits: 0 }
    }

    pub fn bits(&self) -> (r: u32)
        ensures
            r == self.bits,
    {
        self.bits
    }

    /// Whether every right of `other` is also in `self`.
    pub fn contains(&self, other: Rights) -> (r: bool)
        ensures
            r == bits_contain(self.bits, other.bits),
    {
        (self.bits & other.bits) == other.bits
    }

    /// The rights in `self` or in `other`.
    pub fn union(self, other: Rights) -> (r: Rights)
        ensures
            r.bits == self.bits | other.bits,
    {
        Rights { bits: self.bits | other.bits }
    }

    /// The rights in both `self` and `other`.
    pub fn intersection(self, other: Rights) -> (r: Rights)
        ensures
            r.bits == self.bits & other.bits,
    {
        Rights { bits: self.bits & other.bits }
    }
}

/// What kind of kernel object a capability names.
#[derive(Debug, Clone, PartialEq, Eq, Hash)]
pub enum CapabilityTarget {
    MemoryRegion(u64),
    IpcPort(u64),
    Device(String),
    Process(u64),
}

/// The mathematical value of a `CapabilityTarget`: a device is named by its
/// characters.
pub enum TargetView {
    MemoryRegion(u64),
    IpcPort(u64),
    Device(Seq<char>),
    Process(u64),
}

impl View for CapabilityTarget {
    type V = TargetView;

    open spec fn view(&self) -> TargetView {
        match self {
            CapabilityTarget::MemoryRegion(n) => TargetView::MemoryRegion(*n),
            CapabilityTarget::IpcPort(n) => TargetView::IpcPort(*n),
            CapabilityTarget::Device(s) => TargetView::Device(s@),
            CapabilityTarget::Process(n) => TargetView::Process(*n),
        }
    }
}

impl CapabilityTarget {
    /// Whether `self` and `other` name the same kernel object.
    pub fn same_as(&self, other: &CapabilityTarget) -> (r: bool)
        ensures
            r == (self@ == other@),
    {
        match (self, other) {
            (CapabilityTarget::MemoryRegion(a), CapabilityTarget::MemoryRegion(b)) => *a == *b,
            (CapabilityTarget::IpcPort(a), CapabilityTarget::IpcPort(b)) => *a == *b,
            (CapabilityTarget::Device(a), CapabilityTarget::Device(b)) => a.eq(b),
            (CapabilityTarget::Process(a), CapabilityTarget::Process(b)) => *a == *b,
            _ => false,
        }
    }

    /// An exact copy of `self`.
    pub fn duplicate(&self) -> (r: CapabilityTarget)
        ensures
            r == *self,
    {
        match self {
            CapabilityTarget::MemoryRegion(n) => CapabilityTarget::MemoryRegion(*n),
            CapabilityTarget::IpcPort(n) => CapabilityTarget::IpcPort(*n),
            CapabilityTarget::Device(s) => CapabilityTarget::Device(s.clone()),
            CapabilityTarget::Process(n) => CapabilityTarget::Process(*n),
        }
    }
}

/// A single capability: a reference to a kernel object plus the rights the
/// holder has over it. `epoch` is the target's revocation epoch at the
/// moment this capability was minted or derived.
#[derive(Debug, Clone)]
pub struct Capability {
    pub id: CapabilityId,
    pub target: CapabilityTarget,
    pub rights: Rights,
    pub epoch: u32,
}

/// The mathematical value of a `Capability`.
pub struct CapabilityView {
    pub id: u64,
    pub target: TargetView,
    pub rights: u32,
    pub epoch: u32,
}

impl View for Capability {
    type V = CapabilityView;

    open spec fn view(&self) -> CapabilityView {
        CapabilityView {
            id: self.id.0,
            target: self.target@,
            rights: self.rights.bits,
            epoch: self.epoch,
        }
    }
}

impl Capability {
    /// An exact copy of `self`.
    pub fn duplicate(&self) -> (r: Capability)
        ensures
            r == *self,
    {
        Capability {
            id: self.id,
            target: self.target.duplicate(),
            rights: self.rights,
            epoch: self.epoch,
        }
    }
}

/// The epoch recorded for target `t` in the epoch list `s`, or 0 where `s`
/// records none.
pub open spec fn epoch_lookup(s: Seq<(TargetView, u32)>, t: TargetView) -> u32 {
    if exists|i: int| 0 <= i < s.len() && s[i].0 == t {
        s[choose|i: int| 0 <= i < s.len() && s[i].0 == t].1
    } else {
        0
    }
}

/// No target occurs twice in the epoch list `s`.
pub open spec fn targets_distinct(s: Seq<(TargetView, u32)>) -> bool {
    forall|i: int, j: int| 0 <= i < s.len() && 0 <= j < s.len() && i != j ==> s[i].0 != s[j].0
}

/// The kernel-side capability table: the single source of truth for who
/// can do what.
pub struct CapabilityTable {
    next_id: u64,
    entries: HashMap<u64, Capability>,
    /// Current revocation epoch per target; a target that is not listed is
    /// at epoch 0.
    target_epoch: Vec<(CapabilityTarget, u32)>,
}

impl CapabilityTable {
    /// The last capability id handed out (0 before the first).
    pub closed spec fn last_id(&self) -> u64 {
        self.next_id
    }

    /// The capabilities in the table, by id.
    pub closed spec fn caps(&self) -> Map<u64, CapabilityView> {
        self.entries@.map_values(|c: Capability| c@)
    }

    closed spec fn epoch_list(&self) -> Seq<(TargetView, u32)> {
        self.target_epoch@.map_values(|p: (CapabilityTarget, u32)| (p.0@, p.1))
    }

    /// The current revocation epoch of target `t`.
    pub closed spec fn epoch_of(&self, t: TargetView) -> u32 {
        epoch_lookup(self.epoch_list(), t)
    }

    /// The table's invariant: every entry is filed under its own id, no id
    /// exceeds the last one handed out, no entry's epoch is ahead of its
    /// target's current epoch, and the epoch list names each target once.
    pub closed spec fn wf(&self) -> bool {
        &&& forall|k: u64| #[trigger]
            self.entries@.contains_key(k) ==> {
                &&& self.entries@[k].id.0 == k
                &&& 1 <= k <= self.next_id
                &&& self.entries@[k].epoch <= self.epoch_of(self.entries@[k].target@)
            }
        &&& targets_distinct(self.epoch_list())
    }

    /// What `check(id, needed)` reports, if it fails.
    pub open spec fn check_error(&self, id: CapabilityId, needed: Rights) -> Option<KernelError> {
        if !self.caps().contains_key(id.0) {
            Some(KernelError::CapabilityNotFound(id))
        } else if self.caps()[id.0].epoch != self.epoch_of(self.caps()[id.0].target) {
            Some(KernelError::CapabilityRevoked(id))
        } else if !bits_contain(self.caps()[id.0].rights, needed.bits) {
            Some(KernelError::AccessDenied { cap: id, needed })
        } else {
            None
        }
    }

    /// What `derive(parent, rights)` reports, if it fails.
    pub open spec fn derive_error(&self, parent: CapabilityId, rights: Rights) -> Option<
        KernelError,
    > {
        if let Some(e) = self.check_error(parent, Rights { bits: GRANT_BITS }) {
            Some(e)
        } else if !bits_contain(self.caps()[parent.0].rights, rights.bits) {
            Some(KernelError::AccessDenied { cap: parent, needed: rights })
        } else {
            None
        }
    }

    /// `post` is `pre` with one new capability `cap` minted: `cap` takes the
    /// next id and the current epoch of its target, and nothing else
    /// changes.
    pub open spec fn minted(pre: CapabilityTable, post: CapabilityTable, cap: CapabilityView) -> bool {
        &&& pre.last_id() < u64::MAX
        &&& cap.id == pre.last_id() + 1
        &&& !pre.caps().contains_key(cap.id)
        &&& cap.epoch == pre.epoch_of(cap.target)
        &&& post.last_id() == cap.id
        &&& post.caps() == pre.caps().insert(cap.id, cap)
        &&& forall|t: TargetView| #[trigger] post.epoch_of(t) == pre.epoch_of(t)
    }

    /// `post` is `pre` after `revoke(id)`: the entry `id` is gone and, where
    /// `id` was in the table, its target's epoch has advanced by one.
    pub open spec fn revoked(pre: CapabilityTable, post: CapabilityTable, id: CapabilityId) -> bool {
        &&& post.last_id() == pre.last_id()
        &&& post.caps() == pre.caps().remove(id.0)
        &&& forall|t: TargetView| #[trigger]
            post.epoch_of(t) == if pre.caps().contains_key(id.0) && t == pre.caps()[id.0].target {
                pre.epoch_of(t) + 1
            } else {
                pre.epoch_of(t) as int
            }
    }

    pub fn new() -> (r: Self)
        ensures
            r.wf(),
            r.last_id() == 0,
            r.caps() == Map::<u64, CapabilityView>::empty(),
            forall|t: TargetView| #[trigger] r.epoch_of(t) == 0,
    {
        let r = CapabilityTable { next_id: 0, entries: HashMap::new(), target_epoch: Vec::new() };
        assert(r.caps() =~= Map::<u64, CapabilityView>::empty());
        r
    }

    /// The position in the epoch list of the entry for `target`, if any.
    fn find_epoch(&self, target: &CapabilityTarget) -> (r: Option<usize>)
        requires
            targets_distinct(self.epoch_list()),
        ensures
            match r {
                Some(i) => {
                    &&& i < self.target_epoch@.len()
                    &&& self.epoch_list()[i as int].0 == target@
                    &&& self.epoch_of(target@) == self.epoch_list()[i as int].1
                },
                None => {
                    &&& forall|j: int|
                        0 <= j < self.epoch_list().len() ==> #[trigger] self.epoch_list()[j].0
                            != target@
                    &&& self.epoch_of(target@) == 0
                },
            },
    {
        let mut i: usize = 0;
        while i < self.target_epoch.len()
            invariant
                i <= self.target_epoch@.len(),
                targets_distinct(self.epoch_list()),
                forall|j: int| 0 <= j < i ==> #[trigger] self.epoch_list()[j].0 != target@,
            decreases self.target_epoch@.len() - i,
        {
            if self.target_epoch[i].0.same_as(target) {
                proof {
                    let s = self.epoch_list();
                    assert(s[i as int].0 == target@);
                    let c = choose|k: int| 0 <= k < s.len() && s[k].0 == target@;
                    assert(c == i);
                }
                return Some(i);
            }
            i = i + 1;
        }
        None
    }

    /// The current revocation epoch of `target`.
    pub fn current_epoch(&mut self, target: &CapabilityTarget) -> (r: u32)
        requires
            old(self).wf(),
        ensures
            r == old(self).epoch_of(target@),
            *final(self) == *old(self),
    {
        match self.find_epoch(target) {
            Some(i) => self.target_epoch[i].1,
            None => 0,
        }
    }

    /// Mint a brand-new capability over `target` with `rights`. Only the
    /// kernel itself calls this, typically when a resource is created.
    pub fn mint(&mut self, target: CapabilityTarget, rights: Rights) -> (r: Capability)
        requires
            old(self).wf(),
            old(self).last_id() < u64::MAX,
        ensures
            final(self).wf(),
            Self::minted(*old(self), *final(self), r@),
            r.target == target,
            r.rights == rights,
            r.id.0 == old(self).last_id() + 1,
    {
        let n = self.current_epoch(&target);
        self.next_id = self.next_id + 1;
        let id = CapabilityId(self.next_id);
        let cap = Capability { id, target, rights, epoch: n };
        let stored = cap.duplicate();
        self.entries.insert(id.0, stored);
        proof {
            assert(self.caps() =~= old(self).caps().insert(id.0, cap@));
            assert(self.epoch_list() == old(self).epoch_list());
        }
        cap
    }

    /// Check that capability `id` is present, not revoked, and holds every
    /// right in `needed`.
    pub fn check(&mut self, id: CapabilityId, needed: Rights) -> (r: Result<(), KernelError>)
        requires
            old(self).wf(),
        ensures
            *final(self) == *old(self),
            r == match old(self).check_error(id, needed) {
                Some(e) => Err::<(), KernelError>(e),
                None => Ok(()),
            },
    {
        let cap = match self.entries.get(&id.0) {
            Some(c) => c.duplicate(),
            None => {
                return Err(KernelError::CapabilityNotFound(id));
            },
        };
        let current = self.current_epoch(&cap.target);
        if cap.epoch != current {
            return Err(KernelError::CapabilityRevoked(id));
        }
        if !cap.rights.contains(needed) {
            return Err(KernelError::AccessDenied { cap: id, needed });
        }
        Ok(())
    }

    /// Derive a new, weaker capability from `parent`. Fails if the parent is
    /// missing or revoked, if it does not hold the grant right, or if
    /// `rights` is not a subset of the parent's rights: capabilities can
    /// only be attenuated, never amplified.
    pub fn derive(&mut self, parent: CapabilityId, rights: Rights) -> (r: Result<
        Capability,
        KernelError,
    >)
        requires
            old(self).wf(),
            old(self).derive_error(parent, rights) is None ==> old(self).last_id() < u64::MAX,
        ensures
            final(self).wf(),
            match r {
                Ok(c) => {
                    &&& old(self).derive_error(parent, rights) is None
                    &&& Self::minted(*old(self), *final(self), c@)
                    &&& c.target@ == old(self).caps()[parent.0].target
                    &&& c.rights == rights
                    &&& bits_contain(old(self).caps()[parent.0].rights, c.rights.bits)
                },
                Err(e) => {
                    &&& old(self).derive_error(parent, rights) == Some(e)
                    &&& *final(self) == *old(self)
                },
            },
    {
        let parent_cap = match self.entries.get(&parent.0) {
            Some(c) => c.duplicate(),
            None => {
                return Err(KernelError::CapabilityNotFound(parent));
            },
        };
        match self.check(parent, Rights::grant()) {
            Err(e) => {
                return Err(e);
            },
            Ok(()) => {},
        }
        if !parent_cap.rights.contains(rights) {
            return Err(KernelError::AccessDenied { cap: parent, needed: rights });
        }
        let c = self.mint(parent_cap.target, rights);
        Ok(c)
    }

    /// Revoke capability `id`'s target. This bumps the target's epoch,
    /// which invalidates every capability over that target, not just `id`,
    /// and removes `id` from the table.
    pub fn revoke(&mut self, id: CapabilityId)
        requires
            old(self).wf(),
            old(self).caps().contains_key(id.0) ==> old(self).epoch_of(
                old(self).caps()[id.0].target,
            ) < u32::MAX,
        ensures
            final(self).wf(),
            Self::revoked(*old(self), *final(self), id),
    {
        let found = match self.entries.get(&id.0) {
            Some(c) => Some(c.duplicate()),
            None => None,
        };
        if let Some(cap) = found {
            let ghost s = self.epoch_list();
            match self.find_epoch(&cap.target) {
                Some(i) => {
                    let e = self.target_epoch[i].1;
                    self.target_epoch.set(i, (cap.target.duplicate(), e + 1));
                    proof {
                        lemma_epoch_update(s, i as int, (e + 1) as u32);
                        assert(self.epoch_list() =~= s.update(i as int, (s[i as int].0, (e + 1) as u32)));
                    }
                },
                None => {
                    self.target_epoch.push((cap.target.duplicate(), 1));
                    proof {
                        lemma_epoch_push(s, cap.target@, 1);
                        assert(self.epoch_list() =~= s.push((cap.target@, 1u32)));
                    }
                },
            }
        }
        self.entries.remove(&id.0);
        proof {
            assert(self.caps() =~= old(self).caps().remove(id.0));
        }
    }
}


/// Revoking a capability invalidates every capability over the same target:
/// each one still in the table now fails `check` as revoked, whatever
/// rights are asked for, and any copy held outside the table (any
/// capability over the target whose epoch is not ahead of the target's)
/// no longer matches the target's epoch. The revoked id itself is gone.
pub proof fn lemma_revoke_invalidates_target(
    pre: CapabilityTable,
    post: CapabilityTable,
    id: CapabilityId,
    needed: Rights,
)
    requires
        pre.wf(),
        CapabilityTable::revoked(pre, post, id),
        pre.caps().contains_key(id.0),
    ensures
        post.check_error(id, needed) == Some(KernelError::CapabilityNotFound(id)),
        forall|k: u64|
            #![trigger post.caps()[k]]
            post.caps().contains_key(k) && post.caps()[k].target == pre.caps()[id.0].target
                ==> post.check_error(CapabilityId(k), needed) == Some(
                KernelError::CapabilityRevoked(CapabilityId(k)),
            ),
        forall|c: CapabilityView|
            #![trigger c.epoch, c.target]
            c.target == pre.caps()[id.0].target && c.epoch <= pre.epoch_of(c.target) ==> c.epoch
                != post.epoch_of(c.target),
{
    let t = pre.caps()[id.0].target;
    assert(post.epoch_of(t) == pre.epoch_of(t) + 1);
    assert forall|k: u64|
        #![trigger post.caps()[k]]
        post.caps().contains_key(k) && post.caps()[k].target == t implies post.check_error(
        CapabilityId(k),
        needed,
    ) == Some(KernelError::CapabilityRevoked(CapabilityId(k))) by {
        assert(pre.caps().contains_key(k));
        assert(pre.entries@.contains_key(k));
        assert(pre.caps()[k].epoch <= pre.epoch_of(t));
    }
}

/// A capability that was just minted (or derived) passes `check` for any
/// rights it holds, even over a target that was revoked before.
pub proof fn lemma_fresh_capability_is_valid(
    pre: CapabilityTable,
    post: CapabilityTable,
    cap: CapabilityView,
    needed: Rights,
)
    requires
        CapabilityTable::minted(pre, post, cap),
        bits_contain(cap.rights, needed.bits),
    ensures
        post.check_error(CapabilityId(cap.id), needed) is None,
{
    assert(post.caps()[cap.id] == cap);
    assert(post.epoch_of(cap.target) == pre.epoch_of(cap.target));
}

/// Epochs never go back: minting or revoking leaves every target's epoch
/// where it was or ahead, so a capability whose epoch has fallen behind its
/// target's stays invalid.
pub proof fn lemma_epochs_never_decrease(
    pre: CapabilityTable,
    post: CapabilityTable,
    cap: CapabilityView,
    id: CapabilityId,
)
    requires
        CapabilityTable::minted(pre, post, cap) || CapabilityTable::revoked(pre, post, id),
    ensures
        forall|t: TargetView| #[trigger] pre.epoch_of(t) <= post.epoch_of(t),
        forall|c: CapabilityView|
            #![trigger c.epoch, c.target]
            c.epoch < pre.epoch_of(c.target) ==> c.epoch < post.epoch_of(c.target),
{
    assert forall|t: TargetView| #[trigger] pre.epoch_of(t) <= post.epoch_of(t) by {
        if CapabilityTable::minted(pre, post, cap) {
            assert(post.epoch_of(t) == pre.epoch_of(t));
        } else {
            assert(post.epoch_of(t) >= pre.epoch_of(t));
        }
    }
    assert forall|c: CapabilityView|
        #![trigger c.epoch, c.target]
        c.epoch < pre.epoch_of(c.target) implies c.epoch < post.epoch_of(c.target) by {
        assert(pre.epoch_of(c.target) <= post.epoch_of(c.target));
    }
}

/// Attenuation composes: a capability derived from a derived capability
/// holds no right that the original did not.
pub proof fn lemma_attenuation_is_transitive(grandparent: u32, parent: u32, child: u32)
    requires
        bits_contain(grandparent, parent),
        bits_contain(parent, child),
    ensures
        bits_contain(grandparent, child),
{
    assert(((grandparent & parent) == parent && (parent & child) == child) ==> (grandparent
        & child) == child) by (bit_vector);
}

/// There is no ambient authority: an id the table never handed out names no
/// capability, and `check` refuses it whatever rights are asked for.
pub proof fn lemma_unminted_id_is_not_found(t: CapabilityTable, id: CapabilityId, needed: Rights)
    requires
        t.wf(),
        id.0 == 0 || id.0 > t.last_id(),
    ensures
        t.check_error(id, needed) == Some(KernelError::CapabilityNotFound(id)),
{
    assert(!t.entries@.contains_key(id.0));
}

/// `check` grants access only to a capability that is in the table, whose
/// epoch is its target's current one, and whose rights include every bit of
/// `needed`; a capability lacking any needed bit is denied, whatever other
/// rights it holds.
pub proof fn lemma_check_needs_every_right(t: CapabilityTable, id: CapabilityId, needed: Rights)
    ensures
        t.check_error(id, needed) is None <==> {
            &&& t.caps().contains_key(id.0)
            &&& t.caps()[id.0].epoch == t.epoch_of(t.caps()[id.0].target)
            &&& (t.caps()[id.0].rights & needed.bits) == needed.bits
        },
        !t.caps().contains_key(id.0) ==> t.check_error(id, needed) == Some(
            KernelError::CapabilityNotFound(id),
        ),
        t.caps().contains_key(id.0) && t.caps()[id.0].epoch != t.epoch_of(t.caps()[id.0].target)
            ==> t.check_error(id, needed) == Some(KernelError::CapabilityRevoked(id)),
        t.caps().contains_key(id.0) && t.caps()[id.0].epoch == t.epoch_of(t.caps()[id.0].target)
            && (t.caps()[id.0].rights & needed.bits) != needed.bits ==> t.check_error(id, needed)
            == Some(KernelError::AccessDenied { cap: id, needed }),
{
}

/// `derive` succeeds only from a parent that is in the table, unrevoked,
/// holds the grant right (bit 0b1000), and holds every bit of the requested
/// rights; otherwise it reports the first of those that fails.
pub proof fn lemma_derive_needs_grant_and_subset(t: CapabilityTable, parent: CapabilityId, rights: Rights)
    ensures
        t.derive_error(parent, rights) is None <==> {
            &&& t.caps().contains_key(parent.0)
            &&& t.caps()[parent.0].epoch == t.epoch_of(t.caps()[parent.0].target)
            &&& (t.caps()[parent.0].rights & 0b1000u32) == 0b1000u32
            &&& (t.caps()[parent.0].rights & rights.bits) == rights.bits
        },
        !t.caps().contains_key(parent.0) ==> t.derive_error(parent, rights) == Some(
            KernelError::CapabilityNotFound(parent),
        ),
        t.caps().contains_key(parent.0) && t.caps()[parent.0].epoch != t.epoch_of(
            t.caps()[parent.0].target,
        ) ==> t.derive_error(parent, rights) == Some(KernelError::CapabilityRevoked(parent)),
        t.caps().contains_key(parent.0) && t.caps()[parent.0].epoch == t.epoch_of(
            t.caps()[parent.0].target,
        ) && (t.caps()[parent.0].rights & 0b1000u32) != 0b1000u32 ==> t.derive_error(parent, rights)
            == Some(KernelError::AccessDenied { cap: parent, needed: Rights { bits: 0b1000u32 } }),
        t.caps().contains_key(parent.0) && t.caps()[parent.0].epoch == t.epoch_of(
            t.caps()[parent.0].target,
        ) && (t.caps()[parent.0].rights & 0b1000u32) == 0b1000u32 && (t.caps()[parent.0].rights
            & rights.bits) != rights.bits ==> t.derive_error(parent, rights) == Some(
            KernelError::AccessDenied { cap: parent, needed: rights },
        ),
{
}

/// Revoking a capability advances its target's epoch by exactly one and
/// leaves every other target's epoch, and the id counter, untouched;
/// revoking an id that is not in the table changes no epoch.
pub proof fn lemma_revoke_advances_one_epoch(
    pre: CapabilityTable,
    post: CapabilityTable,
    id: CapabilityId,
    t: TargetView,
)
    requires
        CapabilityTable::revoked(pre, post, id),
    ensures
        post.last_id() == pre.last_id(),
        !post.caps().contains_key(id.0),
        pre.caps().contains_key(id.0) && t == pre.caps()[id.0].target ==> post.epoch_of(t)
            == pre.epoch_of(t) + 1,
        !(pre.caps().contains_key(id.0) && t == pre.caps()[id.0].target) ==> post.epoch_of(t)
            == pre.epoch_of(t),
        forall|k: u64| k != id.0 ==> (#[trigger] post.caps().contains_key(k) == pre.caps().contains_key(k)),
{
    assert(post.epoch_of(t) == post.epoch_of(t));
}

/// Minting hands out the id right after the last one, records the new
/// capability under it with its target's current epoch, keeps every other
/// entry, and changes no epoch.
pub proof fn lemma_mint_records_next_id(
    pre: CapabilityTable,
    post: CapabilityTable,
    cap: CapabilityView,
    t: TargetView,
    k: u64,
)
    requires
        CapabilityTable::minted(pre, post, cap),
    ensures
        cap.id == pre.last_id() + 1,
        post.last_id() == pre.last_id() + 1,
        post.caps().contains_key(cap.id) && post.caps()[cap.id] == cap,
        !pre.caps().contains_key(cap.id),
        cap.epoch == pre.epoch_of(cap.target),
        post.epoch_of(t) == pre.epoch_of(t),
        k != cap.id ==> post.caps().contains_key(k) == pre.caps().contains_key(k) && (
        pre.caps().contains_key(k) ==> post.caps()[k] == pre.caps()[k]),
{
}

/// Setting the epoch of a target already in a distinct epoch list changes
/// the lookup of that target only.
proof fn lemma_epoch_update(s: Seq<(TargetView, u32)>, i: int, v: u32)
    requires
        targets_distinct(s),
        0 <= i < s.len(),
    ensures
        targets_distinct(s.update(i, (s[i].0, v))),
        forall|t: TargetView| #[trigger]
            epoch_lookup(s.update(i, (s[i].0, v)), t) == if t == s[i].0 {
                v
            } else {
                epoch_lookup(s, t)
            },
{
    let s2 = s.update(i, (s[i].0, v));
    assert forall|t: TargetView| #[trigger]
        epoch_lookup(s2, t) == if t == s[i].0 {
            v
        } else {
            epoch_lookup(s, t)
        } by {
        if t == s[i].0 {
            assert(s2[i].0 == t);
            let c = choose|k: int| 0 <= k < s2.len() && s2[k].0 == t;
            assert(c == i);
        } else {
            if exists|k: int| 0 <= k < s.len() && s[k].0 == t {
                let c = choose|k: int| 0 <= k < s.len() && s[k].0 == t;
                assert(s2[c].0 == t);
                let c2 = choose|k: int| 0 <= k < s2.len() && s2[k].0 == t;
                assert(s[c2].0 == t);
                assert(c == c2);
            } else {
                assert forall|k: int| 0 <= k < s2.len() implies s2[k].0 != t by {
                    assert(s[k].0 != t);
                }
            }
        }
    }
}

/// Appending the epoch of a target that a distinct epoch list does not yet
/// name changes the lookup of that target only.
proof fn lemma_epoch_push(s: Seq<(TargetView, u32)>, t0: TargetView, v: u32)
    requires
        targets_distinct(s),
        forall|j: int| 0 <= j < s.len() ==> #[trigger] s[j].0 != t0,
    ensures
        targets_distinct(s.push((t0, v))),
        forall|t: TargetView| #[trigger]
            epoch_lookup(s.push((t0, v)), t) == if t == t0 {
                v
            } else {
                epoch_lookup(s, t)
            },
{
    let s2 = s.push((t0, v));
    assert forall|t: TargetView| #[trigger]
        epoch_lookup(s2, t) == if t == t0 {
            v
        } else {
            epoch_lookup(s, t)
        } by {
        if t == t0 {
            assert(s2[s.len() as int].0 == t);
            let c = choose|k: int| 0 <= k < s2.len() && s2[k].0 == t;
            if c < s.len() {
                assert(s[c].0 == t0);
            }
        } else {
            if exists|k: int| 0 <= k < s.len() && s[k].0 == t {
                let c = choose|k: int| 0 <= k < s.len() && s[k].0 == t;
                assert(s2[c].0 == t);
                let c2 = choose|k: int| 0 <= k < s2.len() && s2[k].0 == t;
                assert(c2 < s.len());
                assert(s[c2].0 == t);
                assert(c == c2);
            } else {
                assert forall|k: int| 0 <= k < s2.len() implies s2[k].0 != t by {
                    if k < s.len() {
                        assert(s[k].0 != t);
                    }
                }
            }
        }
    }
}

impl Default for CapabilityTable {
    fn default() -> (r: Self)
        ensures
            r.wf(),
            r.last_id() == 0,
            r.caps() == Map::<u64, CapabilityView>::empty(),
            forall|t: TargetView| #[trigger] r.epoch_of(t) == 0,
    {
        Self::new()
    }
}

} // verus!
