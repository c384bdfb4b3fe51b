//! CRDT primitives used by the scene graph: a Last-Writer-Wins register for
//! pose data, and an Observed-Remove Set for tag collections.
pub mod uuid_stub;

use std::collections::{HashMap, HashSet};
use std::hash::Hash;
use vstd::prelude::*;
use vstd::std_specs::hash::{obeys_key_model, spec_hash_keys_iter, spec_hash_map_iter};
use vstd::std_specs::iter::IteratorSpec;
use crate::sync::hlc::{hlc_lt, Hlc};
use crate::sync::crdt::uuid_stub::Uuid;

verus! {

broadcast use vstd::std_specs::hash::group_hash_axioms;

#[derive(Debug, Clone, Copy, PartialEq, Eq, Hash, Structural)]
pub struct ObjectId(pub Uuid);

/// Last-Writer-Wins register: the write with the later `Hlc` stamp wins on
/// merge.
#[derive(Debug, Clone)]
pub struct LwwRegister<T: Clone> {
    pub value: T,
    pub stamp: Hlc,
}

/// The register `merge` leaves: `b` where its stamp is later than `a`'s,
/// else `a`.
pub open spec fn lww_merge<T: Clone>(a: LwwRegister<T>, b: LwwRegister<T>) -> LwwRegister<T> {
    if hlc_lt(a.stamp, b.stamp) {
        b
    } else {
        a
    }
}

impl<T: Clone> LwwRegister<T> {
    pub fn new(value: T, stamp: Hlc) -> (r: Self)
        ensures
            r.value == value,
            r.stamp == stamp,
    {
        Self { value, stamp }
    }

    /// Merge an incoming update: it replaces the current write exactly when
    /// its stamp is later.
    pub fn merge(&mut self, other: LwwRegister<T>)
        ensures
            *final(self) == lww_merge(*old(self), other),
    {
        if other.stamp.is_after(&self.stamp) {
            *self = other;
        }
    }
}

/// Merging registers is commutative wherever the two stamps differ (the
/// node id in a stamp makes the stamps of distinct writes differ) or the
/// registers are equal.
pub proof fn lemma_lww_merge_commutative<T: Clone>(a: LwwRegister<T>, b: LwwRegister<T>)
    requires
        a.stamp != b.stamp || a == b,
    ensures
        lww_merge(a, b) == lww_merge(b, a),
{
}

/// Merging registers is associative.
pub proof fn lemma_lww_merge_associative<T: Clone>(
    a: LwwRegister<T>,
    b: LwwRegister<T>,
    c: LwwRegister<T>,
)
    ensures
        lww_merge(lww_merge(a, b), c) == lww_merge(a, lww_merge(b, c)),
{
}

/// Merging a register with itself changes nothing.
pub proof fn lemma_lww_merge_idempotent<T: Clone>(a: LwwRegister<T>)
    ensures
        lww_merge(a, a) == a,
{
}

/// The winner of a merge is one of the two writes, and its stamp is not
/// earlier than either: a merge never keeps a causally earlier write over a
/// later one.
pub proof fn lemma_lww_merge_keeps_latest<T: Clone>(a: LwwRegister<T>, b: LwwRegister<T>)
    ensures
        lww_merge(a, b) == a || lww_merge(a, b) == b,
        !hlc_lt(lww_merge(a, b).stamp, a.stamp),
        !hlc_lt(lww_merge(a, b).stamp, b.stamp),
{
}

/// Registers converge whatever order updates arrive in: merging two
/// writes with distinct stamps into a register in either order leaves the
/// same register.
pub proof fn lemma_lww_merge_order_independent<T: Clone>(
    x: LwwRegister<T>,
    a: LwwRegister<T>,
    b: LwwRegister<T>,
)
    requires
        a.stamp != b.stamp || a == b,
    ensures
        lww_merge(lww_merge(x, a), b) == lww_merge(lww_merge(x, b), a),
{
    lemma_lww_merge_associative(x, a, b);
    lemma_lww_merge_associative(x, b, a);
    lemma_lww_merge_commutative(a, b);
}

/// A merge takes the incoming write exactly when its stamp is later in
/// (physical time, logical counter, node id) order, and otherwise keeps
/// the current write.
pub proof fn lemma_lww_merge_takes_strictly_later_stamp<T: Clone>(
    a: LwwRegister<T>,
    b: LwwRegister<T>,
)
    ensures
        ({
            let later = b.stamp.physical_ns > a.stamp.physical_ns || (b.stamp.physical_ns
                == a.stamp.physical_ns && b.stamp.logical > a.stamp.logical) || (
            b.stamp.physical_ns == a.stamp.physical_ns && b.stamp.logical == a.stamp.logical
                && b.stamp.node_id > a.stamp.node_id);
            &&& later ==> lww_merge(a, b) == b
            &&& !later ==> lww_merge(a, b) == a
        }),
{
}

/// The tags that `m` records for `e` (none where `m` has no entry).
pub open spec fn tags_of<T>(m: Map<T, Set<u128>>, e: T) -> Set<u128> {
    if m.contains_key(e) {
        m[e]
    } else {
        Set::empty()
    }
}

/// Whether an observed-remove set with add-tags `adds` and remove-tags
/// `removes` holds `e`: `e` was added, and not every tag that added it has
/// been removed.
pub open spec fn or_set_holds<T>(adds: Map<T, Set<u128>>, removes: Map<T, Set<u128>>, e: T) -> bool {
    &&& adds.contains_key(e)
    &&& !(removes.contains_key(e) && adds[e].subset_of(removes[e]))
}

/// The pointwise union of two tag maps: every element of either, with the
/// union of its tags.
pub open spec fn tags_union<T>(a: Map<T, Set<u128>>, b: Map<T, Set<u128>>) -> Map<T, Set<u128>> {
    Map::new(
        |e: T| a.contains_key(e) || b.contains_key(e),
        |e: T| tags_of(a, e).union(tags_of(b, e)),
    )
}

/// Add every tag of `src` to `dst`.
fn union_into(dst: &mut HashSet<u128>, src: &HashSet<u128>)
    ensures
        final(dst)@ == old(dst)@.union(src@),
{
    let ghost start = dst@;
    let ghost s = spec_hash_keys_iter(src).remaining();
    for t in it: src.iter()
        invariant
            it.seq() == s,
            forall|x: u128|
                #![trigger dst@.contains(x)]
                dst@.contains(x) <==> (start.contains(x) || exists|j: int|
                    0 <= j < it.index() && *it.seq()[j] == x),
    {
        dst.insert(*t);
        proof {
            assert(*it.seq()[it.index()] == *t);
        }
    }
    proof {
        assert(s.unref().to_set() == src@);
        assert forall|x: u128| #[trigger] dst@.contains(x) == start.union(src@).contains(x) by {
            if src@.contains(x) {
                assert(s.unref().contains(x));
                let j = choose|j: int| 0 <= j < s.unref().len() && s.unref()[j] == x;
                assert(*s[j] == x);
            }
            if exists|j: int| 0 <= j < s.len() && *s[j] == x {
                let j = choose|j: int| 0 <= j < s.len() && *s[j] == x;
                assert(s.unref()[j] == x);
                assert(s.unref().contains(x));
            }
        }
        assert(dst@ =~= start.union(src@));
    }
}

/// Whether a set of `a`'s tags all lie in `b`.
fn tags_subset(a: &HashSet<u128>, b: &HashSet<u128>) -> (r: bool)
    ensures
        r == a@.subset_of(b@),
{
    let ghost s = spec_hash_keys_iter(a).remaining();
    for t in it: a.iter()
        invariant
            it.seq() == s,
            s.unref().to_set() == a@,
            forall|j: int| 0 <= j < it.index() ==> b@.contains(*#[trigger] s[j]),
    {
        if !b.contains(t) {
            proof {
                assert(*s[it.index()] == *t);
                assert(s.unref()[it.index()] == *t);
                assert(a@.contains(*t));
            }
            return false;
        }
    }
    proof {
        assert forall|x: u128| a@.contains(x) implies b@.contains(x) by {
            assert(s.unref().to_set().contains(x));
            let j = choose|j: int| 0 <= j < s.unref().len() && s.unref()[j] == x;
            assert(*s[j] == x);
        }
    }
    true
}

/// The tag sets of a map of `HashSet`s, as mathematical sets.
pub open spec fn tag_view<T>(m: Map<T, HashSet<u128>>) -> Map<T, Set<u128>> {
    m.map_values(|s: HashSet<u128>| s@)
}

/// The element type can serve as a hash-map key whose equality is spec
/// equality, and cloning an element gives the same element. Primitive
/// integers meet this; `OrSet`'s contracts hold for element types that do.
pub open spec fn elements_behave<T: Clone>() -> bool {
    &&& obeys_key_model::<T>()
    &&& forall|a: T, b: T| #[trigger] vstd::pervasive::strictly_cloned(a, b) ==> a == b
}

/// Advance `iter` by one item.
fn next_item<I: Iterator>(iter: &mut I) -> (r: Option<I::Item>)
    ensures
        (*final(iter)).obeys_prophetic_iter_laws() == (*old(iter)).obeys_prophetic_iter_laws(),
        (*final(iter)).obeys_prophetic_iter_laws() ==> if (*old(iter)).remaining().len() > 0 {
            &&& (*final(iter)).remaining() == (*old(iter)).remaining().drop_first()
            &&& r == Some((*old(iter)).remaining()[0])
        } else {
            r is None
        },
{
    iter.next()
}

/// Add every tag that `src` records for each element to `dst`.
fn merge_tags<T: Hash + Eq + Clone>(dst: &mut HashMap<T, HashSet<u128>>, src: &HashMap<T, HashSet<u128>>)
    ensures
        elements_behave::<T>() ==> tag_view(final(dst)@) == tags_union(tag_view(old(dst)@), tag_view(src@)),
{
    let ghost start = tag_view(dst@);
    let ghost s = spec_hash_map_iter(src).remaining();
    let ghost srcv = tag_view(src@);
    let n = src.len();
    let mut iter = src.iter();
    let mut count: usize = 0;
    while count < n
        invariant
            count <= n,
            srcv == tag_view(src@),
            elements_behave::<T>() ==> {
                &&& n == s.len()
                &&& iter.remaining() == s.skip(count as int)
                &&& forall|i: int|
                    #![trigger s[i]]
                    0 <= i < s.len() ==> src@.contains_key(*s[i].0) && src@[*s[i].0] == *s[i].1
                &&& forall|e: T| #[trigger] src@.contains_key(e) ==> s.contains((&e, &src@[e]))
                &&& forall|e: T|
                    #![trigger tag_view(dst@).contains_key(e)]
                    #![trigger tags_of(tag_view(dst@), e)]
                    {
                        &&& tag_view(dst@).contains_key(e) <==> (start.contains_key(e) || exists|j: int|
                            0 <= j < count && *s[j].0 == e)
                        &&& tags_of(tag_view(dst@), e) == tags_of(start, e).union(
                            if exists|j: int| 0 <= j < count && *s[j].0 == e {
                                srcv[e]
                            } else {
                                Set::empty()
                            },
                        )
                    }
            },
        decreases n - count,
    {
        let ghost pre = tag_view(dst@);
        let ghost rem = iter.remaining();
        match next_item(&mut iter) {
            Some((k, v)) => {
                let mut cur = match dst.remove(k) {
                    Some(c) => c,
                    None => HashSet::new(),
                };
                union_into(&mut cur, v);
                let key = k.clone();
                dst.insert(key, cur);
                proof {
                    if elements_behave::<T>() {
                        assert(vstd::pervasive::strictly_cloned(*k, key));
                        assert(key == *k);
                        assert(rem[0] == s[count as int]);
                        assert(s[count as int] == (k, v));
                        assert(src@.contains_key(*k) && src@[*k] == *v);
                        assert(srcv.dom().contains(*k));
                        assert(srcv[*k] == v@);
                        assert(tag_view(dst@) =~= pre.insert(*k, tags_of(pre, *k).union(v@)));
                        assert forall|e: T|
                            #![trigger tag_view(dst@).contains_key(e)]
                            #![trigger tags_of(tag_view(dst@), e)]
                            {
                                &&& tag_view(dst@).contains_key(e) <==> (start.contains_key(e)
                                    || exists|j: int| 0 <= j < count + 1 && *s[j].0 == e)
                                &&& tags_of(tag_view(dst@), e) == tags_of(start, e).union(
                                    if exists|j: int| 0 <= j < count + 1 && *s[j].0 == e {
                                        srcv[e]
                                    } else {
                                        Set::empty()
                                    },
                                )
                            } by {
                            assert(tags_of(pre, e) == tags_of(start, e).union(
                                if exists|j: int| 0 <= j < count && *s[j].0 == e {
                                    srcv[e]
                                } else {
                                    Set::empty()
                                },
                            ));
                            assert(pre.contains_key(e) <==> (start.contains_key(e) || exists|j: int|
                                0 <= j < count && *s[j].0 == e));
                            if e == *k {
                                assert(exists|j: int| 0 <= j < count + 1 && *s[j].0 == e) by {
                                    assert(*s[count as int].0 == e);
                                }
                                assert(tags_of(tag_view(dst@), e) =~= tags_of(start, e).union(
                                    srcv[e],
                                ));
                            } else {
                                if exists|j: int| 0 <= j < count + 1 && *s[j].0 == e {
                                    let j = choose|j: int| 0 <= j < count + 1 && *s[j].0 == e;
                                    assert(j != count);
                                }
                            }
                        }
                        assert(iter.remaining() == s.skip(count + 1));
                    }
                }
            },
            None => {},
        }
        count = count + 1;
    }
    proof {
        if elements_behave::<T>() {
            let u = tags_union(start, srcv);
            assert forall|e: T| #[trigger] srcv.contains_key(e) implies exists|j: int|
                0 <= j < s.len() && *s[j].0 == e by {
                assert(s.contains((&e, &src@[e])));
                let j = choose|j: int| 0 <= j < s.len() && s[j] == (&e, &src@[e]);
                assert(*s[j].0 == e);
            }
            assert forall|e: T| #[trigger] tag_view(dst@).contains_key(e) <==> u.contains_key(e) by {
                if exists|j: int| 0 <= j < s.len() && *s[j].0 == e {
                    let j = choose|j: int| 0 <= j < s.len() && *s[j].0 == e;
                    assert(src@.contains_key(*s[j].0));
                }
            }
            assert forall|e: T| #[trigger] u.contains_key(e) implies tag_view(dst@)[e] == u[e] by {
                assert(tag_view(dst@).contains_key(e));
                assert(tags_of(tag_view(dst@), e) == tag_view(dst@)[e]);
                if exists|j: int| 0 <= j < s.len() && *s[j].0 == e {
                    let j = choose|j: int| 0 <= j < s.len() && *s[j].0 == e;
                    assert(src@.contains_key(*s[j].0));
                    assert(tags_of(srcv, e) == srcv[e]);
                } else {
                    assert(!srcv.contains_key(e));
                    assert(tags_of(start, e).union(Set::empty()) =~= tags_of(start, e));
                    assert(tags_of(start, e).union(tags_of(srcv, e)) =~= tags_of(start, e));
                }
            }
            assert(tag_view(dst@) =~= u);
        }
    }
}

/// Unsigned 64-bit integers meet `elements_behave`, so every `OrSet`
/// contract holds unconditionally for `OrSet<u64>`.
pub proof fn lemma_u64_elements_behave()
    ensures
        elements_behave::<u64>(),
{
    assert forall|a: u64, b: u64| #[trigger] vstd::pervasive::strictly_cloned(a, b) implies a == b by {
    }
}

/// Observed-Remove Set: each element carries the set of unique add-tags
/// that introduced it, and a remove only takes effect against the tags it
/// has observed, so adds and removes from different replicas converge.
#[derive(Debug, Clone)]
pub struct OrSet<T: Hash + Eq + Clone> {
    adds: HashMap<T, HashSet<u128>>,
    removes: HashMap<T, HashSet<u128>>,
}

impl<T: Hash + Eq + Clone> OrSet<T> {
    /// The add-tags recorded for each element.
    pub closed spec fn adds(&self) -> Map<T, Set<u128>> {
        tag_view(self.adds@)
    }

    /// The remove-tags recorded for each element.
    pub closed spec fn removes(&self) -> Map<T, Set<u128>> {
        tag_view(self.removes@)
    }

    pub fn new() -> (r: Self)
        ensures
            r.adds() == Map::<T, Set<u128>>::empty(),
            r.removes() == Map::<T, Set<u128>>::empty(),
    {
        let r = Self { adds: HashMap::new(), removes: HashMap::new() };
        assert(r.adds() =~= Map::<T, Set<u128>>::empty());
        assert(r.removes() =~= Map::<T, Set<u128>>::empty());
        r
    }

    /// Record that `element` was added under the unique tag `tag`.
    pub fn add(&mut self, element: T, tag: u128)
        ensures
            elements_behave::<T>() ==> {
                &&& final(self).adds() == old(self).adds().insert(
                    element,
                    tags_of(old(self).adds(), element).insert(tag),
                )
                &&& final(self).removes() == old(self).removes()
            },
    {
        let mut tags = match self.adds.remove(&element) {
            Some(s) => s,
            None => HashSet::new(),
        };
        tags.insert(tag);
        self.adds.insert(element, tags);
        proof {
            if elements_behave::<T>() {
                assert(self.adds() =~= old(self).adds().insert(
                    element,
                    tags_of(old(self).adds(), element).insert(tag),
                ));
            }
        }
    }

    /// Remove `element` as observed here: every add-tag seen for it so far
    /// becomes a remove-tag. Adds under tags not yet seen survive.
    pub fn remove(&mut self, element: &T)
        ensures
            elements_behave::<T>() ==> {
                &&& final(self).adds() == old(self).adds()
                &&& final(self).removes() == if old(self).adds().contains_key(*element) {
                    old(self).removes().insert(
                        *element,
                        tags_of(old(self).removes(), *element).union(old(self).adds()[*element]),
                    )
                } else {
                    old(self).removes()
                }
            },
    {
        if self.adds.contains_key(element) {
            let mut rm = match self.removes.remove(element) {
                Some(s) => s,
                None => HashSet::new(),
            };
            match self.adds.get(element) {
                Some(a) => union_into(&mut rm, a),
                None => {},
            }
            let key = element.clone();
            self.removes.insert(key, rm);
            proof {
                if elements_behave::<T>() {
                    assert(vstd::pervasive::strictly_cloned(*element, key));
                    assert(key == *element);
                    assert(self.removes() =~= old(self).removes().insert(
                        *element,
                        tags_of(old(self).removes(), *element).union(old(self).adds()[*element]),
                    ));
                }
            }
        }
    }

    /// Whether the set holds `element`: it was added under some tag that no
    /// observed remove covers.
    pub fn contains(&self, element: &T) -> (r: bool)
        ensures
            elements_behave::<T>() ==> r == or_set_holds(self.adds(), self.removes(), *element),
    {
        match (self.adds.get(element), self.removes.get(element)) {
            (Some(add_tags), Some(remove_tags)) => !tags_subset(add_tags, remove_tags),
            (Some(_), None) => true,
            _ => false,
        }
    }

    /// Merge another replica: every add-tag and remove-tag it recorded is
    /// added to this one's.
    pub fn merge(&mut self, other: OrSet<T>)
        ensures
            elements_behave::<T>() ==> {
                &&& final(self).adds() == tags_union(old(self).adds(), other.adds())
                &&& final(self).removes() == tags_union(old(self).removes(), other.removes())
            },
    {
        merge_tags(&mut self.adds, &other.adds);
        merge_tags(&mut self.removes, &other.removes);
    }
}

/// An OR-set holds an element exactly when some add-tag of the element has
/// not been observed by a remove (an element added but never removed is
/// held).
pub proof fn lemma_or_set_holds_iff_unremoved_tag<T>(
    adds: Map<T, Set<u128>>,
    removes: Map<T, Set<u128>>,
    e: T,
)
    ensures
        or_set_holds(adds, removes, e) <==> adds.contains_key(e) && (!removes.contains_key(e)
            || exists|t: u128| adds[e].contains(t) && !removes[e].contains(t)),
{
}

/// A merged tag map records an element exactly when either side does, with
/// every tag either side recorded for it, and no other tag.
pub proof fn lemma_tags_union_members<T>(a: Map<T, Set<u128>>, b: Map<T, Set<u128>>, e: T, t: u128)
    ensures
        tags_union(a, b).contains_key(e) <==> a.contains_key(e) || b.contains_key(e),
        tags_of(tags_union(a, b), e).contains(t) <==> (a.contains_key(e) && a[e].contains(t)) || (
        b.contains_key(e) && b[e].contains(t)),
{
}

/// Merging tag maps is commutative: replicas converge whatever order they
/// merge each other in.
pub proof fn lemma_tags_union_commutative<T>(a: Map<T, Set<u128>>, b: Map<T, Set<u128>>)
    ensures
        tags_union(a, b) == tags_union(b, a),
{
    assert forall|e: T| #[trigger] tags_union(a, b).contains_key(e) implies tags_union(a, b)[e]
        == tags_union(b, a)[e] by {
        assert(tags_of(a, e).union(tags_of(b, e)) =~= tags_of(b, e).union(tags_of(a, e)));
    }
    assert(tags_union(a, b) =~= tags_union(b, a));
}

/// Merging tag maps is associative.
pub proof fn lemma_tags_union_associative<T>(
    a: Map<T, Set<u128>>,
    b: Map<T, Set<u128>>,
    c: Map<T, Set<u128>>,
)
    ensures
        tags_union(tags_union(a, b), c) == tags_union(a, tags_union(b, c)),
{
    let l = tags_union(tags_union(a, b), c);
    let r = tags_union(a, tags_union(b, c));
    assert forall|e: T| #[trigger] l.contains_key(e) implies l[e] == r[e] by {
        assert(tags_of(tags_union(a, b), e) =~= tags_of(a, e).union(tags_of(b, e)));
        assert(tags_of(tags_union(b, c), e) =~= tags_of(b, e).union(tags_of(c, e)));
        assert(l[e] =~= r[e]);
    }
    assert(l =~= r);
}

/// Merging a replica's tag map with itself changes nothing.
pub proof fn lemma_tags_union_idempotent<T>(a: Map<T, Set<u128>>)
    ensures
        tags_union(a, a) == a,
{
    assert forall|e: T| #[trigger] tags_union(a, a).contains_key(e) implies tags_union(a, a)[e]
        == a[e] by {
        assert(tags_of(a, e).union(tags_of(a, e)) =~= a[e]);
    }
    assert(tags_union(a, a) =~= a);
}

/// An add under a tag that no remove has observed makes the element present,
/// whatever removes came before: a re-add after a remove survives.
pub proof fn lemma_fresh_add_is_present<T>(
    adds: Map<T, Set<u128>>,
    removes: Map<T, Set<u128>>,
    e: T,
    tag: u128,
)
    requires
        !tags_of(removes, e).contains(tag),
    ensures
        or_set_holds(adds.insert(e, tags_of(adds, e).insert(tag)), removes, e),
{
    let added = adds.insert(e, tags_of(adds, e).insert(tag));
    assert(added[e].contains(tag));
}

/// After a remove of an element, it is absent until a new add: every tag
/// that had added it is now a remove-tag.
pub proof fn lemma_remove_makes_absent<T>(
    adds: Map<T, Set<u128>>,
    removes: Map<T, Set<u128>>,
    e: T,
)
    requires
        adds.contains_key(e),
    ensures
        !or_set_holds(adds, removes.insert(e, tags_of(removes, e).union(adds[e])), e),
{
}

/// A removed element stays absent after merging with a replica that saw
/// the remove, as long as no replica added it under a tag the remove has
/// not observed.
pub proof fn lemma_merge_keeps_observed_remove<T>(
    adds_a: Map<T, Set<u128>>,
    removes_a: Map<T, Set<u128>>,
    adds_b: Map<T, Set<u128>>,
    removes_b: Map<T, Set<u128>>,
    e: T,
)
    requires
        removes_b.contains_key(e),
        tags_of(adds_a, e).union(tags_of(adds_b, e)).subset_of(removes_b[e]),
    ensures
        !or_set_holds(tags_union(adds_a, adds_b), tags_union(removes_a, removes_b), e),
{
    if tags_union(adds_a, adds_b).contains_key(e) {
        assert(tags_union(removes_a, removes_b).contains_key(e));
        assert(tags_union(adds_a, adds_b)[e].subset_of(tags_union(removes_a, removes_b)[e]));
    }
}

impl<T: Hash + Eq + Clone> Default for OrSet<T> {
    fn default() -> (r: Self)
        ensures
            r.adds() == Map::<T, Set<u128>>::empty(),
            r.removes() == Map::<T, Set<u128>>::empty(),
    {
        Self::new()
    }
}

} // verus!
