//! Hybrid Logical Clock (HLC), after Kulkarni et al. (2014).
//!
//! An HLC stamp carries physical time together with a logical counter, and a
//! node bumps that counter (rather than trusting physical time alone)
//! whenever it observes a stamp from another node that is ahead of its own
//! physical clock. The stamps a clock hands out never go backwards and are
//! always ordered after every stamp the clock has observed, whatever the skew
//! between the nodes' physical clocks.
use vstd::prelude::*;

verus! {

/// A single Hybrid Logical Clock stamp, ordered lexicographically by
/// `(physical_ns, logical, node_id)`. The derived `Ord` gives exactly that
/// order; `hlc_lt` states it.
#[derive(Debug, Clone, Copy, PartialEq, Eq, PartialOrd, Ord, Hash, Structural)]
pub struct Hlc {
    pub physical_ns: u64,
    pub logical: u32,
    pub node_id: u64,
}

/// The strict lexicographic order on stamps: physical time, then the
/// logical counter, then the node id as the final tiebreaker.
pub open spec fn hlc_lt(a: Hlc, b: Hlc) -> bool {
    ||| a.physical_ns < b.physical_ns
    ||| (a.physical_ns == b.physical_ns && a.logical < b.logical)
    ||| (a.physical_ns == b.physical_ns && a.logical == b.logical && a.node_id < b.node_id)
}

/// The larger of two integers.
pub open spec fn max_u64(a: u64, b: u64) -> u64 {
    if a < b { b } else { a }
}

impl Hlc {
    pub fn new(physical_ns: u64, logical: u32, node_id: u64) -> (r: Self)
        ensures
            r == (Hlc { physical_ns, logical, node_id }),
    {
        Self { physical_ns, logical, node_id }
    }

    /// Whether `self` comes strictly after `other` in stamp order.
    pub fn is_after(&self, other: &Hlc) -> (r: bool)
        ensures
            r == hlc_lt(*other, *self),
    {
        if self.physical_ns != other.physical_ns {
            self.physical_ns > other.physical_ns
        } else if self.logical != other.logical {
            self.logical > other.logical
        } else {
            self.node_id > other.node_id
        }
    }
}

/// Generates stamps for one node. The caller supplies the current physical
/// time (`now_ns`) rather than this type reading a system clock itself.
#[derive(Debug, Clone)]
pub struct HybridLogicalClock {
    node_id: u64,
    last_physical: u64,
    last_logical: u32,
}

impl View for HybridLogicalClock {
    type V = Hlc;

    /// The clock's state, read as the last stamp it handed out (the node's
    /// own id with the last physical and logical components).
    closed spec fn view(&self) -> Hlc {
        Hlc { physical_ns: self.last_physical, logical: self.last_logical, node_id: self.node_id }
    }
}

/// The logical component `tick` computes, as an integer.
pub open spec fn tick_logical(state: Hlc, now_ns: u64) -> int {
    if max_u64(state.physical_ns, now_ns) == state.physical_ns {
        state.logical + 1
    } else {
        0
    }
}

/// The stamp `tick` hands out from clock state `state` at physical time
/// `now_ns`.
pub open spec fn tick_stamp(state: Hlc, now_ns: u64) -> Hlc {
    Hlc {
        physical_ns: max_u64(state.physical_ns, now_ns),
        logical: tick_logical(state, now_ns) as u32,
        node_id: state.node_id,
    }
}

/// The logical component `update` computes, as an integer.
pub open spec fn update_logical(state: Hlc, received: Hlc, now_ns: u64) -> int {
    let p = max_u64(max_u64(state.physical_ns, received.physical_ns), now_ns);
    if p == state.physical_ns && p == received.physical_ns {
        if state.logical < received.logical {
            received.logical + 1
        } else {
            state.logical + 1
        }
    } else if p == state.physical_ns {
        state.logical + 1
    } else if p == received.physical_ns {
        received.logical + 1
    } else {
        0
    }
}

/// The stamp `update` hands out from clock state `state` on receiving
/// `received` at physical time `now_ns`.
pub open spec fn update_stamp(state: Hlc, received: Hlc, now_ns: u64) -> Hlc {
    Hlc {
        physical_ns: max_u64(max_u64(state.physical_ns, received.physical_ns), now_ns),
        logical: update_logical(state, received, now_ns) as u32,
        node_id: state.node_id,
    }
}

impl HybridLogicalClock {
    pub fn new(node_id: u64) -> (r: Self)
        ensures
            r@ == (Hlc { physical_ns: 0, logical: 0, node_id }),
    {
        Self { node_id, last_physical: 0, last_logical: 0 }
    }

    /// Produce a stamp for a local event. The new stamp is strictly after
    /// the clock's previous state, never earlier than `now_ns`, and becomes
    /// the clock's state.
    pub fn tick(&mut self, now_ns: u64) -> (r: Hlc)
        requires
            tick_logical(old(self)@, now_ns) <= u32::MAX,
        ensures
            r == tick_stamp(old(self)@, now_ns),
            final(self)@ == r,
            hlc_lt(old(self)@, r),
            r.physical_ns >= now_ns,
            r.node_id == old(self)@.node_id,
    {
        let new_physical = if self.last_physical < now_ns { now_ns } else { self.last_physical };
        let new_logical = if new_physical == self.last_physical {
            self.last_logical + 1
        } else {
            0
        };
        self.last_physical = new_physical;
        self.last_logical = new_logical;
        Hlc::new(new_physical, new_logical, self.node_id)
    }

    /// Merge in a stamp received from another node, producing a new local
    /// stamp that is strictly after both this clock's prior state and the
    /// received stamp, and never earlier than `now_ns`.
    pub fn update(&mut self, received: &Hlc, now_ns: u64) -> (r: Hlc)
        requires
            update_logical(old(self)@, *received, now_ns) <= u32::MAX,
        ensures
            r == update_stamp(old(self)@, *received, now_ns),
            final(self)@ == r,
            hlc_lt(old(self)@, r),
            hlc_lt(*received, r),
            r.physical_ns >= now_ns,
            r.node_id == old(self)@.node_id,
    {
        let a = if self.last_physical < received.physical_ns {
            received.physical_ns
        } else {
            self.last_physical
        };
        let new_physical = if a < now_ns { now_ns } else { a };
        let new_logical = if new_physical == self.last_physical && new_physical
            == received.physical_ns {
            let m = if self.last_logical < received.logical {
                received.logical
            } else {
                self.last_logical
            };
            m + 1
        } else if new_physical == self.last_physical {
            self.last_logical + 1
        } else if new_physical == received.physical_ns {
            received.logical + 1
        } else {
            0
        };
        self.last_physical = new_physical;
        self.last_logical = new_logical;
        Hlc::new(new_physical, new_logical, self.node_id)
    }
}

/// Stamp order is a strict total order: irreflexive, transitive, and any
/// two distinct stamps are ordered one way or the other, so merges that go
/// by it are deterministic.
pub proof fn lemma_hlc_order_is_strict_total(a: Hlc, b: Hlc, c: Hlc)
    ensures
        !hlc_lt(a, a),
        hlc_lt(a, b) ==> !hlc_lt(b, a),
        hlc_lt(a, b) && hlc_lt(b, c) ==> hlc_lt(a, c),
        a != b ==> hlc_lt(a, b) || hlc_lt(b, a),
{
}

/// A clock's stamps strictly increase: each stamp `tick` or `update`
/// hands out is after the clock's previous state, so every stamp a clock
/// hands out is after all the stamps it handed out before.
pub proof fn lemma_stamps_strictly_increase(state: Hlc, received: Hlc, now_ns: u64)
    ensures
        tick_logical(state, now_ns) <= u32::MAX ==> hlc_lt(state, tick_stamp(state, now_ns)),
        update_logical(state, received, now_ns) <= u32::MAX ==> {
            &&& hlc_lt(state, update_stamp(state, received, now_ns))
            &&& hlc_lt(received, update_stamp(state, received, now_ns))
        },
{
}

/// Stamps from one clock keep increasing across any two events, whatever
/// the physical clock reads.
pub proof fn lemma_two_ticks_increase(state: Hlc, now1: u64, now2: u64)
    requires
        tick_logical(state, now1) <= u32::MAX,
        tick_logical(tick_stamp(state, now1), now2) <= u32::MAX,
    ensures
        hlc_lt(tick_stamp(state, now1), tick_stamp(tick_stamp(state, now1), now2)),
        hlc_lt(state, tick_stamp(tick_stamp(state, now1), now2)),
{
}

/// What `tick` hands out, case by case on the inputs: when physical time
/// has moved past the clock's last physical component, the new stamp is at
/// `now_ns` with logical 0; otherwise it stays at the last physical time
/// and the logical counter goes up by one. The node id is the clock's own.
pub proof fn lemma_tick_cases(state: Hlc, now_ns: u64)
    ensures
        tick_stamp(state, now_ns).node_id == state.node_id,
        now_ns > state.physical_ns ==> tick_stamp(state, now_ns).physical_ns == now_ns
            && tick_stamp(state, now_ns).logical == 0,
        now_ns <= state.physical_ns && state.logical < u32::MAX ==> tick_stamp(
            state,
            now_ns,
        ).physical_ns == state.physical_ns && tick_stamp(state, now_ns).logical == state.logical
            + 1,
{
}

/// What `update` hands out, case by case on the inputs. The physical part
/// is the largest of the clock's last physical time, the received one and
/// `now_ns`. The logical part is 0 when `now_ns` is strictly ahead of both
/// stamps; one past the clock's own counter when only the clock's physical
/// time is the largest; one past the received counter when only the
/// received physical time is; and one past the larger counter when the two
/// stamps share the largest physical time. The node id is the clock's own.
pub proof fn lemma_update_cases(state: Hlc, received: Hlc, now_ns: u64)
    ensures
        ({
            let r = update_stamp(state, received, now_ns);
            &&& r.node_id == state.node_id
            &&& r.physical_ns >= state.physical_ns
            &&& r.physical_ns >= received.physical_ns
            &&& r.physical_ns >= now_ns
            &&& (r.physical_ns == state.physical_ns || r.physical_ns == received.physical_ns
                || r.physical_ns == now_ns)
            &&& (now_ns > state.physical_ns && now_ns > received.physical_ns ==> r.physical_ns
                == now_ns && r.logical == 0)
            &&& (state.physical_ns > received.physical_ns && state.physical_ns >= now_ns
                && state.logical < u32::MAX ==> r.physical_ns == state.physical_ns && r.logical
                == state.logical + 1)
            &&& (received.physical_ns > state.physical_ns && received.physical_ns >= now_ns
                && received.logical < u32::MAX ==> r.physical_ns == received.physical_ns
                && r.logical == received.logical + 1)
            &&& (state.physical_ns == received.physical_ns && state.physical_ns >= now_ns
                && state.logical < u32::MAX && received.logical < u32::MAX ==> r.physical_ns
                == state.physical_ns && r.logical == (if state.logical < received.logical {
                received.logical
            } else {
                state.logical
            }) + 1)
        }),
{
}

} // verus!
