//! Transport abstraction, with an in-memory implementation so the CRDT and
//! protocol layers can be exercised without a network stack.
use std::collections::VecDeque;
use vstd::prelude::*;
use crate::sync::protocol::SyncMessage;
use crate::sync::SyncResult;

verus! {

pub trait Transport {
    fn send(&mut self, to_node: u64, message: SyncMessage) -> SyncResult<()>;

    /// The messages received since the last poll, as (from_node, message).
    fn poll(&mut self) -> Vec<(u64, SyncMessage)>;
}

/// In-memory transport: messages are queued on the receiving transport and
/// drained by `poll()`. No real networking.
pub struct InMemoryTransport {
    pub local_node: u64,
    inbox: VecDeque<(u64, SyncMessage)>,
}

impl InMemoryTransport {
    /// This transport's node id.
    pub closed spec fn node(&self) -> u64 {
        self.local_node
    }

    /// The messages delivered and not yet polled, oldest first.
    pub closed spec fn inbox(&self) -> Seq<(u64, SyncMessage)> {
        self.inbox@
    }

    pub fn new(local_node: u64) -> (r: Self)
        ensures
            r.node() == local_node,
            r.inbox() == Seq::<(u64, SyncMessage)>::empty(),
    {
        Self { local_node, inbox: VecDeque::new() }
    }

    /// Deliver a message directly into this transport's inbox, as the
    /// network would.
    pub fn deliver(&mut self, from_node: u64, message: SyncMessage)
        ensures
            final(self).node() == old(self).node(),
            final(self).inbox() == old(self).inbox().push((from_node, message)),
    {
        self.inbox.push_back((from_node, message));
    }
}

impl Default for InMemoryTransport {
    fn default() -> (r: Self)
        ensures
            r.node() == 0,
            r.inbox() == Seq::<(u64, SyncMessage)>::empty(),
    {
        Self::new(0)
    }
}

impl Transport for InMemoryTransport {
    /// Sending succeeds and leaves this transport unchanged: peers are
    /// handed messages through their own `deliver`.
    fn send(&mut self, to_node: u64, message: SyncMessage) -> (r: SyncResult<()>)
        ensures
            r is Ok,
            final(self).node() == old(self).node(),
            final(self).inbox() == old(self).inbox(),
    {
        Ok(())
    }

    /// Drain the inbox, oldest message first.
    fn poll(&mut self) -> (r: Vec<(u64, SyncMessage)>)
        ensures
            r@ == old(self).inbox(),
            final(self).node() == old(self).node(),
            final(self).inbox() == Seq::<(u64, SyncMessage)>::empty(),
    {
        let mut out: Vec<(u64, SyncMessage)> = Vec::new();
        while self.inbox.len() > 0
            invariant
                self.local_node == old(self).local_node,
                out@ + self.inbox@ == old(self).inbox(),
            decreases self.inbox@.len(),
        {
            match self.inbox.pop_front() {
                Some(m) => {
                    out.push(m);
                    proof {
                        assert(out@ + self.inbox@ =~= old(self).inbox());
                    }
                },
                None => {},
            }
        }
        assert(out@ =~= out@ + self.inbox@);
        out
    }
}

} // verus!
