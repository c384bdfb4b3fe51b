//! Asynchronous inter-process communication, modelled as one FIFO mailbox
//! per open `Port`.
use std::collections::{HashMap, VecDeque};
use vstd::prelude::*;
use crate::kernel::{KernelError, KernelResult};

verus! {

broadcast use vstd::std_specs::hash::group_hash_axioms;

#[derive(Debug, Clone, Copy, PartialEq, Eq, Hash, Structural)]
pub struct Port(pub u64);

#[derive(Debug, Clone)]
pub struct IpcMessage {
    pub from: Port,
    pub payload: Vec<u8>,
}

pub struct IpcBus {
    next_port: u64,
    mailboxes: HashMap<u64, VecDeque<IpcMessage>>,
}

impl IpcBus {
    /// The last port number handed out (0 before the first).
    pub closed spec fn last_port(&self) -> u64 {
        self.next_port
    }

    /// The open ports and, for each, its queued messages, oldest first.
    pub closed spec fn mailboxes(&self) -> Map<u64, Seq<IpcMessage>> {
        self.mailboxes@.map_values(|q: VecDeque<IpcMessage>| q@)
    }

    /// The bus's invariant: every open port was handed out by `create_port`.
    pub open spec fn wf(&self) -> bool {
        forall|p: u64| #[trigger] self.mailboxes().contains_key(p) ==> 1 <= p <= self.last_port()
    }

    /// `post` is `pre` after `send(to, from, payload)` succeeded: the message
    /// joins the back of `to`'s mailbox.
    pub open spec fn sent(pre: IpcBus, post: IpcBus, to: Port, msg: IpcMessage) -> bool {
        &&& pre.mailboxes().contains_key(to.0)
        &&& post.mailboxes() == pre.mailboxes().insert(to.0, pre.mailboxes()[to.0].push(msg))
        &&& post.last_port() == pre.last_port()
    }

    /// `post` is `pre` after `receive(on)` returned `r`: the front of `on`'s
    /// mailbox, if the port is open and has mail, taken off the mailbox.
    pub open spec fn received(pre: IpcBus, post: IpcBus, on: Port, r: Option<IpcMessage>) -> bool {
        &&& post.last_port() == pre.last_port()
        &&& if pre.mailboxes().contains_key(on.0) && pre.mailboxes()[on.0].len() > 0 {
            &&& r == Some(pre.mailboxes()[on.0][0])
            &&& post.mailboxes() == pre.mailboxes().insert(
                on.0,
                pre.mailboxes()[on.0].drop_first(),
            )
        } else {
            &&& r is None
            &&& post.mailboxes() == pre.mailboxes()
        }
    }

    pub fn new() -> (r: Self)
        ensures
            r.wf(),
            r.last_port() == 0,
            r.mailboxes() == Map::<u64, Seq<IpcMessage>>::empty(),
    {
        let r = IpcBus { next_port: 0, mailboxes: HashMap::new() };
        assert(r.mailboxes() =~= Map::<u64, Seq<IpcMessage>>::empty());
        r
    }

    /// Open a new port with an empty mailbox.
    pub fn create_port(&mut self) -> (r: Port)
        requires
            old(self).wf(),
            old(self).last_port() < u64::MAX,
        ensures
            final(self).wf(),
            r.0 == old(self).last_port() + 1,
            final(self).last_port() == r.0,
            !old(self).mailboxes().contains_key(r.0),
            final(self).mailboxes() == old(self).mailboxes().insert(r.0, Seq::<IpcMessage>::empty()),
    {
        self.next_port = self.next_port + 1;
        let port = Port(self.next_port);
        self.mailboxes.insert(port.0, VecDeque::new());
        proof {
            assert(self.mailboxes() =~= old(self).mailboxes().insert(
                port.0,
                Seq::<IpcMessage>::empty(),
            ));
        }
        port
    }

    /// Queue `payload` from `from` on port `to`. Fails with `PortClosed`
    /// when `to` is not open.
    pub fn send(&mut self, to: Port, from: Port, payload: Vec<u8>) -> (r: KernelResult<()>)
        requires
            old(self).wf(),
        ensures
            final(self).wf(),
            match r {
                Ok(()) => Self::sent(*old(self), *final(self), to, IpcMessage { from, payload }),
                Err(e) => {
                    &&& e == KernelError::PortClosed
                    &&& !old(self).mailboxes().contains_key(to.0)
                    &&& *final(self) == *old(self)
                },
            },
    {
        if !self.mailboxes.contains_key(&to.0) {
            return Err(KernelError::PortClosed);
        }
        let taken = self.mailboxes.remove(&to.0);
        let mut mailbox = taken.unwrap();
        let ghost msg = IpcMessage { from, payload };
        mailbox.push_back(IpcMessage { from, payload });
        self.mailboxes.insert(to.0, mailbox);
        proof {
            assert(self.mailboxes() =~= old(self).mailboxes().insert(
                to.0,
                old(self).mailboxes()[to.0].push(msg),
            ));
        }
        Ok(())
    }

    /// Take the oldest message queued on port `on`, if any.
    pub fn receive(&mut self, on: Port) -> (r: Option<IpcMessage>)
        requires
            old(self).wf(),
        ensures
            final(self).wf(),
            Self::received(*old(self), *final(self), on, r),
    {
        let taken = self.mailboxes.remove(&on.0);
        match taken {
            None => {
                proof {
                    assert(self.mailboxes@ =~= old(self).mailboxes@);
                }
                None
            },
            Some(mut mailbox) => {
                let m = mailbox.pop_front();
                self.mailboxes.insert(on.0, mailbox);
                proof {
                    if old(self).mailboxes()[on.0].len() > 0 {
                        assert(self.mailboxes() =~= old(self).mailboxes().insert(
                            on.0,
                            old(self).mailboxes()[on.0].drop_first(),
                        ));
                    } else {
                        assert(self.mailboxes() =~= old(self).mailboxes());
                    }
                }
                m
            },
        }
    }

    /// Close `port`, dropping any messages still queued on it.
    pub fn close(&mut self, port: Port)
        requires
            old(self).wf(),
        ensures
            final(self).wf(),
            final(self).last_port() == old(self).last_port(),
            final(self).mailboxes() == old(self).mailboxes().remove(port.0),
    {
        self.mailboxes.remove(&port.0);
        proof {
            assert(self.mailboxes() =~= old(self).mailboxes().remove(port.0));
        }
    }
}

/// A message sent to a port with an empty mailbox is the next message
/// received on that port, unchanged, and the mailbox is empty again.
pub proof fn lemma_send_then_receive_round_trip(
    s0: IpcBus,
    s1: IpcBus,
    s2: IpcBus,
    to: Port,
    msg: IpcMessage,
    r: Option<IpcMessage>,
)
    requires
        s0.mailboxes().contains_key(to.0),
        s0.mailboxes()[to.0].len() == 0,
        IpcBus::sent(s0, s1, to, msg),
        IpcBus::received(s1, s2, to, r),
    ensures
        r == Some(msg),
        s2.mailboxes() == s0.mailboxes(),
{
    assert(s1.mailboxes()[to.0] =~= seq![msg]);
    assert(s2.mailboxes()[to.0] =~= s0.mailboxes()[to.0]);
    assert(s2.mailboxes() =~= s0.mailboxes());
}

/// Mailboxes are first in, first out: of two messages sent to a port, the
/// earlier is received first, whatever else is queued before them.
pub proof fn lemma_mailbox_fifo(
    s0: IpcBus,
    s1: IpcBus,
    s2: IpcBus,
    to: Port,
    m1: IpcMessage,
    m2: IpcMessage,
)
    requires
        IpcBus::sent(s0, s1, to, m1),
        IpcBus::sent(s1, s2, to, m2),
    ensures
        s2.mailboxes()[to.0] == s0.mailboxes()[to.0].push(m1).push(m2),
        s2.mailboxes()[to.0].len() >= 2,
        s2.mailboxes()[to.0][s2.mailboxes()[to.0].len() - 2] == m1,
{
}

impl Default for IpcBus {
    fn default() -> (r: Self)
        ensures
            r.wf(),
            r.last_port() == 0,
            r.mailboxes() == Map::<u64, Seq<IpcMessage>>::empty(),
    {
        Self::new()
    }
}

/// `receive` takes the oldest message: after two sends to a port with an
/// empty mailbox, the first receive returns the first message sent and
/// leaves exactly the second one queued.
pub proof fn lemma_receive_takes_oldest(
    s0: IpcBus,
    s1: IpcBus,
    s2: IpcBus,
    s3: IpcBus,
    to: Port,
    m1: IpcMessage,
    m2: IpcMessage,
    r: Option<IpcMessage>,
)
    requires
        s0.mailboxes().contains_key(to.0),
        s0.mailboxes()[to.0].len() == 0,
        IpcBus::sent(s0, s1, to, m1),
        IpcBus::sent(s1, s2, to, m2),
        IpcBus::received(s2, s3, to, r),
    ensures
        r == Some(m1),
        s3.mailboxes()[to.0] == seq![m2],
        s3.mailboxes().dom() == s0.mailboxes().dom(),
{
    assert(s2.mailboxes()[to.0] =~= seq![m1, m2]);
    assert(s3.mailboxes()[to.0] =~= seq![m2]);
    assert(s3.mailboxes().dom() =~= s0.mailboxes().dom());
}

/// Receiving on a port that is closed or has no mail returns nothing and
/// changes nothing; sending to a closed port is refused (see `send`).
pub proof fn lemma_receive_on_empty_is_none(s0: IpcBus, s1: IpcBus, on: Port, r: Option<IpcMessage>)
    requires
        !s0.mailboxes().contains_key(on.0) || s0.mailboxes()[on.0].len() == 0,
        IpcBus::received(s0, s1, on, r),
    ensures
        r is None,
        s1.mailboxes() == s0.mailboxes(),
{
}

} // verus!
