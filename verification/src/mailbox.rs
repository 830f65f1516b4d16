//! The bounded FIFO mailbox behind a deferred-bootstrap address.
//!
//! The cross-thread constructor returns an address before the supervised
//! entity exists; messages sent through it in the meantime land here. The
//! sole correctness contract of that path is buffer-not-lose, in send order,
//! up to the mailbox's capacity.

use vstd::prelude::*;

verus! {

/// The buffer capacity used when a mailbox is created without an explicit
/// one.
pub const DEFAULT_CAPACITY: usize = 16;

/// The mathematical state of a mailbox: the buffered messages in send order,
/// and the fixed capacity.
#[verifier::ext_equal]
pub struct MailboxView<M> {
    pub msgs: Seq<M>,
    pub capacity: nat,
}

/// What one send leaves buffered: the message appended at the back while
/// there is room, the buffer unchanged once it is at capacity.
pub open spec fn spec_send<M>(v: MailboxView<M>, msg: M) -> MailboxView<M> {
    if v.msgs.len() < v.capacity {
        MailboxView { msgs: v.msgs.push(msg), ..v }
    } else {
        v
    }
}

/// What a whole sequence of sends, first one first, leaves buffered.
pub open spec fn spec_send_all<M>(v: MailboxView<M>, msgs: Seq<M>) -> MailboxView<M>
    decreases msgs.len(),
{
    if msgs.len() == 0 {
        v
    } else {
        spec_send_all(spec_send(v, msgs[0]), msgs.drop_first())
    }
}

/// Law (buffer, do not lose): as long as the capacity is not exceeded,
/// every message sent through a not-yet-connected address is buffered, in
/// send order, after those already there. `recv`'s contract hands the
/// buffer out front-first, so once the entity exists the buffered messages
/// are delivered in exactly the order they were sent.
pub proof fn lemma_buffered_in_order<M>(v: MailboxView<M>, msgs: Seq<M>)
    requires
        v.msgs.len() + msgs.len() <= v.capacity,
    ensures
        spec_send_all(v, msgs).capacity == v.capacity,
        spec_send_all(v, msgs).msgs == v.msgs + msgs,
    decreases msgs.len(),
{
    if msgs.len() == 0 {
        assert(spec_send_all(v, msgs).msgs =~= v.msgs + msgs);
    } else {
        let v1 = spec_send(v, msgs[0]);
        lemma_buffered_in_order(v1, msgs.drop_first());
        assert(v1.msgs + msgs.drop_first() =~= v.msgs + msgs);
    }
}

/// A bounded FIFO buffer of messages. `send` appends while there is room and
/// hands the message back otherwise; `recv` takes from the front, so
/// buffered messages come out in send order.
pub struct Mailbox<M> {
    msgs: Vec<M>,
    capacity: usize,
}

impl<M> View for Mailbox<M> {
    type V = MailboxView<M>;

    closed spec fn view(&self) -> MailboxView<M> {
        MailboxView { msgs: self.msgs@, capacity: self.capacity as nat }
    }
}

impl<M> Mailbox<M> {
    /// Builds an empty mailbox that will buffer at most `capacity` messages.
    pub fn new(capacity: usize) -> (m: Mailbox<M>)
        ensures
            m@.msgs.len() == 0,
            m@.capacity == capacity as nat,
    {
        Mailbox { msgs: Vec::new(), capacity }
    }

    /// How many messages are buffered.
    pub fn len(&self) -> (n: usize)
        ensures
            n as nat == self@.msgs.len(),
    {
        self.msgs.len()
    }

    /// Whether no message is buffered.
    pub fn is_empty(&self) -> (r: bool)
        ensures
            r == (self@.msgs.len() == 0),
    {
        self.msgs.len() == 0
    }

    /// The fixed capacity the mailbox was created with.
    pub fn capacity(&self) -> (c: usize)
        ensures
            c as nat == self@.capacity,
    {
        self.capacity
    }

    /// Buffers `msg` at the back if there is room; a mailbox already at
    /// capacity is left unchanged and the message comes back as the error.
    pub fn send(&mut self, msg: M) -> (r: Result<(), M>)
        ensures
            final(self)@ == spec_send(old(self)@, msg),
            r is Ok <==> old(self)@.msgs.len() < old(self)@.capacity,
            old(self)@.msgs.len() >= old(self)@.capacity ==> r == Result::<(), M>::Err(msg),
    {
        if self.msgs.len() < self.capacity {
            self.msgs.push(msg);
            proof {
                assert(self@ =~= spec_send(old(self)@, msg));
            }
            Ok(())
        } else {
            proof {
                assert(self@ =~= spec_send(old(self)@, msg));
            }
            Err(msg)
        }
    }

    /// Takes the oldest buffered message, if any: the front of the buffer,
    /// so repeated calls yield the messages in send order.
    pub fn recv(&mut self) -> (r: Option<M>)
        ensures
            final(self)@.capacity == old(self)@.capacity,
            old(self)@.msgs.len() == 0 ==> {
                &&& r is None
                &&& final(self)@.msgs == old(self)@.msgs
            },
            old(self)@.msgs.len() > 0 ==> {
                &&& r == Some(old(self)@.msgs[0])
                &&& final(self)@.msgs == old(self)@.msgs.remove(0)
            },
    {
        if self.msgs.len() == 0 {
            None
        } else {
            Some(self.msgs.remove(0))
        }
    }
}

} // verus!
