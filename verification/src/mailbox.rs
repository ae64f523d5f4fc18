//! The mailbox of an actor: a bounded queue that hands messages out in the
//! order in which they were taken in.
//!
//! A mailbox never holds more messages than its capacity. A sender that finds
//! it full is suspended: it gets its message back and keeps it until the actor
//! has made room, so that no message is lost on the way.

use std::collections::VecDeque;
use vstd::prelude::*;

verus! {

/// The failure of a send: the mailbox is closed, its actor takes no more messages.
#[derive(Debug, Clone, Copy, PartialEq, Eq)]
pub struct SendError;

/// How a sender stands after a send to an open mailbox.
#[derive(Debug, Clone, PartialEq, Eq)]
pub enum Delivery<M> {
    /// The message is in the mailbox, the sender goes on.
    Buffered,
    /// The mailbox was full: the sender keeps the message, which comes back
    /// with this answer, and waits until the mailbox has room for it.
    Suspended(M),
}

/// What a mailbox is, as a mathematical value.
pub struct MailboxState<M> {
    /// How many messages the mailbox holds at most.
    pub capacity: nat,
    /// The messages taken in and not yet handed out, oldest first.
    pub pending: Seq<M>,
    /// Whether the mailbox refuses further messages.
    pub closed: bool,
}

/// One step of a mailbox's life, as seen from outside.
pub enum MailboxOp<M> {
    /// A sender offers a message.
    Send(M),
    /// The actor asks for its next message.
    Receive,
}

impl<M> MailboxState<M> {
    /// Whether the mailbox holds no more than its capacity.
    pub open spec fn bounded(self) -> bool {
        self.pending.len() <= self.capacity
    }

    /// Whether a send would find no room.
    pub open spec fn is_full(self) -> bool {
        self.pending.len() >= self.capacity
    }

    /// Whether a send would be taken in.
    pub open spec fn accepts(self) -> bool {
        !self.closed && !self.is_full()
    }

    /// What the sender of `message` is told: a closed mailbox refuses, a full one
    /// suspends the sender and hands the message back, any other takes it in.
    pub open spec fn answer(self, message: M) -> Result<Delivery<M>, SendError> {
        if self.closed {
            Err(SendError)
        } else if self.is_full() {
            Ok(Delivery::Suspended(message))
        } else {
            Ok(Delivery::Buffered)
        }
    }

    /// The state after a send of `message`: where it is taken in it stands
    /// behind all earlier messages, and else nothing changes.
    pub open spec fn send(self, message: M) -> Self {
        if self.accepts() {
            MailboxState { pending: self.pending.push(message), ..self }
        } else {
            self
        }
    }

    /// The state after the actor took its next message, if there was one.
    pub open spec fn receive(self) -> Self {
        if self.pending.len() == 0 {
            self
        } else {
            MailboxState { pending: self.pending.skip(1), ..self }
        }
    }

    /// The state after closing: what is pending stays to be handed out.
    pub open spec fn close(self) -> Self {
        MailboxState { closed: true, ..self }
    }

    /// The state after one step.
    pub open spec fn step(self, op: MailboxOp<M>) -> Self {
        match op {
            MailboxOp::Send(message) => self.send(message),
            MailboxOp::Receive => self.receive(),
        }
    }

    /// The state after the steps `ops`, taken in order.
    pub open spec fn run(self, ops: Seq<MailboxOp<M>>) -> Self
        decreases ops.len(),
    {
        if ops.len() == 0 {
            self
        } else {
            self.run(ops.drop_last()).step(ops.last())
        }
    }

    /// The messages that the mailbox took in during the steps `ops`, in order:
    /// those of the sends that found it open and with room.
    pub open spec fn accepted(self, ops: Seq<MailboxOp<M>>) -> Seq<M>
        decreases ops.len(),
    {
        if ops.len() == 0 {
            Seq::empty()
        } else {
            let earlier = self.accepted(ops.drop_last());
            let before = self.run(ops.drop_last());
            match ops.last() {
                MailboxOp::Send(message) => if before.accepts() {
                    earlier.push(message)
                } else {
                    earlier
                },
                MailboxOp::Receive => earlier,
            }
        }
    }

    /// The messages that the actor was handed during the steps `ops`, in order.
    pub open spec fn received(self, ops: Seq<MailboxOp<M>>) -> Seq<M>
        decreases ops.len(),
    {
        if ops.len() == 0 {
            Seq::empty()
        } else {
            let earlier = self.received(ops.drop_last());
            let before = self.run(ops.drop_last());
            match ops.last() {
                MailboxOp::Send(_) => earlier,
                MailboxOp::Receive => if before.pending.len() == 0 {
                    earlier
                } else {
                    earlier.push(before.pending[0])
                },
            }
        }
    }
}

/// A bounded queue of messages for one actor.
pub struct Mailbox<M> {
    capacity: usize,
    pending: VecDeque<M>,
    closed: bool,
}

impl<M> View for Mailbox<M> {
    type V = MailboxState<M>;

    closed spec fn view(&self) -> MailboxState<M> {
        MailboxState { capacity: self.capacity as nat, pending: self.pending@, closed: self.closed }
    }
}

impl<M> Mailbox<M> {
    #[verifier::type_invariant]
    spec fn within_capacity(self) -> bool {
        self.pending@.len() <= self.capacity
    }

    /// An open, empty mailbox that holds up to `capacity` messages.
    pub fn new(capacity: usize) -> (mailbox: Self)
        ensures
            mailbox@.capacity == capacity,
            mailbox@.pending == Seq::<M>::empty(),
            !mailbox@.closed,
    {
        Mailbox { capacity, pending: VecDeque::new(), closed: false }
    }

    /// The number of messages that the mailbox holds at most.
    pub fn capacity(&self) -> (capacity: usize)
        ensures
            capacity == self@.capacity,
    {
        self.capacity
    }

    /// The number of messages taken in and not yet handed out. It never
    /// exceeds the capacity.
    pub fn len(&self) -> (len: usize)
        ensures
            len == self@.pending.len(),
            self@.bounded(),
    {
        proof {
            use_type_invariant(self);
        }
        self.pending.len()
    }

    /// Whether no message waits to be handed out.
    pub fn is_empty(&self) -> (empty: bool)
        ensures
            empty == (self@.pending.len() == 0),
    {
        self.pending.len() == 0
    }

    /// Whether a sender would find no room.
    pub fn is_full(&self) -> (full: bool)
        ensures
            full == self@.is_full(),
    {
        self.pending.len() >= self.capacity
    }

    /// Whether the mailbox refuses further messages.
    pub fn is_closed(&self) -> (closed: bool)
        ensures
            closed == self@.closed,
    {
        self.closed
    }

    /// Offers `message` to the mailbox.
    ///
    /// A closed mailbox refuses it. A full one suspends the sender: nothing
    /// changes and the message comes back, to be offered again once the actor
    /// has made room. Any other mailbox takes the message in behind every
    /// earlier one.
    pub fn send(&mut self, message: M) -> (result: Result<Delivery<M>, SendError>)
        ensures
            final(self)@ == old(self)@.send(message),
            result == old(self)@.answer(message),
            final(self)@.bounded(),
    {
        proof {
            use_type_invariant(&*self);
        }
        if self.closed {
            return Err(SendError);
        }
        if self.pending.len() >= self.capacity {
            return Ok(Delivery::Suspended(message));
        }
        let mut pending: VecDeque<M> = VecDeque::new();
        std::mem::swap(&mut self.pending, &mut pending);
        pending.push_back(message);
        self.pending = pending;
        Ok(Delivery::Buffered)
    }

    /// Takes the oldest message, or nothing when none waits.
    pub fn receive(&mut self) -> (message: Option<M>)
        ensures
            final(self)@ == old(self)@.receive(),
            message == if old(self)@.pending.len() == 0 {
                None
            } else {
                Some(old(self)@.pending[0])
            },
            final(self)@.bounded(),
    {
        proof {
            use_type_invariant(&*self);
        }
        let mut pending: VecDeque<M> = VecDeque::new();
        std::mem::swap(&mut self.pending, &mut pending);
        let message = pending.pop_front();
        proof {
            if old(self)@.pending.len() > 0 {
                assert(pending@ =~= old(self)@.pending.skip(1));
            }
        }
        self.pending = pending;
        message
    }

    /// Closes the mailbox: from now on every send fails. What is pending
    /// stays to be handed out.
    pub fn close(&mut self)
        ensures
            final(self)@ == old(self)@.close(),
    {
        proof {
            use_type_invariant(&*self);
        }
        self.closed = true;
    }
}

/// Messages leave a mailbox in the order in which it took them in, and none is
/// lost: whatever sends and receives a mailbox goes through, the messages
/// handed to the actor followed by those still pending are the messages
/// pending at the start followed by those taken in since. A mailbox within
/// its capacity stays within it.
pub proof fn lemma_fifo<M>(start: MailboxState<M>, ops: Seq<MailboxOp<M>>)
    ensures
        start.run(ops).closed == start.closed,
        start.run(ops).capacity == start.capacity,
        start.bounded() ==> start.run(ops).bounded(),
        start.received(ops) + start.run(ops).pending == start.pending + start.accepted(ops),
    decreases ops.len(),
{
    if ops.len() == 0 {
        assert(start.received(ops) + start.run(ops).pending =~= start.pending + start.accepted(ops));
    } else {
        let head = ops.drop_last();
        lemma_fifo(start, head);
        let before = start.run(head);
        match ops.last() {
            MailboxOp::Send(m) => {
                if before.accepts() {
                    assert(start.received(head) + before.pending.push(m) =~= (start.received(head)
                        + before.pending).push(m));
                    assert((start.pending + start.accepted(head)).push(m) =~= start.pending
                        + start.accepted(head).push(m));
                }
            },
            MailboxOp::Receive => {
                if before.pending.len() > 0 {
                    assert(start.received(head).push(before.pending[0]) + before.pending.skip(1)
                        =~= start.received(head) + before.pending);
                }
            },
        }
    }
}

/// The messages of one sender arrive in the order in which it sent them,
/// whoever else sends to the same mailbox: of the messages that `from` picks
/// out, those handed to the actor followed by those still pending are those
/// pending at the start followed by those taken in since.
pub proof fn lemma_fifo_per_sender<M>(
    start: MailboxState<M>,
    ops: Seq<MailboxOp<M>>,
    from: spec_fn(M) -> bool,
)
    ensures
        (start.received(ops) + start.run(ops).pending).filter(from) == (start.pending
            + start.accepted(ops)).filter(from),
{
    lemma_fifo(start, ops);
}

/// A full mailbox holds its senders back until the actor makes room, and
/// loses nothing meanwhile: a send to an open mailbox at capacity changes
/// nothing and hands the message back; once the actor has taken a message,
/// the same send is taken in, behind everything that was pending.
pub proof fn lemma_backpressure<M>(start: MailboxState<M>, message: M)
    requires
        !start.closed,
        start.bounded(),
        start.is_full(),
    ensures
        start.answer(message) == Ok::<Delivery<M>, SendError>(Delivery::Suspended(message)),
        start.send(message) == start,
        start.capacity > 0 ==> start.receive().answer(message) == Ok::<Delivery<M>, SendError>(
            Delivery::Buffered,
        ),
        start.capacity > 0 ==> start.receive().send(message).pending == start.pending.skip(1).push(
            message,
        ),
        start.capacity > 0 ==> start.receive().send(message).bounded(),
{
}

} // verus!
