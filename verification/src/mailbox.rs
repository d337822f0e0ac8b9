//! Mailboxes: the message-passing discipline between the workers.
//!
//! [`Outbox`] is the non-lossy outbound narration buffer: events are
//! delivered in emission order with no drops. [`Mailbox`] is a bounded
//! inbound mailbox: once full, a new message is rejected rather than
//! queued, so memory stays capped under a message flood; what was
//! accepted still comes out first-in, first-out.

use vstd::prelude::*;

use crate::model::ClientAction;

verus! {

/// The outbound narration buffer. Emission appends at the tail and
/// draining hands the whole buffer back in emission order, so narration
/// lines are never reordered or dropped.
pub struct Outbox {
    items: Vec<ClientAction>,
}

impl View for Outbox {
    type V = Seq<ClientAction>;

    closed spec fn view(&self) -> Seq<ClientAction> {
        self.items@
    }
}

impl Outbox {
    /// An empty narration buffer.
    pub fn new() -> (r: Outbox)
        ensures
            r@ == Seq::<ClientAction>::empty(),
    {
        Outbox { items: Vec::new() }
    }

    /// Emits one event: it is appended after everything emitted before.
    pub fn emit(&mut self, event: ClientAction)
        ensures
            final(self)@ == old(self)@.push(event),
    {
        self.items.push(event);
    }

    /// Delivers every buffered event, in emission order, leaving the
    /// buffer empty: delivery order equals emission order, nothing is
    /// dropped, and a later turn's narration cannot interleave with it.
    pub fn drain(&mut self) -> (r: Vec<ClientAction>)
        ensures
            r@ == old(self)@,
            final(self)@ == Seq::<ClientAction>::empty(),
    {
        let mut out: Vec<ClientAction> = Vec::new();
        core::mem::swap(&mut out, &mut self.items);
        out
    }

    /// How many events are buffered.
    pub fn len(&self) -> (r: usize)
        ensures
            r == self@.len(),
    {
        self.items.len()
    }
}

/// A bounded first-in, first-out mailbox. `send` rejects a message once
/// the capacity is reached instead of queueing without bound; `recv`
/// hands messages out in the order they were accepted.
pub struct Mailbox<T> {
    capacity: usize,
    items: Vec<T>,
}

impl<T> View for Mailbox<T> {
    type V = Seq<T>;

    closed spec fn view(&self) -> Seq<T> {
        self.items@
    }
}

impl<T> Mailbox<T> {
    /// The bound this mailbox was created with.
    pub closed spec fn spec_capacity(&self) -> nat {
        self.capacity as nat
    }

    /// A mailbox never holds more messages than its bound.
    pub open spec fn wf(&self) -> bool {
        self@.len() <= self.spec_capacity()
    }

    /// An empty mailbox with the given bound.
    pub fn new(capacity: usize) -> (r: Mailbox<T>)
        ensures
            r@ == Seq::<T>::empty(),
            r.spec_capacity() == capacity,
            r.wf(),
    {
        Mailbox { capacity, items: Vec::new() }
    }

    /// Offers a message. A mailbox below its bound accepts it at the
    /// tail; a full one rejects it and stays as it was, so a caller must
    /// not assume delivery.
    pub fn send(&mut self, message: T) -> (accepted: bool)
        requires
            old(self).wf(),
        ensures
            final(self).spec_capacity() == old(self).spec_capacity(),
            final(self).wf(),
            accepted == (old(self)@.len() < old(self).spec_capacity()),
            accepted ==> final(self)@ == old(self)@.push(message),
            !accepted ==> final(self)@ == old(self)@,
    {
        if self.items.len() < self.capacity {
            self.items.push(message);
            true
        } else {
            false
        }
    }

    /// Takes the earliest accepted message, if any: first in, first out.
    pub fn recv(&mut self) -> (r: Option<T>)
        ensures
            final(self).spec_capacity() == old(self).spec_capacity(),
            old(self)@.len() == 0 ==> r is None && final(self)@ == old(self)@,
            old(self)@.len() > 0 ==> r == Some(old(self)@[0]) && final(self)@ == old(self)@.skip(
                1,
            ),
    {
        if self.items.len() == 0 {
            None
        } else {
            let first = self.items.remove(0);
            proof {
                assert(self.items@ =~= old(self).items@.skip(1));
            }
            Some(first)
        }
    }

    /// How many messages are waiting.
    pub fn len(&self) -> (r: usize)
        ensures
            r == self@.len(),
    {
        self.items.len()
    }
}

} // verus!
