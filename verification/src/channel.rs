//! A bounded broadcast channel: every subscriber reads every message through a
//! cursor of its own, and the oldest messages give way once the buffer is full.
//! Publishing never waits for a reader; a reader that falls too far behind is
//! told how many messages it missed.
//!
//! Reading does not wait either. A task that finds the channel empty waits on
//! the channel's [`Notify`], which every publication and the closure wake.

pub mod laws;
pub mod model;

use crate::channel::model::{ChannelView, Reception};
use std::sync::Arc;
use tokio::sync::Notify;
use vstd::arithmetic::div_mod::{lemma_fundamental_div_mod, lemma_mod_bound, lemma_small_mod};
use vstd::prelude::*;

verus! {

/// Publishing reached nobody: no subscriber was attached.
#[derive(Debug, Clone, Copy, PartialEq, Eq)]
pub struct NoSubscribers;

/// The result of one read from a channel.
#[derive(Debug, PartialEq, Eq)]
pub enum Received {
    /// The next message in publication order.
    Message(Arc<String>),
    /// That many messages were evicted before the subscriber read them.
    Lagged(u64),
    /// Nothing newer than the cursor has been published yet.
    Empty,
    /// The channel is closed and the subscriber has read all that remained.
    Closed,
}

impl View for Received {
    type V = Reception;

    open spec fn view(&self) -> Reception {
        match *self {
            Received::Message(message) => Reception::Message(message@),
            Received::Lagged(skipped) => Reception::Lagged(skipped as nat),
            Received::Empty => Reception::Empty,
            Received::Closed => Reception::Closed,
        }
    }
}

/// `tokio::sync::Notify`, of which nothing is known here but that it can be
/// made and told to wake its waiters.
#[verifier::external_type_specification]
#[verifier::external_body]
pub struct ExNotify(tokio::sync::Notify);

/// `tokio::sync::Notify::new` makes a notifier. Nothing is claimed of it.
pub assume_specification[ tokio::sync::Notify::new ]() -> (notify: Notify)
;

/// `tokio::sync::Notify::notify_waiters` wakes the tasks that wait on the
/// notifier and returns. Nothing is claimed of it.
pub assume_specification[ tokio::sync::Notify::notify_waiters ](notify: &Notify)
;

/// The channel itself: a ring of the newest messages, a count of all that
/// were ever published, and the notifier that wakes waiting readers. The
/// full history exists in proofs only.
pub struct Channel {
    capacity: usize,
    slots: Vec<Arc<String>>,
    published: u64,
    subscribers: usize,
    closed: bool,
    news: Arc<Notify>,
    history: Ghost<Seq<Seq<char>>>,
}

/// A subscriber's cursor: the sequence number of the next message it has not
/// consumed. Its view is that number.
#[derive(Debug)]
pub struct Subscriber {
    cursor: u64,
}

/// `std::sync::Arc::clone`: the new handle points at the same allocation, so
/// it stands for the same string.
#[verifier::external_body]
pub(crate) fn share(text: &Arc<String>) -> (handle: Arc<String>)
    ensures
        handle == *text,
{
    Arc::clone(text)
}

/// The slot of the ring in which the message with sequence number `seq` lies.
pub open spec fn slot_of(seq: int, capacity: int) -> int {
    seq % capacity
}

/// Two sequence numbers less than `capacity` apart never share a slot.
proof fn lemma_slots_differ(a: int, b: int, capacity: int)
    requires
        0 <= a < b,
        b - a < capacity,
    ensures
        slot_of(a, capacity) != slot_of(b, capacity),
{
    lemma_fundamental_div_mod(a, capacity);
    lemma_fundamental_div_mod(b, capacity);
    if a % capacity == b % capacity {
        let k = b / capacity - a / capacity;
        assert(b - a == capacity * k) by (nonlinear_arith)
            requires
                a == capacity * (a / capacity) + a % capacity,
                b == capacity * (b / capacity) + b % capacity,
                a % capacity == b % capacity,
                k == b / capacity - a / capacity,
        ;
        assert(false) by (nonlinear_arith)
            requires
                0 < b - a < capacity,
                b - a == capacity * k,
        ;
    }
}

impl View for Channel {
    type V = ChannelView;

    closed spec fn view(&self) -> ChannelView {
        ChannelView {
            history: self.history@,
            capacity: self.capacity as nat,
            subscribers: self.subscribers as nat,
            closed: self.closed,
        }
    }
}

impl Channel {
    /// The channel is in order: it has room for at least one message, and
    /// its ring holds what its view says.
    pub open spec fn wf(&self) -> bool {
        &&& self@.wf()
        &&& self.ring_wf()
    }

    /// The ring holds exactly the retained messages, each in the slot that
    /// its sequence number selects.
    pub closed spec fn ring_wf(&self) -> bool {
        &&& self.history@.len() == self.published
        &&& self.slots@.len() == if self.published < self.capacity {
            self.published as int
        } else {
            self.capacity as int
        }
        &&& forall|seq: int|
            self.published - self.slots@.len() <= seq < self.published ==> self.slots@[slot_of(
                seq,
                self.capacity as int,
            )]@ == #[trigger] self.history@[seq]
    }

    /// Creates a channel that retains at most `capacity` messages.
    pub fn new(capacity: usize) -> (channel: Channel)
        requires
            capacity > 0,
        ensures
            channel.wf(),
            channel@ == ChannelView::initial(capacity as nat),
    {
        Channel {
            capacity,
            slots: Vec::new(),
            published: 0,
            subscribers: 0,
            closed: false,
            news: Arc::new(Notify::new()),
            history: Ghost(Seq::empty()),
        }
    }

    /// The greatest number of messages that the channel retains.
    pub fn capacity(&self) -> (n: usize)
        ensures
            n == self@.capacity,
    {
        self.capacity
    }

    /// How many messages have been published so far: the sequence number of
    /// the next one.
    pub fn published(&self) -> (n: u64)
        requires
            self.wf(),
        ensures
            n == self@.next_seq(),
    {
        self.published
    }

    /// How many of the published messages are still retained.
    pub fn len(&self) -> (n: usize)
        requires
            self.wf(),
        ensures
            n == self@.retained().len(),
            n <= self@.capacity,
    {
        self.slots.len()
    }

    /// How many subscribers are attached.
    pub fn subscriber_count(&self) -> (n: usize)
        ensures
            n == self@.subscribers,
    {
        self.subscribers
    }

    /// Whether the publishing side has been closed.
    pub fn is_closed(&self) -> (closed: bool)
        ensures
            closed == self@.closed,
    {
        self.closed
    }

    /// The notifier that this channel wakes. It stays the same one for as
    /// long as the channel lives.
    pub closed spec fn notifier(&self) -> Arc<Notify> {
        self.news
    }

    /// The notifier on which a reader that found the channel empty waits:
    /// its waiters are woken whenever a message is published and when the
    /// channel is closed.
    pub fn news(&self) -> (news: &Arc<Notify>)
        ensures
            *news == self.notifier(),
    {
        &self.news
    }

    /// Attaches a subscriber. Its cursor stands at the next sequence number,
    /// so it reads only what is published from now on.
    pub fn subscribe(&mut self) -> (subscriber: Subscriber)
        requires
            old(self).wf(),
            old(self)@.subscribers < usize::MAX,
        ensures
            final(self).wf(),
            final(self)@ == old(self)@.subscribe(),
            final(self).notifier() == old(self).notifier(),
            subscriber@ == old(self)@.next_seq(),
    {
        self.subscribers = self.subscribers + 1;
        Subscriber { cursor: self.published }
    }

    /// Detaches a subscriber. What has been published stays as it is.
    pub fn unsubscribe(&mut self, subscriber: Subscriber)
        requires
            old(self).wf(),
        ensures
            final(self).wf(),
            final(self)@ == old(self)@.unsubscribe(),
            final(self).notifier() == old(self).notifier(),
    {
        let _detached = subscriber;
        if self.subscribers > 0 {
            self.subscribers = self.subscribers - 1;
        }
    }

    /// Publishes `message` under the next sequence number, and wakes the
    /// readers that wait. Once the ring is full, the message takes the place
    /// of the oldest one retained.
    ///
    /// Returns how many subscribers are attached, or [`NoSubscribers`] if
    /// none is; the message is published either way.
    pub fn publish(&mut self, message: Arc<String>) -> (result: Result<usize, NoSubscribers>)
        requires
            old(self).wf(),
            !old(self)@.closed,
            old(self)@.next_seq() < u64::MAX,
        ensures
            final(self).wf(),
            final(self)@ == old(self)@.publish(message@),
            final(self).notifier() == old(self).notifier(),
            result == if old(self)@.subscribers == 0 {
                Err::<usize, NoSubscribers>(NoSubscribers)
            } else {
                Ok::<usize, NoSubscribers>(old(self)@.subscribers as usize)
            },
    {
        let index = (self.published % (self.capacity as u64)) as usize;
        if self.slots.len() < self.capacity {
            self.slots.push(message);
        } else {
            self.slots.set(index, message);
        }
        self.published = self.published + 1;
        proof {
            self.history@ = self.history@.push(message@);
            assert forall|seq: int|
                self.published - self.slots@.len() <= seq < self.published implies self.slots@[slot_of(
                seq,
                self.capacity as int,
            )]@ == #[trigger] self.history@[seq] by {
                let capacity = self.capacity as int;
                lemma_mod_bound(seq, capacity);
                if old(self).slots@.len() < capacity {
                    lemma_small_mod(seq as nat, capacity as nat);
                }
                if seq < old(self).published {
                    assert(old(self).history@[seq] == self.history@[seq]);
                    if old(self).slots@.len() == capacity {
                        lemma_slots_differ(seq, old(self).published as int, capacity);
                    }
                }
            }
        }
        self.news.notify_waiters();
        if self.subscribers == 0 {
            Err(NoSubscribers)
        } else {
            Ok(self.subscribers)
        }
    }

    /// Closes the publishing side, and wakes the readers that wait.
    /// Subscribers still read what is retained, and are told of the closure
    /// after that.
    pub fn close(&mut self)
        requires
            old(self).wf(),
        ensures
            final(self).wf(),
            final(self)@ == old(self)@.close(),
            final(self).notifier() == old(self).notifier(),
    {
        self.closed = true;
        self.news.notify_waiters();
    }
}

impl View for Subscriber {
    type V = nat;

    closed spec fn view(&self) -> nat {
        self.cursor as nat
    }
}

impl Subscriber {
    /// The sequence number of the next message that this subscriber reads.
    pub fn position(&self) -> (cursor: u64)
        ensures
            cursor == self@,
    {
        self.cursor
    }

    /// Reads the next message from `channel` without waiting.
    ///
    /// A subscriber that has fallen behind the oldest retained message is
    /// told once how many messages it missed, and moved to that oldest
    /// message, which the next read returns.
    pub fn receive(&mut self, channel: &Channel) -> (received: Received)
        requires
            channel.wf(),
        ensures
            received@ == channel@.reception(old(self)@),
            final(self)@ == channel@.cursor_after(old(self)@),
    {
        let oldest = channel.published - (channel.slots.len() as u64);
        if self.cursor < oldest {
            let skipped = oldest - self.cursor;
            self.cursor = oldest;
            Received::Lagged(skipped)
        } else if self.cursor < channel.published {
            let index = (self.cursor % (channel.capacity as u64)) as usize;
            proof {
                let capacity = channel.capacity as int;
                lemma_mod_bound(self.cursor as int, capacity);
                if channel.slots@.len() < capacity {
                    lemma_small_mod(self.cursor as nat, capacity as nat);
                }
                assert(channel.slots@[slot_of(self.cursor as int, capacity)]@
                    == channel.history@[self.cursor as int]);
            }
            let message = share(&channel.slots[index]);
            self.cursor = self.cursor + 1;
            Received::Message(message)
        } else if channel.closed {
            Received::Closed
        } else {
            Received::Empty
        }
    }
}

} // verus!
