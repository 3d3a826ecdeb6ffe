//! The channel as mathematics: what has been published, what of it is still
//! retained, and what a subscriber at a given cursor reads.

use vstd::prelude::*;

verus! {

/// The state of a channel: every message ever published, in order of
/// publication, of which only the newest `capacity` are still retained.
/// The sequence number of a message is its index in `history`.
pub struct ChannelView {
    pub history: Seq<Seq<char>>,
    pub capacity: nat,
    pub subscribers: nat,
    pub closed: bool,
}

/// What one read yields, in terms of message contents.
pub enum Reception {
    /// The message at the cursor.
    Message(Seq<char>),
    /// The cursor was behind the retained messages by that many.
    Lagged(nat),
    /// Nothing has been published at or after the cursor.
    Empty,
    /// Nothing more will be published, and nothing is left at the cursor.
    Closed,
}

impl ChannelView {
    /// A fresh channel: nothing published, nobody attached.
    pub open spec fn initial(capacity: nat) -> ChannelView {
        ChannelView { history: Seq::empty(), capacity, subscribers: 0, closed: false }
    }

    /// A channel has room for at least one message.
    pub open spec fn wf(self) -> bool {
        self.capacity > 0
    }

    /// The sequence number that the next published message gets.
    pub open spec fn next_seq(self) -> nat {
        self.history.len()
    }

    /// The sequence number of the oldest message that is still retained.
    pub open spec fn oldest(self) -> nat {
        if self.history.len() > self.capacity {
            (self.history.len() - self.capacity) as nat
        } else {
            0
        }
    }

    /// The retained messages, oldest first.
    pub open spec fn retained(self) -> Seq<Seq<char>> {
        self.history.subrange(self.oldest() as int, self.history.len() as int)
    }

    /// The channel after `message` has been published: it takes the next
    /// sequence number, and the oldest retained message gives way if the
    /// buffer was full.
    pub open spec fn publish(self, message: Seq<char>) -> ChannelView {
        ChannelView { history: self.history.push(message), ..self }
    }

    /// The channel after each of `messages` has been published in turn.
    pub open spec fn publish_all(self, messages: Seq<Seq<char>>) -> ChannelView
        decreases messages.len(),
    {
        if messages.len() == 0 {
            self
        } else {
            self.publish_all(messages.drop_last()).publish(messages.last())
        }
    }

    /// The channel with one more subscriber attached.
    pub open spec fn subscribe(self) -> ChannelView {
        ChannelView { subscribers: self.subscribers + 1, ..self }
    }

    /// The channel with one subscriber fewer, if it had any.
    pub open spec fn unsubscribe(self) -> ChannelView {
        ChannelView {
            subscribers: if self.subscribers > 0 {
                (self.subscribers - 1) as nat
            } else {
                0
            },
            ..self
        }
    }

    /// The channel once nothing more can be published.
    pub open spec fn close(self) -> ChannelView {
        ChannelView { closed: true, ..self }
    }

    /// What a subscriber whose cursor is `cursor` reads next.
    pub open spec fn reception(self, cursor: nat) -> Reception {
        if cursor < self.oldest() {
            Reception::Lagged((self.oldest() - cursor) as nat)
        } else if cursor < self.history.len() {
            Reception::Message(self.history[cursor as int])
        } else if self.closed {
            Reception::Closed
        } else {
            Reception::Empty
        }
    }

    /// Where that subscriber's cursor stands after the read: at the oldest
    /// retained message after a lag, one further after a message, and where
    /// it was otherwise.
    pub open spec fn cursor_after(self, cursor: nat) -> nat {
        if cursor < self.oldest() {
            self.oldest()
        } else if cursor < self.history.len() {
            cursor + 1
        } else {
            cursor
        }
    }
}

/// One event in the life of a channel with several subscribers.
pub enum Step {
    /// A message is published.
    Publish(Seq<char>),
    /// The subscriber with this number reads once.
    Read(int),
}

/// A channel with its subscribers' cursors, and what each has read so far.
pub struct Run {
    pub channel: ChannelView,
    pub cursors: Seq<nat>,
    pub readings: Seq<Seq<Reception>>,
}

/// Where `steps` lead from a channel whose subscribers stand at `cursors`.
/// A read by a subscriber that does not exist changes nothing.
pub open spec fn run(channel: ChannelView, cursors: Seq<nat>, steps: Seq<Step>) -> Run
    decreases steps.len(),
{
    if steps.len() == 0 {
        Run { channel, cursors, readings: Seq::new(cursors.len(), |k: int| Seq::empty()) }
    } else {
        let before = run(channel, cursors, steps.drop_last());
        match steps.last() {
            Step::Publish(message) => Run { channel: before.channel.publish(message), ..before },
            Step::Read(k) => if 0 <= k < cursors.len() {
                Run {
                    cursors: before.cursors.update(k, before.channel.cursor_after(before.cursors[k])),
                    readings: before.readings.update(
                        k,
                        before.readings[k].push(before.channel.reception(before.cursors[k])),
                    ),
                    ..before
                }
            } else {
                before
            },
        }
    }
}

/// The messages that `steps` publish, in the order of their publication.
pub open spec fn published_in(steps: Seq<Step>) -> Seq<Seq<char>>
    decreases steps.len(),
{
    if steps.len() == 0 {
        Seq::empty()
    } else {
        let earlier = published_in(steps.drop_last());
        match steps.last() {
            Step::Publish(message) => earlier.push(message),
            Step::Read(_) => earlier,
        }
    }
}

/// The messages among `readings`, in the order in which they were read.
pub open spec fn messages_in(readings: Seq<Reception>) -> Seq<Seq<char>>
    decreases readings.len(),
{
    if readings.len() == 0 {
        Seq::empty()
    } else {
        let earlier = messages_in(readings.drop_last());
        match readings.last() {
            Reception::Message(message) => earlier.push(message),
            _ => earlier,
        }
    }
}

/// Whether none of `readings` reports a lag.
pub open spec fn never_lagged(readings: Seq<Reception>) -> bool {
    forall|i: int| 0 <= i < readings.len() ==> !(#[trigger] readings[i] is Lagged)
}

} // verus!
