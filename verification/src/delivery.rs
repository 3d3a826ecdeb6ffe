//! The task that delivers a group's messages to one subscriber, as a state
//! and the decisions taken on it. Whoever runs the task does what an
//! [`Action`] says: hands a packet to the subscriber's sink and reports how
//! that went, waits for the next post, or ends.

use crate::channel::model::{ChannelView, Reception};
use crate::channel::{share, Received, Subscriber};
use crate::decimal::{decimal, push_decimal};
use crate::group::Group;
use std::sync::Arc;
use vstd::prelude::*;
use vstd::string::StringExecFns;

verus! {

/// What is handed to a subscriber's sink.
#[derive(Debug, PartialEq, Eq)]
pub enum Packet {
    /// A message, together with the name of the group it was posted to.
    Message { group_name: Arc<String>, message: Arc<String> },
    /// A notice in words.
    Error(String),
}

/// A packet in terms of its text.
pub enum PacketView {
    Message { group_name: Seq<char>, message: Seq<char> },
    Error(Seq<char>),
}

impl View for Packet {
    type V = PacketView;

    open spec fn view(&self) -> PacketView {
        match *self {
            Packet::Message { group_name, message } => PacketView::Message {
                group_name: group_name@,
                message: message@,
            },
            Packet::Error(text) => PacketView::Error(text@),
        }
    }
}

/// The notice that tells a subscriber how many messages of a group it missed.
pub open spec fn lag_notice(skipped: nat, group_name: Seq<char>) -> Seq<char> {
    "Dropped "@ + decimal(skipped) + " messages from "@ + group_name + "."@
}

/// Writes out the notice for `skipped` missed messages of `group_name`.
pub fn lag_notice_text(skipped: u64, group_name: &str) -> (text: String)
    ensures
        text@ == lag_notice(skipped as nat, group_name@),
{
    let mut text = String::new();
    text.append("Dropped ");
    push_decimal(&mut text, skipped);
    text.append(" messages from ");
    text.append(group_name);
    text.append(".");
    assert(text@ =~= lag_notice(skipped as nat, group_name@));
    text
}

/// What a delivery task does next.
#[derive(Debug, PartialEq, Eq)]
pub enum Action {
    /// Hand the packet to the sink, then report how that went.
    Forward(Packet),
    /// Nothing to deliver yet: wait until something is posted.
    Wait,
    /// The task is over.
    Stop,
}

/// An action in terms of the packet's text.
pub enum ActionView {
    Forward(PacketView),
    Wait,
    Stop,
}

impl View for Action {
    type V = ActionView;

    open spec fn view(&self) -> ActionView {
        match *self {
            Action::Forward(packet) => ActionView::Forward(packet@),
            Action::Wait => ActionView::Wait,
            Action::Stop => ActionView::Stop,
        }
    }
}

/// Where one delivery task stands: for which group it delivers, the sequence
/// number of the next message it has not delivered, and whether it is still
/// running.
pub struct SubscriptionView {
    pub group_name: Seq<char>,
    pub cursor: nat,
    pub active: bool,
}

impl SubscriptionView {
    /// What the task does about one reading of the channel: a message goes
    /// out under the group's name, a lag goes out as a notice, an empty
    /// channel is waited on, and a closed one ends the task. A task that is
    /// over does nothing more.
    pub open spec fn reaction(self, reception: Reception) -> ActionView {
        if !self.active {
            ActionView::Stop
        } else {
            match reception {
                Reception::Message(message) => ActionView::Forward(
                    PacketView::Message { group_name: self.group_name, message },
                ),
                Reception::Lagged(skipped) => ActionView::Forward(
                    PacketView::Error(lag_notice(skipped, self.group_name)),
                ),
                Reception::Empty => ActionView::Wait,
                Reception::Closed => ActionView::Stop,
            }
        }
    }

    /// Whether the task is still running after that reading.
    pub open spec fn active_after(self, reception: Reception) -> bool {
        self.active && !(reception is Closed)
    }

    /// The task's next action on `channel`.
    pub open spec fn next_action(self, channel: ChannelView) -> ActionView {
        self.reaction(channel.reception(self.cursor))
    }

    /// The task after that action. A task that is over does not read.
    pub open spec fn advance(self, channel: ChannelView) -> SubscriptionView {
        if self.active {
            SubscriptionView {
                cursor: channel.cursor_after(self.cursor),
                active: self.active_after(channel.reception(self.cursor)),
                ..self
            }
        } else {
            self
        }
    }

    /// The task after the sink has reported on a forwarded packet: a failed
    /// delivery ends it.
    pub open spec fn delivered(self, succeeded: bool) -> SubscriptionView {
        SubscriptionView { active: self.active && succeeded, ..self }
    }
}

/// The state of the task that delivers a group's messages to one subscriber:
/// its cursor into the group's channel, and whether it is still running.
#[derive(Debug)]
pub struct Subscription {
    group_name: Arc<String>,
    subscriber: Subscriber,
    active: bool,
}

impl View for Subscription {
    type V = SubscriptionView;

    closed spec fn view(&self) -> SubscriptionView {
        SubscriptionView {
            group_name: self.group_name@,
            cursor: self.subscriber@,
            active: self.active,
        }
    }
}

impl Subscription {
    /// The state of a task that starts to deliver for the group named
    /// `group_name` at the cursor `subscriber`.
    pub(crate) fn start(group_name: Arc<String>, subscriber: Subscriber) -> (subscription:
        Subscription)
        ensures
            subscription@ == (SubscriptionView {
                group_name: group_name@,
                cursor: subscriber@,
                active: true,
            }),
    {
        Subscription { group_name, subscriber, active: true }
    }

    /// Gives up the cursor of a task that is being detached.
    pub(crate) fn into_subscriber(self) -> (subscriber: Subscriber)
        ensures
            subscriber@ == self@.cursor,
    {
        self.subscriber
    }

    /// Whether the task is still running.
    pub fn is_active(&self) -> (active: bool)
        ensures
            active == self@.active,
    {
        self.active
    }

    /// The name of the group that the task delivers for.
    pub fn group_name(&self) -> (name: &Arc<String>)
        ensures
            name@ == self@.group_name,
    {
        &self.group_name
    }

    /// Decides what to do about one reading of the channel.
    pub fn react(&mut self, received: Received) -> (action: Action)
        ensures
            action@ == old(self)@.reaction(received@),
            final(self)@ == (SubscriptionView {
                active: old(self)@.active_after(received@),
                ..old(self)@
            }),
    {
        if !self.active {
            return Action::Stop;
        }
        match received {
            Received::Message(message) => Action::Forward(
                Packet::Message { group_name: share(&self.group_name), message },
            ),
            Received::Lagged(skipped) => Action::Forward(
                Packet::Error(lag_notice_text(skipped, self.group_name.as_str())),
            ),
            Received::Empty => Action::Wait,
            Received::Closed => {
                self.active = false;
                Action::Stop
            },
        }
    }

    /// Reads the group's channel and decides what the task does next.
    pub fn next_action(&mut self, group: &Group) -> (action: Action)
        requires
            group.wf(),
        ensures
            action@ == old(self)@.next_action(group@.channel),
            final(self)@ == old(self)@.advance(group@.channel),
    {
        if !self.active {
            return Action::Stop;
        }
        let received = self.subscriber.receive(group.channel());
        self.react(received)
    }

    /// Takes note of how the sink fared with the packet last forwarded.
    pub fn delivered(&mut self, succeeded: bool)
        ensures
            final(self)@ == old(self)@.delivered(succeeded),
    {
        if !succeeded {
            self.active = false;
        }
    }
}

/// A task whose sink has failed is over for good: whatever the channel holds,
/// it stops, reads nothing and stays where it is. Its failure is recorded in
/// the task's own state alone, so the group and the other tasks' cursors are
/// as they were, and every other task goes on as it would have.
pub proof fn law_failed_sink_ends_its_task(task: SubscriptionView, channel: ChannelView)
    ensures
        !task.delivered(false).active,
        task.delivered(false).next_action(channel) == ActionView::Stop,
        task.delivered(false).advance(channel) == task.delivered(false),
        task.delivered(true) == task,
{
}

} // verus!
