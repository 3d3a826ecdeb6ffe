//! A named group: one broadcast channel and the operations that attach a
//! subscriber to it and publish to it.

use crate::channel::model::{ChannelView, Reception};
use crate::channel::{share, Channel};
use crate::delivery::{ActionView, PacketView, Subscription, SubscriptionView};
use std::sync::Arc;
use tokio::sync::Notify;
use vstd::prelude::*;

verus! {

/// How many messages a group made by [`Group::new`] retains.
pub const GROUP_CAPACITY: usize = 1000;

/// A group as mathematics: its name and the state of its channel.
pub struct GroupView {
    pub name: Seq<char>,
    pub channel: ChannelView,
}

impl GroupView {
    /// A group's channel has room for at least one message and stays open
    /// for as long as the group lives.
    pub open spec fn wf(self) -> bool {
        &&& self.channel.wf()
        &&& !self.channel.closed
    }

    /// A group that has just been created with room for `capacity` messages.
    pub open spec fn fresh(name: Seq<char>, capacity: nat) -> GroupView {
        GroupView { name, channel: ChannelView::initial(capacity) }
    }

    /// The group after `message` has been posted to it.
    pub open spec fn post(self, message: Seq<char>) -> GroupView {
        GroupView { channel: self.channel.publish(message), ..self }
    }

    /// The group after one more subscriber has joined it.
    pub open spec fn join(self) -> GroupView {
        GroupView { channel: self.channel.subscribe(), ..self }
    }

    /// The group after one subscriber has left it.
    pub open spec fn leave(self) -> GroupView {
        GroupView { channel: self.channel.unsubscribe(), ..self }
    }

    /// The state in which the delivery task of a subscriber that joins now
    /// starts: at the next message to be posted.
    pub open spec fn new_subscription(self) -> SubscriptionView {
        SubscriptionView { group_name: self.name, cursor: self.channel.next_seq(), active: true }
    }
}

/// A named topic. Whoever joins it reads every message posted afterwards.
pub struct Group {
    name: Arc<String>,
    channel: Channel,
}

impl View for Group {
    type V = GroupView;

    closed spec fn view(&self) -> GroupView {
        GroupView { name: self.name@, channel: self.channel@ }
    }
}

impl Group {
    /// The group is in order: its channel is open, and in order itself.
    pub open spec fn wf(&self) -> bool {
        &&& self@.wf()
        &&& self.channel_wf()
    }

    /// The channel's ring holds what the channel's view says.
    pub closed spec fn channel_wf(&self) -> bool {
        self.channel.ring_wf()
    }

    /// Creates a group whose channel retains [`GROUP_CAPACITY`] messages.
    pub fn new(name: Arc<String>) -> (group: Group)
        ensures
            group.wf(),
            group@ == GroupView::fresh(name@, GROUP_CAPACITY as nat),
    {
        Group { name, channel: Channel::new(GROUP_CAPACITY) }
    }

    /// Creates a group whose channel retains `capacity` messages.
    pub fn with_capacity(name: Arc<String>, capacity: usize) -> (group: Group)
        requires
            capacity > 0,
        ensures
            group.wf(),
            group@ == GroupView::fresh(name@, capacity as nat),
    {
        Group { name, channel: Channel::new(capacity) }
    }

    /// The group's name.
    pub fn name(&self) -> (name: &Arc<String>)
        ensures
            name@ == self@.name,
    {
        &self.name
    }

    /// Whether the group goes by `name`.
    pub fn is_named(&self, name: &String) -> (same: bool)
        ensures
            same == (self@.name == name@),
    {
        *self.name == *name
    }

    /// The group's channel, for reading.
    pub fn channel(&self) -> (channel: &Channel)
        ensures
            channel@ == self@.channel,
            channel.notifier() == self.notifier(),
            self.wf() ==> channel.wf(),
    {
        &self.channel
    }

    /// The notifier that this group's channel wakes. It stays the same one
    /// for as long as the group lives.
    pub closed spec fn notifier(&self) -> Arc<Notify> {
        self.channel.notifier()
    }

    /// The notifier on which a delivery task that has nothing to deliver
    /// waits: its waiters are woken whenever a message is posted.
    pub fn news(&self) -> (news: &Arc<Notify>)
        ensures
            *news == self.notifier(),
    {
        self.channel.news()
    }

    /// How many messages have been posted to the group.
    pub fn posted(&self) -> (n: u64)
        requires
            self.wf(),
        ensures
            n == self@.channel.next_seq(),
    {
        self.channel.published()
    }

    /// How many subscribers are attached to the group.
    pub fn subscriber_count(&self) -> (n: usize)
        ensures
            n == self@.channel.subscribers,
    {
        self.channel.subscriber_count()
    }

    /// Attaches a subscriber and returns the state of its delivery task,
    /// which starts with the next message posted.
    pub fn join(&mut self) -> (subscription: Subscription)
        requires
            old(self).wf(),
            old(self)@.channel.subscribers < usize::MAX,
        ensures
            final(self).wf(),
            final(self)@ == old(self)@.join(),
            final(self).notifier() == old(self).notifier(),
            subscription@ == old(self)@.new_subscription(),
    {
        let subscriber = self.channel.subscribe();
        Subscription::start(share(&self.name), subscriber)
    }

    /// Detaches the subscriber whose delivery task `subscription` was.
    pub fn leave(&mut self, subscription: Subscription)
        requires
            old(self).wf(),
        ensures
            final(self).wf(),
            final(self)@ == old(self)@.leave(),
            final(self).notifier() == old(self).notifier(),
    {
        self.channel.unsubscribe(subscription.into_subscriber());
    }

    /// Publishes `message` to the group and wakes the delivery tasks that
    /// wait. That nobody is attached is no error.
    pub fn post(&mut self, message: Arc<String>)
        requires
            old(self).wf(),
            old(self)@.channel.next_seq() < u64::MAX,
        ensures
            final(self).wf(),
            final(self)@ == old(self)@.post(message@),
            final(self).notifier() == old(self).notifier(),
    {
        let _ignored = self.channel.publish(message);
    }
}

/// A task that joined just before a post forwards that post next, under the
/// group's name, and then has nothing more to deliver.
pub proof fn law_joined_task_forwards_the_post(group: GroupView, message: Seq<char>)
    requires
        group.wf(),
    ensures
        ({
            let task = group.new_subscription();
            let after = group.join().post(message);
            &&& task.next_action(after.channel) == ActionView::Forward(
                PacketView::Message { group_name: group.name, message },
            )
            &&& task.advance(after.channel).next_action(after.channel) == ActionView::Wait
        }),
{
}

/// Posting to a group that nobody has joined is an ordinary post: the message
/// takes its sequence number, and a subscriber that joins afterwards does not
/// read it.
pub proof fn law_post_without_subscribers(group: GroupView, message: Seq<char>)
    requires
        group.wf(),
        group.channel.subscribers == 0,
    ensures
        ({
            let after = group.post(message);
            &&& after.channel.next_seq() == group.channel.next_seq() + 1
            &&& after.channel.subscribers == 0
            &&& after.join().channel.reception(after.new_subscription().cursor)
                == Reception::Empty
        }),
{
}

} // verus!
