use chat_groups::channel::Received;
use chat_groups::delivery::{lag_notice_text, Action, Packet};
use chat_groups::group::{Group, GROUP_CAPACITY};
use std::sync::Arc;

fn text(s: &str) -> Arc<String> {
    Arc::new(s.to_string())
}

fn wrapped(group: &str, message: &str) -> Action {
    Action::Forward(Packet::Message { group_name: text(group), message: text(message) })
}

fn notice(s: &str) -> Action {
    Action::Forward(Packet::Error(s.to_string()))
}

#[test]
fn new_group_has_its_name_and_nobody_in_it() {
    let group = Group::new(text("general"));
    assert_eq!(**group.name(), "general");
    assert_eq!(group.posted(), 0);
    assert_eq!(group.subscriber_count(), 0);
    assert!(group.is_named(&"general".to_string()));
    assert!(!group.is_named(&"general ".to_string()));
}

#[test]
fn post_without_subscribers_is_no_error() {
    let mut group = Group::new(text("empty"));
    group.post(text("anyone?"));
    group.post(text("no?"));
    assert_eq!(group.posted(), 2);
    let mut late = group.join();
    assert_eq!(late.next_action(&group), Action::Wait);
}

#[test]
fn both_subscribers_get_the_message_under_the_group_name() {
    let mut group = Group::new(text("general"));
    let mut s1 = group.join();
    let mut s2 = group.join();
    assert_eq!(group.subscriber_count(), 2);
    group.post(text("hi"));
    assert_eq!(s1.next_action(&group), wrapped("general", "hi"));
    assert_eq!(s2.next_action(&group), wrapped("general", "hi"));
    assert_eq!(s1.next_action(&group), Action::Wait);
    assert_eq!(s2.next_action(&group), Action::Wait);
}

#[test]
fn lag_goes_out_as_a_notice_with_the_count() {
    let mut group = Group::with_capacity(text("busy"), 3);
    let mut subscription = group.join();
    for s in ["a", "b", "c", "d", "e"] {
        group.post(text(s));
    }
    assert_eq!(subscription.next_action(&group), notice("Dropped 2 messages from busy."));
    assert_eq!(subscription.next_action(&group), wrapped("busy", "c"));
    assert_eq!(subscription.next_action(&group), wrapped("busy", "d"));
    assert_eq!(subscription.next_action(&group), wrapped("busy", "e"));
    assert_eq!(subscription.next_action(&group), Action::Wait);
    assert!(subscription.is_active());
}

#[test]
fn default_capacity_is_one_thousand() {
    assert_eq!(GROUP_CAPACITY, 1000);
    let mut group = Group::new(text("big"));
    let mut subscription = group.join();
    for i in 0..1000 {
        group.post(text(&i.to_string()));
    }
    assert_eq!(subscription.next_action(&group), wrapped("big", "0"));
    for i in 1000..1003 {
        group.post(text(&i.to_string()));
    }
    assert_eq!(subscription.next_action(&group), notice("Dropped 2 messages from big."));
    assert_eq!(subscription.next_action(&group), wrapped("big", "3"));
}

#[test]
fn notice_text_is_exact() {
    assert_eq!(lag_notice_text(0, "g"), "Dropped 0 messages from g.");
    assert_eq!(lag_notice_text(1, "general"), "Dropped 1 messages from general.");
    assert_eq!(lag_notice_text(250, "a b"), "Dropped 250 messages from a b.");
    assert_eq!(
        lag_notice_text(u64::MAX, ""),
        "Dropped 18446744073709551615 messages from ."
    );
}

#[test]
fn failed_sink_ends_that_task_and_no_other() {
    let mut group = Group::new(text("general"));
    let mut failing = group.join();
    let mut healthy = group.join();
    group.post(text("one"));
    group.post(text("two"));
    assert_eq!(failing.next_action(&group), wrapped("general", "one"));
    failing.delivered(false);
    assert!(!failing.is_active());
    assert_eq!(failing.next_action(&group), Action::Stop);
    assert_eq!(failing.next_action(&group), Action::Stop);
    assert_eq!(healthy.next_action(&group), wrapped("general", "one"));
    healthy.delivered(true);
    assert!(healthy.is_active());
    assert_eq!(healthy.next_action(&group), wrapped("general", "two"));
    healthy.delivered(true);
    assert_eq!(healthy.next_action(&group), Action::Wait);
    assert_eq!(group.posted(), 2);
    assert_eq!(group.subscriber_count(), 2);
    group.leave(failing);
    assert_eq!(group.subscriber_count(), 1);
    group.post(text("three"));
    assert_eq!(healthy.next_action(&group), wrapped("general", "three"));
}

#[test]
fn reaction_to_each_reading() {
    let mut group = Group::new(text("g"));
    let mut task = group.join();
    assert_eq!(task.react(Received::Message(text("m"))), wrapped("g", "m"));
    assert_eq!(task.react(Received::Lagged(12)), notice("Dropped 12 messages from g."));
    assert_eq!(task.react(Received::Empty), Action::Wait);
    assert!(task.is_active());
    assert_eq!(task.react(Received::Closed), Action::Stop);
    assert!(!task.is_active());
    assert_eq!(task.react(Received::Message(text("late"))), Action::Stop);
    assert_eq!(task.react(Received::Empty), Action::Stop);
}

#[test]
fn stopped_task_reads_nothing() {
    let mut group = Group::new(text("g"));
    let mut task = group.join();
    group.post(text("a"));
    task.delivered(false);
    assert_eq!(task.next_action(&group), Action::Stop);
    let mut other = group.join();
    group.post(text("b"));
    assert_eq!(other.next_action(&group), wrapped("g", "b"));
}

#[test]
fn task_carries_the_name_of_its_group() {
    let mut group = Group::new(text("rustaceans"));
    let task = group.join();
    assert_eq!(**task.group_name(), "rustaceans");
    assert!(Arc::ptr_eq(task.group_name(), group.name()));
}

#[test]
fn forwarded_message_is_the_posted_allocation() {
    let mut group = Group::new(text("g"));
    let mut task = group.join();
    let posted = text("payload");
    group.post(posted.clone());
    match task.next_action(&group) {
        Action::Forward(Packet::Message { group_name, message }) => {
            assert!(Arc::ptr_eq(&message, &posted));
            assert!(Arc::ptr_eq(&group_name, group.name()));
        }
        other => panic!("unexpected {:?}", other),
    }
}

#[test]
fn leaving_lowers_the_count() {
    let mut group = Group::new(text("g"));
    let a = group.join();
    let b = group.join();
    assert_eq!(group.subscriber_count(), 2);
    group.leave(a);
    assert_eq!(group.subscriber_count(), 1);
    group.leave(b);
    assert_eq!(group.subscriber_count(), 0);
}
