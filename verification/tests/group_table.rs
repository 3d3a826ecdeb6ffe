use chat_groups::delivery::{Action, Packet};
use chat_groups::group_table::GroupTable;
use std::sync::Arc;

fn text(s: &str) -> Arc<String> {
    Arc::new(s.to_string())
}

#[test]
fn empty_table_has_no_groups() {
    let mut table = GroupTable::new();
    assert_eq!(table.len(), 0);
    assert!(table.get(&"general".to_string()).is_none());
    assert!(table.get_mut(&"general".to_string()).is_none());
    assert_eq!(table.len(), 0);
}

#[test]
fn lookup_does_not_create() {
    let table = GroupTable::new();
    assert!(table.get(&"a".to_string()).is_none());
    assert!(table.get(&"a".to_string()).is_none());
    assert_eq!(table.len(), 0);
}

#[test]
fn asking_again_gives_the_same_group() {
    let mut table = GroupTable::new();
    let first = table.get_or_create(text("general"));
    let _subscription = first.join();
    first.post(text("hello"));
    for _ in 0..5 {
        let again = table.get_or_create(text("general"));
        assert_eq!(again.subscriber_count(), 1);
        assert_eq!(again.posted(), 1);
        assert_eq!(**again.name(), "general");
    }
    assert_eq!(table.len(), 1);
}

#[test]
fn the_first_name_handle_is_kept() {
    let mut table = GroupTable::new();
    let first_name = text("general");
    let second_name = text("general");
    table.get_or_create(first_name.clone());
    let group = table.get_or_create(second_name.clone());
    assert!(Arc::ptr_eq(group.name(), &first_name));
    assert!(!Arc::ptr_eq(group.name(), &second_name));
    assert_eq!(table.len(), 1);
}

#[test]
fn distinct_names_get_distinct_groups() {
    let mut table = GroupTable::new();
    table.get_or_create(text("a")).post(text("to a"));
    table.get_or_create(text("b"));
    table.get_or_create(text("A"));
    assert_eq!(table.len(), 3);
    assert_eq!(table.get(&"a".to_string()).map(|g| g.posted()), Some(1));
    assert_eq!(table.get(&"b".to_string()).map(|g| g.posted()), Some(0));
    assert_eq!(table.get(&"A".to_string()).map(|g| g.posted()), Some(0));
    assert!(table.get(&"c".to_string()).is_none());
}

#[test]
fn lookup_finds_what_was_created() {
    let mut table = GroupTable::new();
    table.get_or_create(text("x"));
    table.get_or_create(text("y"));
    let found = table.get(&"y".to_string());
    assert_eq!(found.map(|g| g.name().as_str().to_string()), Some("y".to_string()));
    let found = table.get(&"x".to_string());
    assert_eq!(found.map(|g| g.name().as_str().to_string()), Some("x".to_string()));
}

#[test]
fn posting_through_the_table_reaches_the_subscriber() {
    let mut table = GroupTable::new();
    let mut task = table.get_or_create(text("general")).join();
    match table.get_mut(&"general".to_string()) {
        Some(group) => group.post(text("hi")),
        None => panic!("group is missing"),
    }
    let group = table.get(&"general".to_string()).unwrap();
    assert_eq!(
        task.next_action(group),
        Action::Forward(Packet::Message { group_name: text("general"), message: text("hi") })
    );
    assert_eq!(task.next_action(group), Action::Wait);
}

#[test]
fn groups_do_not_share_messages() {
    let mut table = GroupTable::new();
    let mut in_a = table.get_or_create(text("a")).join();
    let mut in_b = table.get_or_create(text("b")).join();
    table.get_or_create(text("a")).post(text("only a"));
    assert_eq!(in_b.next_action(table.get(&"b".to_string()).unwrap()), Action::Wait);
    assert_eq!(
        in_a.next_action(table.get(&"a".to_string()).unwrap()),
        Action::Forward(Packet::Message { group_name: text("a"), message: text("only a") })
    );
}
