use todos::StoreError;
use todos::Todo;
use todos::connect;

#[test]
fn round_trip_add_then_list() {
    let mut store = connect();
    let added = Todo::add(&mut store, "buy milk");
    let tasks = Todo::list(&store);
    assert_eq!(tasks.len(), 1);
    assert_eq!(tasks[0].id, added.id);
    assert_eq!(tasks[0].description, "buy milk");
    assert_eq!(tasks[0].status, false);
}

#[test]
fn schema_creation_is_idempotent() {
    let mut store = connect();
    Todo::add(&mut store, "keep me");
    Todo::create_table(&mut store);
    Todo::create_table(&mut store);
    let tasks = Todo::list(&store);
    assert_eq!(tasks.len(), 1);
    assert_eq!(tasks[0].description, "keep me");
}

#[test]
fn status_toggle_restores_open_state() {
    let mut store = connect();
    let added = Todo::add(&mut store, "write report");
    let done = Todo::update(&mut store, added.id, true).unwrap();
    assert_eq!(done.id, added.id);
    assert_eq!(done.status, true);
    assert_eq!(done.description, "write report");
    let reopened = Todo::update(&mut store, added.id, false).unwrap();
    assert_eq!(reopened.id, added.id);
    assert_eq!(reopened.status, false);
    assert_eq!(reopened.description, "write report");
}

#[test]
fn deletion_removes_task_and_repeats_silently() {
    let mut store = connect();
    let first = Todo::add(&mut store, "first");
    let second = Todo::add(&mut store, "second");
    Todo::delete(&mut store, first.id);
    let tasks = Todo::list(&store);
    assert_eq!(tasks.len(), 1);
    assert!(tasks.iter().all(|t| t.id != first.id));
    assert_eq!(tasks[0].id, second.id);
    Todo::delete(&mut store, first.id);
    let tasks_again = Todo::list(&store);
    assert_eq!(tasks_again.len(), 1);
    assert_eq!(tasks_again[0].id, second.id);
}

#[test]
fn successive_adds_assign_distinct_ids() {
    let mut store = connect();
    let a = Todo::add(&mut store, "one");
    let b = Todo::add(&mut store, "two");
    assert_ne!(a.id, b.id);
}

#[test]
fn empty_table_lists_nothing() {
    let store = connect();
    let tasks = Todo::list(&store);
    assert!(tasks.is_empty());
}

#[test]
fn added_task_has_positive_id_and_open_status() {
    let mut store = connect();
    let added = Todo::add(&mut store, "test");
    assert!(added.id > 0);
    assert_eq!(added.status, false);
    assert_eq!(added.description, "test");
}

#[test]
fn updating_missing_id_reports_not_found() {
    let mut store = connect();
    let result = Todo::update(&mut store, 999, true);
    match result {
        Err(e) => assert_eq!(e, StoreError::NotFound),
        Ok(_) => panic!("updating a missing id must report not-found"),
    }
    assert!(Todo::list(&store).is_empty());
}

#[test]
fn update_changes_only_the_addressed_task() {
    let mut store = connect();
    let a = Todo::add(&mut store, "left");
    let b = Todo::add(&mut store, "right");
    Todo::update(&mut store, b.id, true).unwrap();
    let tasks = Todo::list(&store);
    assert_eq!(tasks.len(), 2);
    let left = tasks.iter().find(|t| t.id == a.id).unwrap();
    let right = tasks.iter().find(|t| t.id == b.id).unwrap();
    assert_eq!(left.status, false);
    assert_eq!(right.status, true);
}

#[test]
fn new_populates_every_field() {
    let t = Todo::new(7, String::from("call home"), true);
    assert_eq!(t.id, 7);
    assert_eq!(t.description, "call home");
    assert_eq!(t.status, true);
}

#[test]
fn ids_are_not_reused_after_deletion() {
    let mut store = connect();
    let a = Todo::add(&mut store, "gone soon");
    Todo::delete(&mut store, a.id);
    let b = Todo::add(&mut store, "fresh");
    assert_ne!(a.id, b.id);
}
