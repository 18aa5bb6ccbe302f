use task_store::store::TaskStore;
use task_store::task::{Error, Task, TaskPayload};

fn payload(title: &str, description: &str, due_date: u64) -> TaskPayload {
    TaskPayload { title: title.to_string(), description: description.to_string(), due_date }
}

fn assert_same_fields(a: &Task, b: &Task) {
    assert_eq!(a.id, b.id);
    assert_eq!(a.owner, b.owner);
    assert_eq!(a.title, b.title);
    assert_eq!(a.description, b.description);
    assert_eq!(a.due_date, b.due_date);
    assert_eq!(a.completed, b.completed);
    assert_eq!(a.created_at, b.created_at);
    assert_eq!(a.updated_at, b.updated_at);
}

#[test]
fn read_on_empty_store_is_not_found() {
    let store = TaskStore::new();
    match store.get_task(999) {
        Err(Error::NotFound { msg }) => {
            assert_eq!(msg, "a task with id=999 not found");
        }
        _ => panic!("expected NotFound"),
    }
}

#[test]
fn create_assigns_id_zero_and_defaults() {
    let mut store = TaskStore::new();
    let alice = "alice".to_string();
    let task = store
        .add_task(&alice, 1000, payload("Buy milk", "2% milk, 1 gallon", 4600))
        .expect("valid payload must be accepted");
    assert_eq!(task.id, 0);
    assert_eq!(task.owner, "alice");
    assert_eq!(task.title, "Buy milk");
    assert_eq!(task.description, "2% milk, 1 gallon");
    assert_eq!(task.due_date, 4600);
    assert!(!task.completed);
    assert_eq!(task.created_at, 1000);
    assert_eq!(task.updated_at, None);
}

#[test]
fn created_task_can_be_read_back() {
    let mut store = TaskStore::new();
    let alice = "alice".to_string();
    let created = store
        .add_task(&alice, 1000, payload("Buy milk", "2% milk, 1 gallon", 4600))
        .unwrap();
    let read = store.get_task(0).expect("created task must be readable");
    assert_same_fields(&created, &read);
}

#[test]
fn create_ids_are_distinct_and_strictly_increasing() {
    let mut store = TaskStore::new();
    let alice = "alice".to_string();
    let mut ids = Vec::new();
    for i in 0..5u64 {
        let t = store
            .add_task(&alice, 1000 + i, payload("Errand", "Run the errand", 9000))
            .unwrap();
        ids.push(t.id);
    }
    for w in ids.windows(2) {
        assert!(w[0] < w[1]);
    }
    assert_eq!(ids, vec![0, 1, 2, 3, 4]);
}

#[test]
fn deleted_ids_are_never_reused() {
    let mut store = TaskStore::new();
    let alice = "alice".to_string();
    let t0 = store.add_task(&alice, 10, payload("One", "First task", 99)).unwrap();
    store.delete_task(&alice, t0.id).unwrap();
    let t1 = store.add_task(&alice, 11, payload("Two", "Second task", 99)).unwrap();
    assert_eq!(t0.id, 0);
    assert_eq!(t1.id, 1);
}

#[test]
fn title_shorter_than_three_chars_is_rejected() {
    let mut store = TaskStore::new();
    let alice = "alice".to_string();
    match store.add_task(&alice, 100, payload("ab", "long enough", 200)) {
        Err(Error::ValidationFailed { content }) => {
            assert_eq!(content, "title must be at least 3 characters long");
        }
        _ => panic!("expected ValidationFailed"),
    }
}

#[test]
fn description_shorter_than_five_chars_is_rejected() {
    let mut store = TaskStore::new();
    let alice = "alice".to_string();
    match store.add_task(&alice, 100, payload("abc", "abcd", 200)) {
        Err(Error::ValidationFailed { content }) => {
            assert_eq!(content, "description must be at least 5 characters long");
        }
        _ => panic!("expected ValidationFailed"),
    }
}

#[test]
fn both_length_violations_are_reported_together() {
    let mut store = TaskStore::new();
    let alice = "alice".to_string();
    match store.add_task(&alice, 100, payload("ab", "abcd", 200)) {
        Err(Error::ValidationFailed { content }) => {
            assert_eq!(
                content,
                "title must be at least 3 characters long; description must be at least 5 characters long"
            );
        }
        _ => panic!("expected ValidationFailed"),
    }
}

#[test]
fn due_date_in_the_past_is_rejected_with_both_timestamps() {
    let mut store = TaskStore::new();
    let alice = "alice".to_string();
    match store.add_task(&alice, 100, payload("abc", "abcde", 99)) {
        Err(Error::ValidationFailed { content }) => {
            assert_eq!(
                content,
                "Due date=99 is currently set to be less than the current timestamp=100."
            );
        }
        _ => panic!("expected ValidationFailed"),
    }
}

#[test]
fn boundary_lengths_and_equal_due_date_succeed() {
    let mut store = TaskStore::new();
    let alice = "alice".to_string();
    // title of exactly 3 chars, description of exactly 5, due date == now
    let task = store.add_task(&alice, 100, payload("abc", "abcde", 100)).unwrap();
    assert_eq!(task.title, "abc");
    assert_eq!(task.description, "abcde");
    assert_eq!(task.due_date, 100);
}

#[test]
fn update_by_non_owner_fails_and_leaves_record_unchanged() {
    let mut store = TaskStore::new();
    let alice = "alice".to_string();
    let bob = "bob".to_string();
    store.add_task(&alice, 100, payload("abc", "abcde", 500)).unwrap();
    let before = store.get_task(0).unwrap();
    match store.update_task(&bob, 0, 150, payload("xyz", "vwxyz", 600)) {
        Err(Error::AuthenticationFailed { msg }) => {
            assert_eq!(msg, "Caller=bob isn't the owner of the task with id=0");
        }
        _ => panic!("expected AuthenticationFailed"),
    }
    let after = store.get_task(0).unwrap();
    assert_same_fields(&before, &after);
}

#[test]
fn complete_and_delete_by_non_owner_fail() {
    let mut store = TaskStore::new();
    let alice = "alice".to_string();
    let bob = "bob".to_string();
    store.add_task(&alice, 100, payload("abc", "abcde", 500)).unwrap();
    let before = store.get_task(0).unwrap();
    assert!(matches!(
        store.complete_task(&bob, 0, 120),
        Err(Error::AuthenticationFailed { .. })
    ));
    assert!(matches!(store.delete_task(&bob, 0), Err(Error::AuthenticationFailed { .. })));
    let after = store.get_task(0).unwrap();
    assert_same_fields(&before, &after);
}

#[test]
fn update_by_owner_replaces_fields_and_sets_updated_at() {
    let mut store = TaskStore::new();
    let alice = "alice".to_string();
    store.add_task(&alice, 100, payload("abc", "abcde", 500)).unwrap();
    let updated = store.update_task(&alice, 0, 150, payload("new title", "new description", 600)).unwrap();
    assert_eq!(updated.id, 0);
    assert_eq!(updated.owner, "alice");
    assert_eq!(updated.title, "new title");
    assert_eq!(updated.description, "new description");
    assert_eq!(updated.due_date, 600);
    assert!(!updated.completed);
    assert_eq!(updated.created_at, 100);
    assert_eq!(updated.updated_at, Some(150));
    let read = store.get_task(0).unwrap();
    assert_same_fields(&updated, &read);
}

#[test]
fn update_of_missing_task_is_not_found() {
    let mut store = TaskStore::new();
    let alice = "alice".to_string();
    match store.update_task(&alice, 7, 100, payload("abc", "abcde", 500)) {
        Err(Error::NotFound { msg }) => {
            assert_eq!(msg, "couldn't update a task with id=7. task not found");
        }
        _ => panic!("expected NotFound"),
    }
}

#[test]
fn complete_on_time_reports_success_and_is_terminal() {
    let mut store = TaskStore::new();
    let alice = "alice".to_string();
    let task = store
        .add_task(&alice, 1000, payload("Buy milk", "2% milk, 1 gallon", 4600))
        .unwrap();
    assert_eq!(task.id, 0);
    assert!(!task.completed);
    let outcome = store.complete_task(&alice, 0, 1100).unwrap();
    assert_eq!(outcome, "Successfully completed task on time=1100 before due time=4600");
    let done = store.get_task(0).unwrap();
    assert!(done.completed);
    assert_eq!(done.updated_at, Some(1100));
    match store.complete_task(&alice, 0, 1200) {
        Err(Error::AlreadyCompleted { msg }) => {
            assert_eq!(msg, "Task is already completed");
        }
        _ => panic!("expected AlreadyCompleted"),
    }
}

#[test]
fn complete_after_due_date_reports_late_outcome() {
    let mut store = TaskStore::new();
    let alice = "alice".to_string();
    store.add_task(&alice, 1000, payload("Buy milk", "2% milk, 1 gallon", 1500)).unwrap();
    let outcome = store.complete_task(&alice, 0, 2000).unwrap();
    assert_eq!(outcome, "Failed to complete task on time=2000 before due time=1500");
}

#[test]
fn completed_task_rejects_updates_and_stays_unchanged() {
    let mut store = TaskStore::new();
    let alice = "alice".to_string();
    store.add_task(&alice, 100, payload("abc", "abcde", 500)).unwrap();
    store.complete_task(&alice, 0, 200).unwrap();
    let before = store.get_task(0).unwrap();
    match store.update_task(&alice, 0, 300, payload("xyz", "vwxyz", 900)) {
        Err(Error::AlreadyCompleted { msg }) => {
            assert_eq!(msg, "Cannot update a completed task");
        }
        _ => panic!("expected AlreadyCompleted"),
    }
    let after = store.get_task(0).unwrap();
    assert_same_fields(&before, &after);
}

#[test]
fn delete_returns_the_task_and_removes_it() {
    let mut store = TaskStore::new();
    let alice = "alice".to_string();
    let created = store.add_task(&alice, 100, payload("abc", "abcde", 500)).unwrap();
    let removed = store.delete_task(&alice, 0).unwrap();
    assert_same_fields(&created, &removed);
    match store.get_task(0) {
        Err(Error::NotFound { .. }) => {}
        _ => panic!("task must be gone after deletion"),
    }
}

#[test]
fn delete_of_missing_task_is_not_found() {
    let mut store = TaskStore::new();
    let alice = "alice".to_string();
    match store.delete_task(&alice, 3) {
        Err(Error::NotFound { msg }) => {
            assert_eq!(msg, "couldn't delete a task with id=3. task not found.");
        }
        _ => panic!("expected NotFound"),
    }
}

#[test]
fn delete_of_completed_task_is_permitted() {
    let mut store = TaskStore::new();
    let alice = "alice".to_string();
    store.add_task(&alice, 100, payload("abc", "abcde", 500)).unwrap();
    store.complete_task(&alice, 0, 200).unwrap();
    let removed = store.delete_task(&alice, 0).unwrap();
    assert!(removed.completed);
}

#[test]
fn empty_title_and_description_are_rejected() {
    let mut store = TaskStore::new();
    let alice = "alice".to_string();
    assert!(matches!(
        store.add_task(&alice, 100, payload("", "", 200)),
        Err(Error::ValidationFailed { .. })
    ));
}

#[test]
fn complete_of_missing_task_is_not_found() {
    let mut store = TaskStore::new();
    let alice = "alice".to_string();
    match store.complete_task(&alice, 5, 100) {
        Err(Error::NotFound { msg }) => {
            assert_eq!(msg, "couldn't update a task with id=5. task not found");
        }
        _ => panic!("expected NotFound"),
    }
}

#[test]
fn update_with_past_due_date_reports_due_date_violation() {
    let mut store = TaskStore::new();
    let alice = "alice".to_string();
    store.add_task(&alice, 100, payload("abc", "abcde", 500)).unwrap();
    match store.update_task(&alice, 0, 300, payload("abc", "abcde", 299)) {
        Err(Error::ValidationFailed { content }) => {
            assert_eq!(
                content,
                "Due date=299 is currently set to be less than the current timestamp=300."
            );
        }
        _ => panic!("expected ValidationFailed"),
    }
}

#[test]
fn next_identifier_tracks_creations() {
    let mut store = TaskStore::new();
    let alice = "alice".to_string();
    assert_eq!(store.next_id_value(), 0);
    store.add_task(&alice, 100, payload("abc", "abcde", 500)).unwrap();
    assert_eq!(store.next_id_value(), 1);
    // a rejected creation does not consume an identifier
    let _ = store.add_task(&alice, 100, payload("ab", "abcde", 500));
    assert_eq!(store.next_id_value(), 1);
}

#[test]
fn stores_are_independent() {
    let mut a = TaskStore::new();
    let mut b = TaskStore::new();
    let alice = "alice".to_string();
    a.add_task(&alice, 100, payload("abc", "abcde", 500)).unwrap();
    assert!(matches!(b.get_task(0), Err(Error::NotFound { .. })));
    let t = b.add_task(&alice, 100, payload("abc", "abcde", 500)).unwrap();
    assert_eq!(t.id, 0);
}
