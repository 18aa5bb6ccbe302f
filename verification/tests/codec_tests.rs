use task_store::codec::{decode_task, encode_task, parts_fit, MAX_RECORD_BYTES, RECORD_OVERHEAD_BYTES};
use task_store::task::Task;

fn sample_task() -> Task {
    Task {
        id: 42,
        owner: "alice".to_string(),
        title: "Buy milk".to_string(),
        description: "2% milk, 1 gallon".to_string(),
        due_date: 4600,
        completed: false,
        created_at: 1000,
        updated_at: None,
    }
}

#[test]
fn encode_then_decode_round_trips_all_fields() {
    let task = sample_task();
    let bytes = encode_task(&task);
    let back = decode_task(&bytes).expect("an encoded record must decode");
    assert_eq!(back.id, task.id);
    assert_eq!(back.owner, task.owner);
    assert_eq!(back.title, task.title);
    assert_eq!(back.description, task.description);
    assert_eq!(back.due_date, task.due_date);
    assert_eq!(back.completed, task.completed);
    assert_eq!(back.created_at, task.created_at);
    assert_eq!(back.updated_at, task.updated_at);
}

#[test]
fn round_trip_keeps_completed_flag_and_update_time() {
    let mut task = sample_task();
    task.completed = true;
    task.updated_at = Some(7777);
    let bytes = encode_task(&task);
    let back = decode_task(&bytes).unwrap();
    assert!(back.completed);
    assert_eq!(back.updated_at, Some(7777));
}

#[test]
fn round_trip_keeps_non_ascii_text() {
    let mut task = sample_task();
    task.title = "Überfällig".to_string();
    task.description = "héllo wörld — ideographs: 買い物".to_string();
    let bytes = encode_task(&task);
    let back = decode_task(&bytes).unwrap();
    assert_eq!(back.title, "Überfällig");
    assert_eq!(back.description, "héllo wörld — ideographs: 買い物");
}

#[test]
fn encoded_length_is_overhead_plus_string_bytes() {
    let task = sample_task();
    let bytes = encode_task(&task);
    assert_eq!(
        bytes.len(),
        RECORD_OVERHEAD_BYTES + "alice".len() + "Buy milk".len() + "2% milk, 1 gallon".len()
    );
}

#[test]
fn decode_rejects_malformed_bytes() {
    assert!(decode_task(&Vec::new()).is_none());
    assert!(decode_task(&vec![1, 2, 3]).is_none());
    let task = sample_task();
    let mut truncated = encode_task(&task);
    truncated.pop();
    assert!(decode_task(&truncated).is_none());
    let mut trailing = encode_task(&task);
    trailing.push(0);
    assert!(decode_task(&trailing).is_none());
}

#[test]
fn parts_fit_matches_the_byte_bound() {
    let owner = "alice".to_string();
    let title = "abc".to_string();
    let small = "abcde".to_string();
    assert!(parts_fit(&owner, &title, &small));
    // exactly at the bound
    let exact = "x".repeat(MAX_RECORD_BYTES - RECORD_OVERHEAD_BYTES - "alice".len() - "abc".len());
    assert!(parts_fit(&owner, &title, &exact));
    // one byte over
    let over = "x".repeat(MAX_RECORD_BYTES - RECORD_OVERHEAD_BYTES - "alice".len() - "abc".len() + 1);
    assert!(!parts_fit(&owner, &title, &over));
}
