use task_store::messages::{render_not_found_get, render_not_owner, render_outcome};
use task_store::text::u64_to_string;

#[test]
fn decimal_rendering_matches_expected_values() {
    assert_eq!(u64_to_string(0), "0");
    assert_eq!(u64_to_string(7), "7");
    assert_eq!(u64_to_string(10), "10");
    assert_eq!(u64_to_string(1234567890), "1234567890");
    assert_eq!(u64_to_string(u64::MAX), "18446744073709551615");
}

#[test]
fn not_found_message_names_the_id() {
    assert_eq!(render_not_found_get(999), "a task with id=999 not found");
}

#[test]
fn ownership_message_names_caller_and_id() {
    let bob = "bob".to_string();
    assert_eq!(
        render_not_owner(&bob, 12),
        "Caller=bob isn't the owner of the task with id=12"
    );
}

#[test]
fn outcome_message_distinguishes_on_time_from_late() {
    assert_eq!(
        render_outcome(true, 1100, 4600),
        "Successfully completed task on time=1100 before due time=4600"
    );
    assert_eq!(
        render_outcome(false, 2000, 1500),
        "Failed to complete task on time=2000 before due time=1500"
    );
}
