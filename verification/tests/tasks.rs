use task_store::command::TaskError;
use task_store::record::{complete_record, new_record};
use task_store::tasks::{add_task, complete_task, find_position, list_tasks, remove_task};

fn words(list: &[&str]) -> Vec<String> {
    list.iter().map(|w| w.to_string()).collect()
}

#[test]
fn add_joins_the_words_with_single_spaces() {
    assert_eq!(add_task(&words(&["buy", "milk"])), Ok("[pending] buy milk".to_string()));
    assert_eq!(add_task(&words(&["one"])), Ok("[pending] one".to_string()));
    assert_eq!(add_task(&words(&["a", "", "b"])), Ok("[pending] a  b".to_string()));
    assert_eq!(add_task(&words(&[""])), Ok("[pending] ".to_string()));
    assert_eq!(add_task(&words(&["  padded  ", "x"])), Ok("[pending]   padded   x".to_string()));
}

#[test]
fn add_without_words_is_a_usage_error() {
    assert_eq!(add_task(&words(&[])), Err(TaskError::NoDescription));
}

#[test]
fn an_empty_list_is_listed_as_such() {
    assert_eq!(list_tasks(&words(&[])), "\nCurrent tasks:\nNo tasks found.\n");
}

#[test]
fn a_list_is_numbered_from_one() {
    let tasks = words(&["[pending] a", "[complete] b", "no tag at all", ""]);
    assert_eq!(
        list_tasks(&tasks),
        "\nCurrent tasks:\n1. [pending] a\n2. [complete] b\n3. no tag at all\n4. \n"
    );
}

#[test]
fn a_long_list_counts_past_nine() {
    let tasks: Vec<String> = (0..12).map(|_| "t".to_string()).collect();
    let text = list_tasks(&tasks);
    assert!(text.contains("\n9. t\n10. t\n11. t\n12. t\n"));
}

#[test]
fn new_records_are_pending() {
    assert_eq!(new_record("x y"), "[pending] x y");
    assert_eq!(new_record(""), "[pending] ");
    assert_eq!(new_record("[pending] x"), "[pending] [pending] x");
}

#[test]
fn completing_takes_one_pending_tag_off_the_front() {
    assert_eq!(complete_record("[pending] x"), "[complete] x");
    assert_eq!(complete_record("[pending] "), "[complete] ");
    assert_eq!(complete_record("[pending] [pending] x"), "[complete] [pending] x");
    assert_eq!(complete_record("[complete] x"), "[complete] [complete] x");
    assert_eq!(complete_record("x [pending] y"), "[complete] x [pending] y");
    assert_eq!(complete_record("[pending]x"), "[complete] [pending]x");
    assert_eq!(complete_record("[pending]"), "[complete] [pending]");
    assert_eq!(complete_record(""), "[complete] ");
    assert_eq!(complete_record("[pending] caf\u{e9} \u{1f600}"), "[complete] caf\u{e9} \u{1f600}");
}

#[test]
fn complete_replaces_the_record_in_its_place() {
    let mut tasks = words(&["[pending] a", "[pending] b", "[pending] c"]);
    assert_eq!(complete_task(&words(&["2"]), &mut tasks), Ok(()));
    assert_eq!(tasks, words(&["[pending] a", "[complete] b", "[pending] c"]));
    assert_eq!(complete_task(&words(&["3"]), &mut tasks), Ok(()));
    assert_eq!(complete_task(&words(&["1"]), &mut tasks), Ok(()));
    assert_eq!(tasks, words(&["[complete] a", "[complete] b", "[complete] c"]));
}

#[test]
fn complete_turns_down_bad_positions_and_changes_nothing() {
    let before = words(&["[pending] a", "[pending] b"]);
    let mut tasks = before.clone();
    assert_eq!(complete_task(&words(&[]), &mut tasks), Err(TaskError::NoIndexToComplete));
    assert_eq!(complete_task(&words(&["x"]), &mut tasks), Err(TaskError::InvalidIndex));
    assert_eq!(complete_task(&words(&["0"]), &mut tasks), Err(TaskError::OutOfRange));
    assert_eq!(complete_task(&words(&["3"]), &mut tasks), Err(TaskError::OutOfRange));
    assert_eq!(tasks, before);
}

#[test]
fn remove_returns_the_record_and_closes_the_gap() {
    let mut tasks = words(&["a", "b", "c", "d"]);
    assert_eq!(remove_task(&words(&["2"]), &mut tasks), Ok("b".to_string()));
    assert_eq!(tasks, words(&["a", "c", "d"]));
    assert_eq!(remove_task(&words(&["3"]), &mut tasks), Ok("d".to_string()));
    assert_eq!(remove_task(&words(&["1"]), &mut tasks), Ok("a".to_string()));
    assert_eq!(tasks, words(&["c"]));
    assert_eq!(remove_task(&words(&["1"]), &mut tasks), Ok("c".to_string()));
    assert!(tasks.is_empty());
}

#[test]
fn a_number_too_large_for_a_machine_word_is_out_of_range() {
    let before = words(&["[pending] a"]);
    let mut tasks = before.clone();
    let huge = words(&["18446744073709551616"]);
    assert_eq!(remove_task(&huge, &mut tasks), Err(TaskError::OutOfRange));
    assert_eq!(complete_task(&huge, &mut tasks), Err(TaskError::OutOfRange));
    assert_eq!(tasks, before);
}

#[test]
fn remove_turns_down_bad_positions_and_changes_nothing() {
    let before = words(&["a", "b"]);
    let mut tasks = before.clone();
    assert_eq!(remove_task(&words(&[]), &mut tasks), Err(TaskError::NoIndexToRemove));
    assert_eq!(remove_task(&words(&["two"]), &mut tasks), Err(TaskError::InvalidIndex));
    assert_eq!(remove_task(&words(&["0"]), &mut tasks), Err(TaskError::OutOfRange));
    assert_eq!(remove_task(&words(&["3"]), &mut tasks), Err(TaskError::OutOfRange));
    assert_eq!(tasks, before);
}

#[test]
fn positions_count_from_one() {
    assert_eq!(find_position("1", 3), Ok(1));
    assert_eq!(find_position("3", 3), Ok(3));
    assert_eq!(find_position("+3", 3), Ok(3));
    assert_eq!(find_position("0", 3), Err(TaskError::OutOfRange));
    assert_eq!(find_position("4", 3), Err(TaskError::OutOfRange));
    assert_eq!(find_position("1", 0), Err(TaskError::OutOfRange));
    assert_eq!(find_position("18446744073709551615", 3), Err(TaskError::OutOfRange));
    assert_eq!(find_position("18446744073709551616", 3), Err(TaskError::OutOfRange));
    assert_eq!(find_position("+99999999999999999999999999", 3), Err(TaskError::OutOfRange));
    assert_eq!(find_position("99999999999999999999999999x", 3), Err(TaskError::InvalidIndex));
    assert_eq!(find_position("-99999999999999999999999999", 3), Err(TaskError::InvalidIndex));
    assert_eq!(find_position("", 3), Err(TaskError::InvalidIndex));
    assert_eq!(find_position("3rd", 3), Err(TaskError::InvalidIndex));
}
