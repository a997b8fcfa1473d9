use task_store::command::TaskError;
use task_store::session::{run, Change, Outcome};

fn words(list: &[&str]) -> Vec<String> {
    list.iter().map(|w| w.to_string()).collect()
}

fn store(content: &mut Vec<u8>, change: &Change) {
    match change {
        Change::Keep => {},
        Change::Append(text) => content.extend_from_slice(text.as_bytes()),
        Change::Rewrite(text) => *content = text.as_bytes().to_vec(),
    }
}

fn step(content: &mut Vec<u8>, args: &[&str]) -> Result<Outcome, TaskError> {
    let outcome = run(&words(args), content);
    if let Ok(done) = &outcome {
        store(content, &done.change);
    }
    outcome
}

#[test]
fn add_list_complete_remove_on_an_empty_store() {
    let mut content: Vec<u8> = Vec::new();

    let added = step(&mut content, &["add", "buy", "milk"]).unwrap();
    assert_eq!(added.output, "Task added!\n\nCurrent tasks:\n1. [pending] buy milk\n");
    assert_eq!(added.change, Change::Append("[pending] buy milk\n".to_string()));
    assert_eq!(content, b"[pending] buy milk\n".to_vec());

    let listed = step(&mut content, &["list"]).unwrap();
    assert_eq!(listed.output, "\nCurrent tasks:\n1. [pending] buy milk\n");
    assert_eq!(listed.change, Change::Keep);

    let completed = step(&mut content, &["complete", "1"]).unwrap();
    assert_eq!(
        completed.output,
        "Task marked as complete!\n\nCurrent tasks:\n1. [complete] buy milk\n"
    );
    assert_eq!(completed.change, Change::Rewrite("[complete] buy milk\n".to_string()));

    let listed = step(&mut content, &["list"]).unwrap();
    assert_eq!(listed.output, "\nCurrent tasks:\n1. [complete] buy milk\n");

    let removed = step(&mut content, &["remove", "1"]).unwrap();
    assert_eq!(
        removed.output,
        "Removed task: [complete] buy milk\n\nCurrent tasks:\nNo tasks found.\n"
    );
    assert_eq!(removed.change, Change::Rewrite(String::new()));
    assert!(content.is_empty());

    let listed = step(&mut content, &["list"]).unwrap();
    assert_eq!(listed.output, "\nCurrent tasks:\nNo tasks found.\n");
}

#[test]
fn add_shows_the_new_record_last_under_the_next_number() {
    let mut content = b"[pending] one\n[complete] two\n".to_vec();
    let added = step(&mut content, &["add", "third", "thing", "to", "do"]).unwrap();
    assert_eq!(
        added.output,
        "Task added!\n\nCurrent tasks:\n1. [pending] one\n2. [complete] two\n3. [pending] third thing to do\n"
    );
    let listed = step(&mut content, &["list"]).unwrap();
    assert!(listed.output.ends_with("\n3. [pending] third thing to do\n"));
}

#[test]
fn add_only_appends_and_never_rewrites() {
    let content = b"kept as it is\r\n\xff\xfe broken\n".to_vec();
    let added = run(&words(&["add", "x"]), &content).unwrap();
    assert_eq!(added.change, Change::Append("[pending] x\n".to_string()));
    assert_eq!(added.output, "Task added!\n\nCurrent tasks:\n1. kept as it is\n2. [pending] x\n");
}

#[test]
fn add_to_content_without_a_final_line_feed_joins_the_last_line() {
    let mut content = b"[pending] one".to_vec();
    let added = step(&mut content, &["add", "two"]).unwrap();
    assert_eq!(added.output, "Task added!\n\nCurrent tasks:\n1. [pending] one[pending] two\n");
}

#[test]
fn add_with_a_line_feed_in_a_word_makes_two_lines() {
    let mut content: Vec<u8> = Vec::new();
    let added = step(&mut content, &["add", "a\nb"]).unwrap();
    assert_eq!(added.output, "Task added!\n\nCurrent tasks:\n1. [pending] a\n2. b\n");
}

#[test]
fn complete_changes_only_the_named_record() {
    let mut content = b"[pending] one\n[pending] two\n[pending] three\n".to_vec();
    let done = step(&mut content, &["complete", "2"]).unwrap();
    assert_eq!(
        done.output,
        "Task marked as complete!\n\nCurrent tasks:\n1. [pending] one\n2. [complete] two\n3. [pending] three\n"
    );
    assert_eq!(content, b"[pending] one\n[complete] two\n[pending] three\n".to_vec());
}

#[test]
fn remove_moves_later_records_up() {
    let mut content = b"[pending] one\n[pending] two\n[pending] three\n".to_vec();
    let done = step(&mut content, &["remove", "1"]).unwrap();
    assert_eq!(
        done.output,
        "Removed task: [pending] one\n\nCurrent tasks:\n1. [pending] two\n2. [pending] three\n"
    );
    assert_eq!(content, b"[pending] two\n[pending] three\n".to_vec());
}

#[test]
fn list_twice_prints_the_same() {
    let mut content = b"[pending] one\n[complete] two\n".to_vec();
    let first = step(&mut content, &["list"]).unwrap();
    let second = step(&mut content, &["list"]).unwrap();
    assert_eq!(first, second);
    assert_eq!(content, b"[pending] one\n[complete] two\n".to_vec());
}

#[test]
fn list_passes_over_further_words() {
    let content = b"[pending] one\n".to_vec();
    let listed = run(&words(&["list", "and", "more"]), &content).unwrap();
    assert_eq!(listed.output, "\nCurrent tasks:\n1. [pending] one\n");
}

#[test]
fn records_added_one_after_the_other_are_all_read_back() {
    let mut content: Vec<u8> = Vec::new();
    for description in ["first", "second one", "third", "and a fourth"] {
        let mut args = vec!["add"];
        args.extend(description.split(' '));
        step(&mut content, &args).unwrap();
    }
    let listed = run(&words(&["list"]), &content).unwrap();
    assert_eq!(
        listed.output,
        "\nCurrent tasks:\n1. [pending] first\n2. [pending] second one\n3. [pending] third\n4. [pending] and a fourth\n"
    );
}

#[test]
fn positions_at_the_boundary_are_out_of_range_and_change_nothing() {
    let content = b"[pending] one\n[pending] two\n".to_vec();
    for command in ["complete", "remove"] {
        for index in ["0", "3"] {
            let mut after = content.clone();
            let outcome = step(&mut after, &[command, index]);
            assert_eq!(outcome, Err(TaskError::OutOfRange));
            assert_eq!(after, content);
            let listed = step(&mut after, &["list"]).unwrap();
            assert_eq!(listed.output, "\nCurrent tasks:\n1. [pending] one\n2. [pending] two\n");
        }
    }
}

#[test]
fn positions_on_an_empty_store_are_out_of_range() {
    assert_eq!(run(&words(&["complete", "1"]), b""), Err(TaskError::OutOfRange));
    assert_eq!(run(&words(&["remove", "1"]), b""), Err(TaskError::OutOfRange));
}

#[test]
fn an_index_that_is_no_number_is_invalid() {
    let content = b"[pending] one\n".to_vec();
    for index in ["one", "", "-1", "1.0", " 1", "1 ", "+", "0x1", "1e3", "\u{661}"] {
        assert_eq!(run(&words(&["complete", index]), &content), Err(TaskError::InvalidIndex));
        assert_eq!(run(&words(&["remove", index]), &content), Err(TaskError::InvalidIndex));
    }
}

#[test]
fn a_number_beyond_every_list_is_out_of_range_however_large() {
    let content = b"[pending] a\n".to_vec();
    for index in [
        "2",
        "4294967296",
        "18446744073709551615",
        "18446744073709551616",
        "+18446744073709551616",
        "99999999999999999999999999",
        "000340282366920938463463374607431768211456",
    ] {
        for command in ["complete", "remove"] {
            let mut after = content.clone();
            assert_eq!(step(&mut after, &[command, index]), Err(TaskError::OutOfRange));
            assert_eq!(after, content);
        }
    }
}

#[test]
fn a_rewrite_leaves_out_the_lines_that_were_passed_over() {
    let mut content = b"[pending] a\n\xff\xfe\n[pending] b\n".to_vec();
    let done = step(&mut content, &["complete", "2"]).unwrap();
    assert_eq!(done.change, Change::Rewrite("[pending] a\n[complete] b\n".to_string()));
    assert_eq!(content, b"[pending] a\n[complete] b\n".to_vec());
}

#[test]
fn an_index_may_carry_a_plus_sign_and_leading_zeros() {
    let content = b"[pending] one\n[pending] two\n".to_vec();
    let done = run(&words(&["complete", "+002"]), &content).unwrap();
    assert_eq!(done.change, Change::Rewrite("[pending] one\n[complete] two\n".to_string()));
}

#[test]
fn only_the_first_word_after_complete_and_remove_is_read() {
    let content = b"[pending] one\n[pending] two\n".to_vec();
    let done = run(&words(&["remove", "2", "1", "junk"]), &content).unwrap();
    assert_eq!(done.change, Change::Rewrite("[pending] one\n".to_string()));
}

#[test]
fn commands_without_their_word_report_usage() {
    let content = b"[pending] one\n".to_vec();
    assert_eq!(run(&words(&["add"]), &content), Err(TaskError::NoDescription));
    assert_eq!(run(&words(&["complete"]), &content), Err(TaskError::NoIndexToComplete));
    assert_eq!(run(&words(&["remove"]), &content), Err(TaskError::NoIndexToRemove));
}

#[test]
fn no_command_and_unknown_commands_are_reported() {
    assert_eq!(run(&words(&[]), b""), Err(TaskError::NoCommand));
    assert_eq!(run(&words(&["delete", "1"]), b""), Err(TaskError::UnknownCommand));
    assert_eq!(run(&words(&[""]), b""), Err(TaskError::UnknownCommand));
    assert_eq!(run(&words(&["add "]), b""), Err(TaskError::UnknownCommand));
}

#[test]
fn commands_are_matched_in_any_case() {
    let content = b"[pending] one\n".to_vec();
    let added = run(&words(&["ADD", "Two"]), &content).unwrap();
    assert_eq!(added.change, Change::Append("[pending] Two\n".to_string()));
    assert!(run(&words(&["List"]), &content).is_ok());
    assert!(run(&words(&["cOmPlEtE", "1"]), &content).is_ok());
    assert!(run(&words(&["REMOVE", "1"]), &content).is_ok());
}

#[test]
fn completing_twice_puts_a_second_tag_in_front() {
    let mut content = b"[pending] one\n".to_vec();
    step(&mut content, &["complete", "1"]).unwrap();
    step(&mut content, &["complete", "1"]).unwrap();
    assert_eq!(content, b"[complete] [complete] one\n".to_vec());
}

#[test]
fn a_record_that_ends_in_a_carriage_return_loses_it_on_rewrite() {
    let mut content = b"[pending] one\r\r\n[pending] two\n".to_vec();
    let done = step(&mut content, &["complete", "2"]).unwrap();
    assert_eq!(done.change, Change::Rewrite("[pending] one\r\n[complete] two\n".to_string()));
    assert_eq!(
        done.output,
        "Task marked as complete!\n\nCurrent tasks:\n1. [pending] one\n2. [complete] two\n"
    );
}

#[test]
fn the_number_in_a_listing_finds_the_record() {
    let mut content: Vec<u8> = Vec::new();
    for n in 0..11 {
        step(&mut content, &["add", "task", &n.to_string()]).unwrap();
    }
    let listed = step(&mut content, &["list"]).unwrap();
    assert!(listed.output.contains("\n11. [pending] task 10\n"));
    let done = step(&mut content, &["complete", "11"]).unwrap();
    assert!(done.output.ends_with("\n10. [pending] task 9\n11. [complete] task 10\n"));
    let gone = step(&mut content, &["remove", "10"]).unwrap();
    assert!(gone.output.starts_with("Removed task: [pending] task 9\n"));
    assert!(gone.output.ends_with("\n9. [pending] task 8\n10. [complete] task 10\n"));
}

#[test]
fn every_command_leaves_the_store_ending_a_line() {
    let mut content: Vec<u8> = Vec::new();
    for args in [
        vec!["add", "a\nb"],
        vec!["add", "c\r"],
        vec!["complete", "2"],
        vec!["list"],
        vec!["remove", "1"],
        vec!["add", "d"],
    ] {
        step(&mut content, &args).unwrap();
        assert!(content.is_empty() || content.ends_with(b"\n"));
    }
    assert_eq!(content, b"[complete] b\n[pending] c\n[pending] d\n".to_vec());
}
