//! Task records: a status tag, a space, and the description.

use vstd::prelude::*;
use crate::text::{has_prefix, skip_chars, starts_with};

verus! {

/// Whether a task is still to be done.
#[derive(Clone, Copy, Debug, PartialEq, Eq, Structural)]
pub enum Status {
    Pending,
    Complete,
}

/// What a pending record begins with.
pub open spec fn pending_tag() -> Seq<char> {
    "[pending] "@
}

/// What a completed record begins with.
pub open spec fn complete_tag() -> Seq<char> {
    "[complete] "@
}

/// The record of a new task with this description.
pub open spec fn pending_record(description: Seq<char>) -> Seq<char> {
    pending_tag() + description
}

/// `record` without one leading pending tag; a record that does not begin with
/// that tag is left whole.
pub open spec fn without_pending_tag(record: Seq<char>) -> Seq<char> {
    if has_prefix(record, pending_tag()) {
        record.skip(pending_tag().len() as int)
    } else {
        record
    }
}

/// The record that completing `record` leaves in its place.
pub open spec fn completed_record(record: Seq<char>) -> Seq<char> {
    complete_tag() + without_pending_tag(record)
}

/// The status that a record's leading tag gives it. A line that begins with
/// neither tag is no record and has none.
pub open spec fn status_of(record: Seq<char>) -> Option<Status> {
    if has_prefix(record, pending_tag()) {
        Some(Status::Pending)
    } else if has_prefix(record, complete_tag()) {
        Some(Status::Complete)
    } else {
        None
    }
}

/// Whether `line` is a record: it begins with one of the two tags.
pub open spec fn is_record(line: Seq<char>) -> bool {
    status_of(line) is Some
}

/// Whether every one of `tasks` is a record.
pub open spec fn all_records(tasks: Seq<Seq<char>>) -> bool {
    forall|i: int| 0 <= i < tasks.len() ==> is_record(#[trigger] tasks[i])
}

/// What follows a record's leading tag.
pub open spec fn description_of(record: Seq<char>) -> Seq<char> {
    match status_of(record) {
        Some(Status::Pending) => record.skip(pending_tag().len() as int),
        Some(Status::Complete) => record.skip(complete_tag().len() as int),
        None => record,
    }
}

/// Builds the record of a new task.
pub fn new_record(description: &str) -> (record: String)
    ensures
        record@ == pending_record(description@),
{
    let mut record = String::from_str("[pending] ");
    record.append(description);
    record
}

/// Builds the record that takes the place of `record` when its task is
/// completed.
pub fn complete_record(record: &str) -> (done: String)
    ensures
        done@ == completed_record(record@),
{
    let mut done = String::from_str("[complete] ");
    if starts_with(record, "[pending] ") {
        proof {
            reveal_strlit("[pending] ");
        }
        done.append(skip_chars(record, 10));
    } else {
        done.append(record);
    }
    done
}

} // verus!
