//! What holds of the commands taken together.

use vstd::prelude::*;
use crate::command::TaskError;
use crate::record::{
    all_records, complete_tag, completed_record, description_of, is_record, pending_record,
    pending_tag, status_of, without_pending_tag, Status,
};
use crate::command::Command;
use crate::session::{
    add_outcome, added_line, command_outcome, complete_outcome, completed_line, list_outcome,
    outcome_of, remove_outcome, removed_line, usage_error_of,
};
use crate::store::{
    all_lines, ends_a_line, is_line, lemma_stored_after_append,
    lemma_stored_records_hold_no_line_feed, lemma_written_bytes, lemma_written_line,
    lemma_written_tasks_read_back, stored_tasks,
};
use crate::tasks::{
    addition, completion, listed_line, listed_lines, listing, listing_header, position_of,
    removal,
};
use crate::text::{decimal, has_prefix, joined, lemma_decimal_is_parsed, parsed_number};

verus! {

/// A new record can stand on a line of its own where its description can.
pub proof fn lemma_pending_record_is_line(description: Seq<char>)
    requires
        is_line(description),
    ensures
        is_line(pending_record(description)),
{
    reveal_strlit("[pending] ");
}

/// A completed record can stand on a line of its own where the record that it
/// replaces can.
pub proof fn lemma_completed_record_is_line(record: Seq<char>)
    requires
        is_line(record),
    ensures
        is_line(completed_record(record)),
{
    reveal_strlit("[complete] ");
    assert(is_line(without_pending_tag(record)));
}

/// A completed record is tagged complete, whatever stood in its place.
pub proof fn lemma_completed_record_is_complete(record: Seq<char>)
    ensures
        status_of(completed_record(record)) == Some(Status::Complete),
        description_of(completed_record(record)) == without_pending_tag(record),
{
    reveal_strlit("[pending] ");
    reveal_strlit("[complete] ");
    let done = completed_record(record);
    assert(!has_prefix(done, pending_tag())) by {
        if has_prefix(done, pending_tag()) {
            assert(done.subrange(0, 10)[1] == 'p');
        }
    }
    assert(done.subrange(0, 11) == complete_tag());
}

/// A list in which every line carries a status tag stays such a list under
/// every command: the record that `add` makes is tagged, `complete` puts a
/// tagged record in the place of another, and `remove` only takes one out.
pub proof fn records_stay_tagged(task_parts: Seq<Seq<char>>, tasks: Seq<Seq<char>>)
    requires
        all_records(tasks),
    ensures
        addition(task_parts) matches Ok(record) ==> all_records(tasks.push(record)),
        completion(task_parts, tasks) matches Ok(list) ==> all_records(list),
        removal(task_parts, tasks) matches Ok((_, list)) ==> all_records(list),
{
    if let Ok(record) = addition(task_parts) {
        assert(is_record(record)) by {
            assert(record.subrange(0, pending_tag().len() as int) == pending_tag());
        }
    }
    if let Ok(position) = position_of(task_parts[0], tasks.len()) {
        lemma_completed_record_is_complete(tasks[position - 1]);
    }
}

/// `add`, then `list`: the list holds the old records and behind them the new
/// one, `[pending] ` and the words joined by spaces, and the listing shows it
/// on its last line under the number that follows the old count.
///
/// This is so where the stored content ends where a line ends, and where the
/// description can stand on a line of its own.
pub proof fn added_task_is_listed_last(task_parts: Seq<Seq<char>>, content: Seq<u8>)
    requires
        task_parts.len() > 0,
        is_line(joined(task_parts)),
        ends_a_line(content),
    ensures
        add_outcome(task_parts, content) is Ok,
        ({
            let record = pending_record(joined(task_parts));
            let before = stored_tasks(content);
            let outcome = add_outcome(task_parts, content)->Ok_0;
            let after = outcome.change.applied_to(content);
            &&& ends_a_line(after)
            &&& stored_tasks(after) == before.push(record)
            &&& outcome.output == added_line() + list_outcome(after).output
            &&& list_outcome(after).output == listing_header() + listed_lines(before)
                + listed_line(before.len() + 1, record)
        }),
{
    let record = pending_record(joined(task_parts));
    let before = stored_tasks(content);
    lemma_pending_record_is_line(joined(task_parts));
    lemma_stored_after_append(content, record);
    lemma_written_line(record);
    assert(before.push(record).drop_last() == before);
}

/// `complete` at a valid position changes the status of that one record to
/// complete and keeps its description; every other record stays as it is, and
/// so does the number of records.
///
/// This is so for a record that is not yet tagged complete. One that is gets
/// a second tag in front, which makes the first a part of its description.
pub proof fn completing_changes_one_tag(
    task_parts: Seq<Seq<char>>,
    tasks: Seq<Seq<char>>,
    position: nat,
)
    requires
        task_parts.len() > 0,
        position_of(task_parts[0], tasks.len()) == Ok::<nat, TaskError>(position),
        status_of(tasks[position - 1]) != Some(Status::Complete),
    ensures
        completion(task_parts, tasks) is Ok,
        ({
            let list = completion(task_parts, tasks)->Ok_0;
            &&& list.len() == tasks.len()
            &&& status_of(list[position - 1]) == Some(Status::Complete)
            &&& description_of(list[position - 1]) == description_of(tasks[position - 1])
            &&& forall|i: int|
                0 <= i < tasks.len() && i != position - 1 ==> list[i] == tasks[i]
        }),
{
    lemma_completed_record_is_complete(tasks[position - 1]);
}

/// `remove` at a valid position takes out that one record: the list is one
/// shorter, the records before the position stay where they are, and each
/// record behind it moves up by one place with its text unchanged.
pub proof fn removing_shifts_later_tasks(
    task_parts: Seq<Seq<char>>,
    tasks: Seq<Seq<char>>,
    position: nat,
)
    requires
        task_parts.len() > 0,
        position_of(task_parts[0], tasks.len()) == Ok::<nat, TaskError>(position),
    ensures
        removal(task_parts, tasks) is Ok,
        ({
            let (record, list) = removal(task_parts, tasks)->Ok_0;
            &&& record == tasks[position - 1]
            &&& list.len() == tasks.len() - 1
            &&& forall|i: int| 0 <= i < position - 1 ==> list[i] == tasks[i]
            &&& forall|i: int| position - 1 <= i < list.len() ==> list[i] == tasks[i + 1]
        }),
{
}

/// `list` leaves the stored content as it is, so a second `list` prints what
/// the first one printed.
pub proof fn listing_changes_nothing(content: Seq<u8>)
    ensures
        list_outcome(content).change.applied_to(content) == content,
        list_outcome(list_outcome(content).change.applied_to(content)).output == list_outcome(
            content,
        ).output,
{
}

/// The content of a store that was empty and has taken these `add`s, one
/// after the other.
pub open spec fn content_after_adds(descriptions: Seq<Seq<Seq<char>>>) -> Seq<u8>
    decreases descriptions.len(),
{
    if descriptions.len() == 0 {
        Seq::empty()
    } else {
        let before = content_after_adds(descriptions.drop_last());
        match add_outcome(descriptions.last(), before) {
            Ok(outcome) => outcome.change.applied_to(before),
            Err(_) => before,
        }
    }
}

/// The records that these `add`s make, in their order.
pub open spec fn records_added(descriptions: Seq<Seq<Seq<char>>>) -> Seq<Seq<char>> {
    Seq::new(descriptions.len(), |i: int| pending_record(joined(descriptions[i])))
}

/// Records written by one `add` after the other to an empty store are all
/// read back, in the order in which they were added and with their text
/// unchanged, and `list` shows just them.
///
/// This is so where each description has a word and can stand on a line of
/// its own.
pub proof fn added_tasks_are_read_back(descriptions: Seq<Seq<Seq<char>>>)
    requires
        forall|i: int|
            0 <= i < descriptions.len() ==> (#[trigger] descriptions[i]).len() > 0 && is_line(
                joined(descriptions[i]),
            ),
    ensures
        ends_a_line(content_after_adds(descriptions)),
        stored_tasks(content_after_adds(descriptions)) == records_added(descriptions),
        list_outcome(content_after_adds(descriptions)).output == listing(
            records_added(descriptions),
        ),
    decreases descriptions.len(),
{
    if descriptions.len() > 0 {
        let earlier = descriptions.drop_last();
        added_tasks_are_read_back(earlier);
        added_task_is_listed_last(descriptions.last(), content_after_adds(earlier));
    }
}

/// Whether none of `tasks` ends in a carriage return.
pub open spec fn no_trailing_return(tasks: Seq<Seq<char>>) -> bool {
    forall|i: int|
        0 <= i < tasks.len() ==> (#[trigger] tasks[i]).len() > 0 ==> tasks[i].last() != '\r'
}

/// What is read from a store holds records that can each stand on a line of
/// its own, unless one of them ends in a carriage return.
pub proof fn lemma_stored_tasks_are_lines(content: Seq<u8>)
    requires
        no_trailing_return(stored_tasks(content)),
    ensures
        all_lines(stored_tasks(content)),
{
    lemma_stored_records_hold_no_line_feed(content);
}

/// After `complete`, the store holds the list with the one record completed,
/// and that list is what is printed behind the confirmation.
///
/// This is so where no stored record ends in a carriage return: such a record
/// loses it when the list is written and read again.
pub proof fn completed_list_is_stored(task_parts: Seq<Seq<char>>, content: Seq<u8>)
    requires
        completion(task_parts, stored_tasks(content)) is Ok,
        no_trailing_return(stored_tasks(content)),
    ensures
        complete_outcome(task_parts, content) is Ok,
        ({
            let list = completion(task_parts, stored_tasks(content))->Ok_0;
            let outcome = complete_outcome(task_parts, content)->Ok_0;
            &&& stored_tasks(outcome.change.applied_to(content)) == list
            &&& outcome.output == completed_line() + listing(list)
        }),
{
    let tasks = stored_tasks(content);
    let position = position_of(task_parts[0], tasks.len())->Ok_0;
    lemma_stored_tasks_are_lines(content);
    lemma_completed_record_is_line(tasks[position - 1]);
    lemma_written_tasks_read_back(completion(task_parts, tasks)->Ok_0);
}

/// After `remove`, the store holds the list without the one record, and that
/// list is what is printed behind the line that names the record taken out.
///
/// This is so where no stored record ends in a carriage return: such a record
/// loses it when the list is written and read again.
pub proof fn reduced_list_is_stored(task_parts: Seq<Seq<char>>, content: Seq<u8>)
    requires
        removal(task_parts, stored_tasks(content)) is Ok,
        no_trailing_return(stored_tasks(content)),
    ensures
        remove_outcome(task_parts, content) is Ok,
        ({
            let (record, list) = removal(task_parts, stored_tasks(content))->Ok_0;
            let outcome = remove_outcome(task_parts, content)->Ok_0;
            &&& stored_tasks(outcome.change.applied_to(content)) == list
            &&& outcome.output == removed_line(record) + listing(list)
        }),
{
    lemma_stored_tasks_are_lines(content);
    lemma_written_tasks_read_back(removal(task_parts, stored_tasks(content))->Ok_0.1);
}

/// The number under which a listing shows a record is the index by which
/// `complete` and `remove` find that record.
pub proof fn listed_number_names_its_record(tasks: Seq<Seq<char>>, position: nat)
    requires
        1 <= position <= tasks.len(),
    ensures
        position_of(decimal(position), tasks.len()) == Ok::<nat, TaskError>(position),
{
    lemma_decimal_is_parsed(position);
}

/// Whatever a command stores, the store ends where a line ends, as long as it
/// did before; and a store that holds nothing does. So every `add` finds the
/// store in the state in which its record gets a line of its own.
pub proof fn store_always_ends_a_line(
    command: Command,
    task_parts: Seq<Seq<char>>,
    content: Seq<u8>,
)
    requires
        ends_a_line(content),
    ensures
        ends_a_line(Seq::<u8>::empty()),
        command_outcome(command, task_parts, content) matches Ok(outcome) ==> ends_a_line(
            outcome.change.applied_to(content),
        ),
{
    match command {
        Command::Add => {
            if let Ok(record) = addition(task_parts) {
                lemma_written_line(record);
            }
        },
        Command::List => {},
        Command::Complete => {
            if let Ok(list) = completion(task_parts, stored_tasks(content)) {
                lemma_written_bytes(list);
            }
        },
        Command::Remove => {
            if let Ok((_, list)) = removal(task_parts, stored_tasks(content)) {
                lemma_written_bytes(list);
            }
        },
    }
}

/// `complete` and `remove` refuse the position zero and every position beyond
/// the last record, the one just behind it included. They report that the
/// index is out of range; nothing is stored and nothing is listed.
pub proof fn positions_outside_the_list_are_refused(
    task_parts: Seq<Seq<char>>,
    content: Seq<u8>,
    position: nat,
)
    requires
        task_parts.len() > 0,
        parsed_number(task_parts[0]) == Some(position),
        position == 0 || position > stored_tasks(content).len(),
    ensures
        completion(task_parts, stored_tasks(content)) == Err::<Seq<Seq<char>>, TaskError>(
            TaskError::OutOfRange,
        ),
        removal(task_parts, stored_tasks(content)) == Err::<
            (Seq<char>, Seq<Seq<char>>),
            TaskError,
        >(TaskError::OutOfRange),
        complete_outcome(task_parts, content) is Err,
        complete_outcome(task_parts, content)->Err_0 == TaskError::OutOfRange,
        remove_outcome(task_parts, content) is Err,
        remove_outcome(task_parts, content)->Err_0 == TaskError::OutOfRange,
{
}

/// An error that the arguments alone decide is the outcome whatever the store
/// holds; and where they decide none, the only errors left are those of an
/// index.
pub proof fn usage_errors_need_no_store(args: Seq<Seq<char>>, content: Seq<u8>)
    ensures
        usage_error_of(args) matches Some(error) ==> outcome_of(args, content) is Err
            && outcome_of(args, content)->Err_0 == error,
        usage_error_of(args) is None && outcome_of(args, content) is Err ==> ({
            ||| outcome_of(args, content)->Err_0 == TaskError::InvalidIndex
            ||| outcome_of(args, content)->Err_0 == TaskError::OutOfRange
        }),
{
}

} // verus!
