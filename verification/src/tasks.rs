//! The four operations on a task list held in memory.

use vstd::prelude::*;
use crate::command::TaskError;
use crate::record::{complete_record, completed_record, new_record, pending_record};
use crate::text::{
    decimal, decimal_text, is_number, join_words, joined, lemma_take_one_more, parse_index,
    parsed_number,
};

verus! {

/// The record that `add` makes of the words of a description, or why it makes
/// none.
pub open spec fn addition(task_parts: Seq<Seq<char>>) -> Result<Seq<char>, TaskError> {
    if task_parts.len() == 0 {
        Err(TaskError::NoDescription)
    } else {
        Ok(pending_record(joined(task_parts)))
    }
}

/// The 1-based position that `token` names in a list of `count` tasks, or why
/// it names none. A token that denotes no number is no valid index; zero and
/// every number beyond `count`, however large, are out of range.
pub open spec fn position_of(token: Seq<char>, count: nat) -> Result<nat, TaskError> {
    match parsed_number(token) {
        Some(n) => if 1 <= n <= count {
            Ok(n)
        } else {
            Err(TaskError::OutOfRange)
        },
        None => Err(TaskError::InvalidIndex),
    }
}

/// The list that `complete` leaves, or why it leaves the list alone. Only the
/// first of `task_parts` is read.
pub open spec fn completion(task_parts: Seq<Seq<char>>, tasks: Seq<Seq<char>>) -> Result<
    Seq<Seq<char>>,
    TaskError,
> {
    if task_parts.len() == 0 {
        Err(TaskError::NoIndexToComplete)
    } else {
        match position_of(task_parts[0], tasks.len()) {
            Ok(position) => Ok(tasks.update(position - 1, completed_record(tasks[position - 1]))),
            Err(error) => Err(error),
        }
    }
}

/// The record that `remove` takes out and the list that it leaves, or why it
/// leaves the list alone. Only the first of `task_parts` is read.
pub open spec fn removal(task_parts: Seq<Seq<char>>, tasks: Seq<Seq<char>>) -> Result<
    (Seq<char>, Seq<Seq<char>>),
    TaskError,
> {
    if task_parts.len() == 0 {
        Err(TaskError::NoIndexToRemove)
    } else {
        match position_of(task_parts[0], tasks.len()) {
            Ok(position) => Ok((tasks[position - 1], tasks.remove(position - 1))),
            Err(error) => Err(error),
        }
    }
}

/// The line that heads every listing.
pub open spec fn listing_header() -> Seq<char> {
    "\nCurrent tasks:\n"@
}

/// The line that stands for an empty list.
pub open spec fn no_tasks_line() -> Seq<char> {
    "No tasks found.\n"@
}

/// The line that shows `record` at the 1-based `position`.
pub open spec fn listed_line(position: nat, record: Seq<char>) -> Seq<char> {
    decimal(position) + ". "@ + record + seq!['\n']
}

/// One line for each task, in order, numbered from one.
pub open spec fn listed_lines(tasks: Seq<Seq<char>>) -> Seq<char>
    decreases tasks.len(),
{
    if tasks.len() == 0 {
        Seq::empty()
    } else {
        listed_lines(tasks.drop_last()) + listed_line(tasks.len(), tasks.last())
    }
}

/// What `list` prints for `tasks`.
pub open spec fn listing(tasks: Seq<Seq<char>>) -> Seq<char> {
    listing_header() + if tasks.len() == 0 {
        no_tasks_line()
    } else {
        listed_lines(tasks)
    }
}

/// Makes the record of a new task out of the words of its description.
pub fn add_task(task_parts: &[String]) -> (added: Result<String, TaskError>)
    ensures
        (match addition(task_parts.deep_view()) {
            Ok(record) => added matches Ok(made) && made@ == record,
            Err(error) => added matches Err(e) && e == error,
        }),
{
    if task_parts.len() == 0 {
        return Err(TaskError::NoDescription);
    }
    let description = join_words(task_parts);
    Ok(new_record(description.as_str()))
}

/// Renders the list as it is printed.
pub fn list_tasks(tasks: &[String]) -> (text: String)
    ensures
        text@ == listing(tasks.deep_view()),
{
    let mut text = String::from_str("\nCurrent tasks:\n");
    if tasks.len() == 0 {
        text.append("No tasks found.\n");
        return text;
    }
    let mut i: usize = 0;
    while i < tasks.len()
        invariant
            0 <= i <= tasks.len(),
            text@ == listing_header() + listed_lines(tasks.deep_view().take(i as int)),
        decreases tasks.len() - i,
    {
        proof {
            reveal_strlit("\n");
            lemma_take_one_more(tasks.deep_view(), i as int);
        }
        let number = decimal_text(i + 1);
        text.append(number.as_str());
        text.append(". ");
        text.append(tasks[i].as_str());
        text.append("\n");
        i = i + 1;
    }
    assert(tasks.deep_view().take(i as int) == tasks.deep_view());
    text
}

/// Finds the task that `token` names in a list of `count` tasks.
pub fn find_position(token: &str, count: usize) -> (found: Result<usize, TaskError>)
    ensures
        (match position_of(token@, count as nat) {
            Ok(position) => found == Ok::<usize, TaskError>(position as usize),
            Err(error) => found == Err::<usize, TaskError>(error),
        }),
{
    match parse_index(token) {
        Some(index) => if index == 0 || index > count {
            Err(TaskError::OutOfRange)
        } else {
            Ok(index)
        },
        // No machine word holds it: either it is no number, or it is one
        // beyond every list.
        None => if is_number(token) {
            Err(TaskError::OutOfRange)
        } else {
            Err(TaskError::InvalidIndex)
        },
    }
}

/// Marks as complete the task that the first of `task_parts` names.
pub fn complete_task(task_parts: &[String], tasks: &mut Vec<String>) -> (done: Result<
    (),
    TaskError,
>)
    ensures
        (match completion(task_parts.deep_view(), old(tasks).deep_view()) {
            Ok(list) => done is Ok && final(tasks).deep_view() == list,
            Err(error) => done == Err::<(), TaskError>(error) && *final(tasks) == *old(tasks),
        }),
{
    if task_parts.len() == 0 {
        return Err(TaskError::NoIndexToComplete);
    }
    let position = match find_position(task_parts[0].as_str(), tasks.len()) {
        Ok(position) => position,
        Err(error) => {
            return Err(error);
        },
    };
    let done = complete_record(tasks[position - 1].as_str());
    tasks[position - 1] = done;
    Ok(())
}

/// Takes out the task that the first of `task_parts` names, and returns its
/// record.
pub fn remove_task(task_parts: &[String], tasks: &mut Vec<String>) -> (removed: Result<
    String,
    TaskError,
>)
    ensures
        (match removal(task_parts.deep_view(), old(tasks).deep_view()) {
            Ok((record, list)) => {
                &&& removed matches Ok(taken) && taken@ == record
                &&& final(tasks).deep_view() == list
            },
            Err(error) => removed matches Err(e) && e == error && *final(tasks) == *old(tasks),
        }),
{
    if task_parts.len() == 0 {
        return Err(TaskError::NoIndexToRemove);
    }
    let position = match find_position(task_parts[0].as_str(), tasks.len()) {
        Ok(position) => position,
        Err(error) => {
            return Err(error);
        },
    };
    Ok(tasks.remove(position - 1))
}

} // verus!
