//! One invocation: the arguments and the stored content go in, what to print
//! and what to store come out.

use vstd::prelude::*;
use vstd::slice::{slice_subrange, slice_to_vec};
use vstd::utf8::encode_utf8;
use crate::command::{parse_command, requested_command, Command, TaskError};
use crate::store::{file_text, read_tasks, stored_tasks, write_tasks};
use crate::tasks::{
    add_task, addition, complete_task, completion, list_tasks, listing, removal, remove_task,
};

verus! {

/// What an invocation does to the stored content.
#[derive(Debug, PartialEq, Eq)]
pub enum Change {
    /// The content stays as it is.
    Keep,
    /// This text is added at the end.
    Append(String),
    /// This text takes the place of the whole content. It holds the list as
    /// it was read, so a line that was passed over in reading is gone.
    Rewrite(String),
}

/// What a successful invocation prints and stores.
#[derive(Debug, PartialEq, Eq)]
pub struct Outcome {
    /// The text for the standard output.
    pub output: String,
    /// What becomes of the stored content.
    pub change: Change,
}

/// A `Change` with its texts as character sequences.
pub enum ChangeView {
    Keep,
    Append(Seq<char>),
    Rewrite(Seq<char>),
}

/// An `Outcome` with its texts as character sequences.
pub struct OutcomeView {
    pub output: Seq<char>,
    pub change: ChangeView,
}

impl View for Change {
    type V = ChangeView;

    open spec fn view(&self) -> ChangeView {
        match self {
            Change::Keep => ChangeView::Keep,
            Change::Append(text) => ChangeView::Append(text@),
            Change::Rewrite(text) => ChangeView::Rewrite(text@),
        }
    }
}

impl View for Outcome {
    type V = OutcomeView;

    open spec fn view(&self) -> OutcomeView {
        OutcomeView { output: self.output@, change: self.change@ }
    }
}

impl ChangeView {
    /// The content that this change makes of `content`. Text is stored as
    /// UTF-8.
    pub open spec fn applied_to(self, content: Seq<u8>) -> Seq<u8> {
        match self {
            ChangeView::Keep => content,
            ChangeView::Append(text) => content + encode_utf8(text),
            ChangeView::Rewrite(text) => encode_utf8(text),
        }
    }
}

/// The line that confirms an `add`.
pub open spec fn added_line() -> Seq<char> {
    "Task added!\n"@
}

/// The line that confirms a `complete`.
pub open spec fn completed_line() -> Seq<char> {
    "Task marked as complete!\n"@
}

/// The line that confirms a `remove` and names the record taken out.
pub open spec fn removed_line(record: Seq<char>) -> Seq<char> {
    "Removed task: "@ + record + seq!['\n']
}

/// A confirmation, then the list as the changed content holds it.
pub open spec fn changed(
    confirmation: Seq<char>,
    change: ChangeView,
    content: Seq<u8>,
) -> OutcomeView {
    OutcomeView {
        output: confirmation + listing(stored_tasks(change.applied_to(content))),
        change,
    }
}

/// What `add` with these words does to this content.
pub open spec fn add_outcome(task_parts: Seq<Seq<char>>, content: Seq<u8>) -> Result<
    OutcomeView,
    TaskError,
> {
    match addition(task_parts) {
        Ok(record) => Ok(changed(added_line(), ChangeView::Append(record + seq!['\n']), content)),
        Err(error) => Err(error),
    }
}

/// What `list` does with this content.
pub open spec fn list_outcome(content: Seq<u8>) -> OutcomeView {
    OutcomeView { output: listing(stored_tasks(content)), change: ChangeView::Keep }
}

/// What `complete` with these words does to this content.
pub open spec fn complete_outcome(task_parts: Seq<Seq<char>>, content: Seq<u8>) -> Result<
    OutcomeView,
    TaskError,
> {
    match completion(task_parts, stored_tasks(content)) {
        Ok(list) => Ok(changed(completed_line(), ChangeView::Rewrite(file_text(list)), content)),
        Err(error) => Err(error),
    }
}

/// What `remove` with these words does to this content.
pub open spec fn remove_outcome(task_parts: Seq<Seq<char>>, content: Seq<u8>) -> Result<
    OutcomeView,
    TaskError,
> {
    match removal(task_parts, stored_tasks(content)) {
        Ok((record, list)) => Ok(
            changed(removed_line(record), ChangeView::Rewrite(file_text(list)), content),
        ),
        Err(error) => Err(error),
    }
}

/// What `command` with these words does to this content. `list` takes no
/// words and passes over any it is given.
pub open spec fn command_outcome(
    command: Command,
    task_parts: Seq<Seq<char>>,
    content: Seq<u8>,
) -> Result<OutcomeView, TaskError> {
    match command {
        Command::Add => add_outcome(task_parts, content),
        Command::List => Ok(list_outcome(content)),
        Command::Complete => complete_outcome(task_parts, content),
        Command::Remove => remove_outcome(task_parts, content),
    }
}

/// What an invocation with these arguments does to this content: the command
/// is the first argument, the rest are its words.
pub open spec fn outcome_of(args: Seq<Seq<char>>, content: Seq<u8>) -> Result<
    OutcomeView,
    TaskError,
> {
    match requested_command(args) {
        Ok(command) => command_outcome(command, args.skip(1), content),
        Err(error) => Err(error),
    }
}

/// The error that the arguments alone decide, whatever the store holds: no
/// command, an unknown one, or one that lacks the word it needs.
pub open spec fn usage_error_of(args: Seq<Seq<char>>) -> Option<TaskError> {
    match requested_command(args) {
        Ok(Command::Add) => if args.len() <= 1 {
            Some(TaskError::NoDescription)
        } else {
            None
        },
        Ok(Command::List) => None,
        Ok(Command::Complete) => if args.len() <= 1 {
            Some(TaskError::NoIndexToComplete)
        } else {
            None
        },
        Ok(Command::Remove) => if args.len() <= 1 {
            Some(TaskError::NoIndexToRemove)
        } else {
            None
        },
        Err(error) => Some(error),
    }
}

/// Renders the list that `content` holds once `change` is made to it, behind
/// the `confirmation`.
fn confirm(confirmation: &str, change: Change, content: &[u8]) -> (outcome: Outcome)
    ensures
        outcome@ == changed(confirmation@, change@, content@),
{
    let shown = match &change {
        Change::Keep => read_tasks(content),
        Change::Append(text) => {
            let mut after = slice_to_vec(content);
            after.extend_from_slice(text.as_str().as_bytes());
            assert(after@ == content@ + encode_utf8(text@));
            read_tasks(after.as_slice())
        },
        Change::Rewrite(text) => read_tasks(text.as_str().as_bytes()),
    };
    let list = list_tasks(shown.as_slice());
    let mut output = String::from_str(confirmation);
    output.append(list.as_str());
    Outcome { output, change }
}

/// Carries out `command` with its words on the content of the store.
pub fn run_command(command: Command, task_parts: &[String], content: &[u8]) -> (outcome: Result<
    Outcome,
    TaskError,
>)
    ensures
        (match command_outcome(command, task_parts.deep_view(), content@) {
            Ok(expected) => outcome matches Ok(o) && o@ == expected,
            Err(error) => outcome matches Err(e) && e == error,
        }),
{
    proof {
        reveal_strlit("\n");
        assert("\n"@ == seq!['\n']);
    }
    match command {
        Command::Add => {
            let mut line = match add_task(task_parts) {
                Ok(record) => record,
                Err(error) => {
                    return Err(error);
                },
            };
            line.append("\n");
            Ok(confirm("Task added!\n", Change::Append(line), content))
        },
        Command::List => {
            let tasks = read_tasks(content);
            Ok(Outcome { output: list_tasks(tasks.as_slice()), change: Change::Keep })
        },
        Command::Complete => {
            let mut tasks = read_tasks(content);
            match complete_task(task_parts, &mut tasks) {
                Ok(()) => {},
                Err(error) => {
                    return Err(error);
                },
            }
            let text = write_tasks(tasks.as_slice());
            Ok(confirm("Task marked as complete!\n", Change::Rewrite(text), content))
        },
        Command::Remove => {
            let mut tasks = read_tasks(content);
            let record = match remove_task(task_parts, &mut tasks) {
                Ok(record) => record,
                Err(error) => {
                    return Err(error);
                },
            };
            let mut confirmation = String::from_str("Removed task: ");
            confirmation.append(record.as_str());
            confirmation.append("\n");
            let text = write_tasks(tasks.as_slice());
            Ok(confirm(confirmation.as_str(), Change::Rewrite(text), content))
        },
    }
}

/// Carries out one invocation on the content of the store.
///
/// `args` are the command and its words, `content` is what the store holds
/// (nothing, where there is no store yet).
pub fn run(args: &[String], content: &[u8]) -> (outcome: Result<Outcome, TaskError>)
    ensures
        (match outcome_of(args.deep_view(), content@) {
            Ok(expected) => outcome matches Ok(o) && o@ == expected,
            Err(error) => outcome matches Err(e) && e == error,
        }),
{
    let command = match parse_command(args) {
        Ok(command) => command,
        Err(error) => {
            return Err(error);
        },
    };
    let task_parts = slice_subrange(args, 1, args.len());
    assert(task_parts.deep_view() == args.deep_view().skip(1));
    run_command(command, task_parts, content)
}

/// Tells from the arguments alone whether the invocation fails before the
/// store is looked at, and with which error.
pub fn usage_error(args: &[String]) -> (error: Option<TaskError>)
    ensures
        error == usage_error_of(args.deep_view()),
{
    match parse_command(args) {
        Ok(Command::List) => None,
        Ok(Command::Add) => if args.len() <= 1 {
            Some(TaskError::NoDescription)
        } else {
            None
        },
        Ok(Command::Complete) => if args.len() <= 1 {
            Some(TaskError::NoIndexToComplete)
        } else {
            None
        },
        Ok(Command::Remove) => if args.len() <= 1 {
            Some(TaskError::NoIndexToRemove)
        } else {
            None
        },
        Err(error) => Some(error),
    }
}

} // verus!
