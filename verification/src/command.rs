//! The commands, and the reports of what went wrong.

use vstd::prelude::*;
use crate::text::same_text;

verus! {

/// One of the four things that can be asked of the task list.
#[derive(Clone, Copy, Debug, PartialEq, Eq, Structural)]
pub enum Command {
    Add,
    List,
    Complete,
    Remove,
}

/// Why a request was turned down. Nothing is changed and nothing is listed
/// when one of these is reported.
#[derive(Clone, Copy, Debug, PartialEq, Eq, Structural)]
pub enum TaskError {
    /// No command was given at all.
    NoCommand,
    /// The first word is none of the four commands.
    UnknownCommand,
    /// `add` came without a description.
    NoDescription,
    /// `complete` came without an index.
    NoIndexToComplete,
    /// `remove` came without an index.
    NoIndexToRemove,
    /// The index is not a number.
    InvalidIndex,
    /// The index is zero or lies beyond the last task.
    OutOfRange,
}

impl TaskError {
    /// The line that reports this error.
    pub open spec fn message_text(self) -> Seq<char> {
        match self {
            TaskError::NoCommand => "Usage: <Command> <Task>"@,
            TaskError::UnknownCommand =>
                "Invalid command. Use 'add', 'list', 'complete', or 'remove'."@,
            TaskError::NoDescription => "Usage: add <Task>"@,
            TaskError::NoIndexToComplete => "Usage: complete <Task Index>"@,
            TaskError::NoIndexToRemove => "Usage: remove <Task Index>"@,
            TaskError::InvalidIndex => "Invalid task index."@,
            TaskError::OutOfRange => "Task index out of range."@,
        }
    }

    /// The line that reports this error.
    pub fn message(&self) -> (text: &'static str)
        ensures
            text@ == self.message_text(),
    {
        match self {
            TaskError::NoCommand => "Usage: <Command> <Task>",
            TaskError::UnknownCommand =>
                "Invalid command. Use 'add', 'list', 'complete', or 'remove'.",
            TaskError::NoDescription => "Usage: add <Task>",
            TaskError::NoIndexToComplete => "Usage: complete <Task Index>",
            TaskError::NoIndexToRemove => "Usage: remove <Task Index>",
            TaskError::InvalidIndex => "Invalid task index.",
            TaskError::OutOfRange => "Task index out of range.",
        }
    }
}

/// What `str::to_lowercase` makes of a text.
pub uninterp spec fn lowercase(text: Seq<char>) -> Seq<char>;

/// `str::to_lowercase`: the lowercase form of a text, which depends on the
/// text alone.
pub assume_specification[ str::to_lowercase ](text: &str) -> (lower: String)
    ensures
        lower@ == lowercase(text@),
;

/// The command that goes by exactly this name.
pub open spec fn command_named(name: Seq<char>) -> Option<Command> {
    if name == "add"@ {
        Some(Command::Add)
    } else if name == "list"@ {
        Some(Command::List)
    } else if name == "complete"@ {
        Some(Command::Complete)
    } else if name == "remove"@ {
        Some(Command::Remove)
    } else {
        None
    }
}

/// The command that the argument list asks for: the one named by the lowercase
/// form of its first word.
pub open spec fn requested_command(args: Seq<Seq<char>>) -> Result<Command, TaskError> {
    if args.len() == 0 {
        Err(TaskError::NoCommand)
    } else {
        match command_named(lowercase(args[0])) {
            Some(command) => Ok(command),
            None => Err(TaskError::UnknownCommand),
        }
    }
}

/// Looks a command up by its name, which must be spelled in lowercase.
pub fn command_from_name(name: &str) -> (command: Option<Command>)
    ensures
        command == command_named(name@),
{
    if same_text(name, "add") {
        Some(Command::Add)
    } else if same_text(name, "list") {
        Some(Command::List)
    } else if same_text(name, "complete") {
        Some(Command::Complete)
    } else if same_text(name, "remove") {
        Some(Command::Remove)
    } else {
        None
    }
}

/// Finds the command in the argument list. Its name may be written in any mix
/// of upper and lower case.
pub fn parse_command(args: &[String]) -> (command: Result<Command, TaskError>)
    ensures
        command == requested_command(args.deep_view()),
{
    if args.len() == 0 {
        return Err(TaskError::NoCommand);
    }
    let name = args[0].as_str().to_lowercase();
    match command_from_name(name.as_str()) {
        Some(command) => Ok(command),
        None => Err(TaskError::UnknownCommand),
    }
}

} // verus!
