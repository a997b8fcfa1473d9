//! A flat task list kept as lines of text.
//!
//! A task is a line `[pending] <description>` or `[complete] <description>`.
//! The list is the file's lines in order, and a task is addressed by its
//! 1-based position in that order.
//!
//! Nothing here touches a file or a terminal. [`session::run`] takes the
//! arguments of one invocation and the bytes that the store holds, and returns
//! the text to print and the change to make to the store; its caller reads and
//! writes. The modules below it hold the parts: the commands and their errors
//! ([`command`]), the four operations on a list in memory ([`tasks`]), the
//! records ([`record`]), the stored form of a list ([`store`]) and the text
//! handling under them ([`text`], [`encoding`]). What the commands guarantee
//! when taken together is proved in [`laws`].

pub mod command;
pub mod encoding;
pub mod laws;
pub mod record;
pub mod session;
pub mod store;
pub mod tasks;
pub mod text;
