//! A small task tracker: tasks with an identifier, a description, a status
//! and two timestamps, kept in insertion order, and the commands that add,
//! change, remove and list them.
//!
//! The library decides and computes; it neither reads nor writes files and
//! prints nothing. A program around it collects the arguments, loads the
//! stored tasks, calls [`parse_args`] and [`execute`], prints the lines it
//! gets back and stores the tasks again where the outcome asks for it.

pub mod clock;
pub mod command;
pub mod dispatch;
pub mod error;
pub mod id;
pub mod laws;
pub mod list;
pub mod status;
pub mod task;
pub mod text;

pub use clock::Timestamp;
pub use command::Commands;
pub use dispatch::{execute, explain, parse_args, Outcome, Request, HELP_TEXT};
pub use error::CliError;
pub use id::TaskId;
pub use list::TaskList;
pub use status::Status;
pub use task::Task;
