//! The errors that a command line can run into.

use vstd::prelude::*;

verus! {

/// Why a command line was turned down.
#[derive(Debug, Clone, Copy, PartialEq, Eq, Structural)]
pub enum CliError {
    /// The first argument is none of the five commands.
    InvalidCommand,
    /// An argument that has to be a status keyword is none of them.
    InvalidArgs,
    /// An argument that has to be a task identifier cannot be decoded.
    InvalidId,
    /// The command was given too few or too many arguments.
    WrongArgCount,
}

impl CliError {
    /// The text that tells the user what went wrong.
    pub open spec fn text(self) -> Seq<char> {
        match self {
            CliError::InvalidCommand => "Invalid command"@,
            CliError::InvalidArgs => "invalid status"@,
            CliError::InvalidId => "invalid id format"@,
            CliError::WrongArgCount => "wrong number of arguments"@,
        }
    }

    /// Whether the program has to end in failure. An unknown command is
    /// answered with the usage text and ends the program cleanly; every
    /// other error is fatal.
    pub open spec fn fatal(self) -> bool {
        self != CliError::InvalidCommand
    }

    /// The text that tells the user what went wrong.
    pub fn message(&self) -> (r: &'static str)
        ensures
            r@ == self.text(),
    {
        match self {
            CliError::InvalidCommand => "Invalid command",
            CliError::InvalidArgs => "invalid status",
            CliError::InvalidId => "invalid id format",
            CliError::WrongArgCount => "wrong number of arguments",
        }
    }

    /// Whether the program has to end in failure.
    pub fn is_fatal(&self) -> (b: bool)
        ensures
            b == self.fatal(),
    {
        match self {
            CliError::InvalidCommand => false,
            _ => true,
        }
    }
}

} // verus!
