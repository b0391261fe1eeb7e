//! The five commands and the word that selects each.

use vstd::prelude::*;

use crate::error::CliError;
use crate::text::str_eq;

verus! {

/// What the first argument of a command line asks for.
#[derive(Debug, Clone, Copy, PartialEq, Eq, Structural)]
pub enum Commands {
    Add,
    Update,
    Delete,
    Mark,
    List,
}

impl Commands {
    /// The command that a word selects. The match is exact and
    /// case-sensitive; any other word is an invalid command.
    pub open spec fn parse(s: Seq<char>) -> Result<Commands, CliError> {
        if s == "add"@ {
            Ok(Commands::Add)
        } else if s == "update"@ {
            Ok(Commands::Update)
        } else if s == "delete"@ {
            Ok(Commands::Delete)
        } else if s == "mark"@ {
            Ok(Commands::Mark)
        } else if s == "list"@ {
            Ok(Commands::List)
        } else {
            Err(CliError::InvalidCommand)
        }
    }

    /// Reads the word that selects a command.
    pub fn from_str(s: &str) -> (r: Result<Commands, CliError>)
        ensures
            r == Commands::parse(s@),
    {
        if str_eq(s, "add") {
            Ok(Commands::Add)
        } else if str_eq(s, "update") {
            Ok(Commands::Update)
        } else if str_eq(s, "delete") {
            Ok(Commands::Delete)
        } else if str_eq(s, "mark") {
            Ok(Commands::Mark)
        } else if str_eq(s, "list") {
            Ok(Commands::List)
        } else {
            Err(CliError::InvalidCommand)
        }
    }
}

} // verus!
