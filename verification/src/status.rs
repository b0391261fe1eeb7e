//! The stage of a task, and the keyword that stands for it on the command
//! line and in a listing.

use vstd::prelude::*;
use vstd::string::*;

use crate::error::CliError;
use crate::text::str_eq;

verus! {

/// The lifecycle stage of a task.
#[derive(Debug, Clone, Copy, PartialEq, Eq, Structural)]
pub enum Status {
    InProgress,
    Done,
    ToDo,
}

impl Status {
    /// The keyword of a status: `in-progress`, `done` or `todo`.
    pub open spec fn keyword(self) -> Seq<char> {
        match self {
            Status::InProgress => "in-progress"@,
            Status::Done => "done"@,
            Status::ToDo => "todo"@,
        }
    }

    /// The status that a keyword stands for. The match is exact and
    /// case-sensitive; any other text is turned down.
    pub open spec fn parse(s: Seq<char>) -> Result<Status, CliError> {
        if s == "in-progress"@ {
            Ok(Status::InProgress)
        } else if s == "done"@ {
            Ok(Status::Done)
        } else if s == "todo"@ {
            Ok(Status::ToDo)
        } else {
            Err(CliError::InvalidArgs)
        }
    }

    /// Reads a status keyword.
    pub fn from_str(s: &str) -> (r: Result<Status, CliError>)
        ensures
            r == Status::parse(s@),
    {
        if str_eq(s, "in-progress") {
            Ok(Status::InProgress)
        } else if str_eq(s, "done") {
            Ok(Status::Done)
        } else if str_eq(s, "todo") {
            Ok(Status::ToDo)
        } else {
            Err(CliError::InvalidArgs)
        }
    }

    /// The keyword of this status as a string slice.
    pub fn as_str(&self) -> (r: &'static str)
        ensures
            r@ == self.keyword(),
    {
        match self {
            Status::InProgress => "in-progress",
            Status::Done => "done",
            Status::ToDo => "todo",
        }
    }

    /// The keyword of this status as an owned string.
    pub fn to_string(&self) -> (r: String)
        ensures
            r@ == self.keyword(),
    {
        self.as_str().to_owned()
    }
}

/// The three keywords are pairwise different, so reading the keyword of a
/// status gives that status back.
pub proof fn lemma_keyword_round_trip(status: Status)
    ensures
        Status::parse(status.keyword()) == Ok::<Status, CliError>(status),
{
    reveal_strlit("in-progress");
    reveal_strlit("done");
    reveal_strlit("todo");
    assert("in-progress"@.len() == 11);
    assert("done"@[0] == 'd');
    assert("todo"@[0] == 't');
}

} // verus!
