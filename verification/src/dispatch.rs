//! Reading a command line and carrying it out on the collection.

use vstd::prelude::*;
use vstd::string::*;

use crate::clock::Timestamp;
use crate::command::Commands;
use crate::error::CliError;
use crate::id::TaskId;
use crate::list::{described, lines_of, listed, marked, without_id, TaskList};
use crate::status::Status;
use crate::task::TaskView;

verus! {

/// The usage text.
pub const HELP_TEXT: &'static str =
    "Usage: task-cli [command] [args]\n\nCommands:\n    add      Adds a new task\n    update   Update a task\n    delete   Delete a task\n    mark     Change status of a task\n    list     List all tasks";

/// A command line that was read and found in order.
#[derive(Debug, PartialEq, Eq)]
pub enum Request {
    /// No command was given: show the usage text.
    Help,
    Add { description: String },
    Update { id: TaskId, description: String },
    Delete { id: TaskId },
    Mark { id: TaskId, status: Status },
    /// Show every task, or those of one status.
    List { filter: Option<Status> },
}

/// What a request is, with its texts as sequences of characters.
pub ghost enum RequestView {
    Help,
    Add { description: Seq<char> },
    Update { id: TaskId, description: Seq<char> },
    Delete { id: TaskId },
    Mark { id: TaskId, status: Status },
    List { filter: Option<Status> },
}

impl View for Request {
    type V = RequestView;

    open spec fn view(&self) -> RequestView {
        match *self {
            Request::Help => RequestView::Help,
            Request::Add { description } => RequestView::Add { description: description@ },
            Request::Update { id, description } => RequestView::Update {
                id,
                description: description@,
            },
            Request::Delete { id } => RequestView::Delete { id },
            Request::Mark { id, status } => RequestView::Mark { id, status },
            Request::List { filter } => RequestView::List { filter },
        }
    }
}

/// What reading a command line gave, with the request by its view.
pub open spec fn viewed(r: Result<Request, CliError>) -> Result<RequestView, CliError> {
    match r {
        Ok(request) => Ok(request@),
        Err(e) => Err(e),
    }
}

impl RequestView {
    /// The `update` request for an identifier that was read, or the error of
    /// reading it.
    pub open spec fn update(
        id: Result<TaskId, CliError>,
        description: Seq<char>,
    ) -> Result<RequestView, CliError> {
        match id {
            Ok(id) => Ok(RequestView::Update { id, description }),
            Err(e) => Err(e),
        }
    }

    /// The `delete` request for an identifier that was read, or the error of
    /// reading it.
    pub open spec fn delete(id: Result<TaskId, CliError>) -> Result<RequestView, CliError> {
        match id {
            Ok(id) => Ok(RequestView::Delete { id }),
            Err(e) => Err(e),
        }
    }

    /// The `mark` request for an identifier that was read and a status
    /// keyword. A bad identifier is reported before a bad keyword.
    pub open spec fn mark(
        id: Result<TaskId, CliError>,
        keyword: Seq<char>,
    ) -> Result<RequestView, CliError> {
        match id {
            Ok(id) => match Status::parse(keyword) {
                Ok(status) => Ok(RequestView::Mark { id, status }),
                Err(e) => Err(e),
            },
            Err(e) => Err(e),
        }
    }

    /// The `list` request for the arguments that follow the command word:
    /// without any, every task is shown; otherwise the first one must be a
    /// status keyword, and further ones are not looked at.
    pub open spec fn list(rest: Seq<Seq<char>>) -> Result<RequestView, CliError> {
        if rest.len() == 0 {
            Ok(RequestView::List { filter: None })
        } else {
            match Status::parse(rest[0]) {
                Ok(status) => Ok(RequestView::List { filter: Some(status) }),
                Err(e) => Err(e),
            }
        }
    }

    /// What a command asks for, given the arguments that follow the command
    /// word. `add` and `delete` take exactly one, `update` and `mark`
    /// exactly two; the number is checked before any argument is read.
    pub open spec fn of_command(
        command: Commands,
        rest: Seq<Seq<char>>,
    ) -> Result<RequestView, CliError> {
        match command {
            Commands::Add => if rest.len() != 1 {
                Err(CliError::WrongArgCount)
            } else {
                Ok(RequestView::Add { description: rest[0] })
            },
            Commands::Update => if rest.len() != 2 {
                Err(CliError::WrongArgCount)
            } else {
                RequestView::update(TaskId::parsed(rest[0]), rest[1])
            },
            Commands::Delete => if rest.len() != 1 {
                Err(CliError::WrongArgCount)
            } else {
                RequestView::delete(TaskId::parsed(rest[0]))
            },
            Commands::Mark => if rest.len() != 2 {
                Err(CliError::WrongArgCount)
            } else {
                RequestView::mark(TaskId::parsed(rest[0]), rest[1])
            },
            Commands::List => RequestView::list(rest),
        }
    }

    /// What a whole command line asks for. `args[0]` is the program's name;
    /// with nothing after it the request is for the usage text.
    pub open spec fn of_args(args: Seq<Seq<char>>) -> Result<RequestView, CliError> {
        if args.len() <= 1 {
            Ok(RequestView::Help)
        } else {
            match Commands::parse(args[1]) {
                Ok(command) => RequestView::of_command(command, args.skip(2)),
                Err(e) => Err(e),
            }
        }
    }

    /// Whether the collection is written back once the request is carried
    /// out: always, except after `list` and the usage text.
    pub open spec fn saves(self) -> bool {
        !(self is Help || self is List)
    }

    /// Whether the collection has to be loaded before the request is
    /// carried out: always, except for the usage text.
    pub open spec fn loads(self) -> bool {
        !(self is Help)
    }

    /// Whether carrying out the request may turn `before` into `after`.
    /// For `add` the identifier and the instant are drawn while it runs, so
    /// more than one `after` is possible: `before` with a new task at its
    /// end, whichever identifier and instant that task got.
    pub open spec fn leads(self, before: Seq<TaskView>, after: Seq<TaskView>) -> bool {
        match self {
            RequestView::Help => after == before,
            RequestView::List { .. } => after == before,
            RequestView::Add { description } => exists|id: TaskId, now: Timestamp|
                after == before.push(#[trigger] TaskView::created(id, description, now)),
            RequestView::Update { id, description } => after == described(before, id, description),
            RequestView::Delete { id } => after == without_id(before, id),
            RequestView::Mark { id, status } => after == marked(before, id, status),
        }
    }

    /// The lines that carrying out the request prints.
    pub open spec fn prints(self, before: Seq<TaskView>) -> Seq<Seq<char>> {
        match self {
            RequestView::Help => seq![HELP_TEXT@],
            RequestView::List { filter } => lines_of(listed(before, filter)),
            _ => Seq::empty(),
        }
    }
}

/// What carrying out a request gives back to the caller.
#[derive(Debug, PartialEq, Eq)]
pub struct Outcome {
    /// The lines to print, in order.
    pub lines: Vec<String>,
    /// Whether the collection has to be written back.
    pub save: bool,
}

impl Request {
    /// The `update` request, from the outcome of reading the identifier.
    pub fn update(
        id: Result<TaskId, CliError>,
        description: String,
    ) -> (r: Result<Request, CliError>)
        ensures
            viewed(r) == RequestView::update(id, description@),
    {
        match id {
            Ok(id) => Ok(Request::Update { id, description }),
            Err(e) => Err(e),
        }
    }

    /// The `delete` request, from the outcome of reading the identifier.
    pub fn delete(id: Result<TaskId, CliError>) -> (r: Result<Request, CliError>)
        ensures
            viewed(r) == RequestView::delete(id),
    {
        match id {
            Ok(id) => Ok(Request::Delete { id }),
            Err(e) => Err(e),
        }
    }

    /// The `mark` request, from the outcome of reading the identifier and
    /// the status keyword.
    pub fn mark(id: Result<TaskId, CliError>, keyword: &str) -> (r: Result<Request, CliError>)
        ensures
            viewed(r) == RequestView::mark(id, keyword@),
    {
        match id {
            Ok(id) => match Status::from_str(keyword) {
                Ok(status) => Ok(Request::Mark { id, status }),
                Err(e) => Err(e),
            },
            Err(e) => Err(e),
        }
    }

    /// Whether the collection has to be loaded before the request is
    /// carried out.
    pub fn loads(&self) -> (b: bool)
        ensures
            b == self@.loads(),
    {
        match self {
            Request::Help => false,
            _ => true,
        }
    }

    /// Whether the collection has to be written back after the request is
    /// carried out.
    pub fn saves(&self) -> (b: bool)
        ensures
            b == self@.saves(),
    {
        match self {
            Request::Help => false,
            Request::List { .. } => false,
            _ => true,
        }
    }
}

/// Reads a command line, `args[0]` being the program's name.
pub fn parse_args(args: &Vec<String>) -> (r: Result<Request, CliError>)
    ensures
        viewed(r) == RequestView::of_args(args.deep_view()),
{
    let ghost texts = args.deep_view();
    if args.len() <= 1 {
        return Ok(Request::Help);
    }
    assert(texts[1] == args@[1]@);
    let command = match Commands::from_str(args[1].as_str()) {
        Ok(command) => command,
        Err(e) => {
            return Err(e);
        },
    };
    let given = args.len() - 2;
    let ghost rest = texts.skip(2);
    assert(rest.len() == given);
    assert(forall|i: int| 0 <= i < given ==> #[trigger] rest[i] == args@[i + 2]@);
    match command {
        Commands::Add => {
            if given != 1 {
                Err(CliError::WrongArgCount)
            } else {
                Ok(Request::Add { description: args[2].clone() })
            }
        },
        Commands::Update => {
            if given != 2 {
                Err(CliError::WrongArgCount)
            } else {
                Request::update(TaskId::parse(args[2].as_str()), args[3].clone())
            }
        },
        Commands::Delete => {
            if given != 1 {
                Err(CliError::WrongArgCount)
            } else {
                Request::delete(TaskId::parse(args[2].as_str()))
            }
        },
        Commands::Mark => {
            if given != 2 {
                Err(CliError::WrongArgCount)
            } else {
                Request::mark(TaskId::parse(args[2].as_str()), args[3].as_str())
            }
        },
        Commands::List => {
            if given == 0 {
                Ok(Request::List { filter: None })
            } else {
                match Status::from_str(args[2].as_str()) {
                    Ok(status) => Ok(Request::List { filter: Some(status) }),
                    Err(e) => Err(e),
                }
            }
        },
    }
}

/// The lines that answer a command line that was turned down: the error's
/// text, followed by the usage text where the command itself was unknown.
pub open spec fn explained(error: CliError) -> Seq<Seq<char>> {
    if error == CliError::InvalidCommand {
        seq![error.text(), HELP_TEXT@]
    } else {
        seq![error.text()]
    }
}

/// The lines to print for a command line that was turned down.
pub fn explain(error: CliError) -> (lines: Vec<String>)
    ensures
        lines.deep_view() == explained(error),
{
    let mut lines: Vec<String> = Vec::new();
    lines.push(error.message().to_owned());
    if !error.is_fatal() {
        lines.push(HELP_TEXT.to_owned());
    }
    assert(lines.deep_view() =~= explained(error));
    lines
}

/// Carries out a request on the collection.
pub fn execute(request: Request, tasks: &mut TaskList) -> (out: Outcome)
    ensures
        request@.leads(old(tasks)@, final(tasks)@),
        out.lines.deep_view() == request@.prints(old(tasks)@),
        out.save == request@.saves(),
{
    let save = request.saves();
    let mut lines: Vec<String> = Vec::new();
    match request {
        Request::Help => {
            lines.push(HELP_TEXT.to_owned());
        },
        Request::Add { description } => {
            tasks.add(description);
        },
        Request::Update { id, description } => {
            tasks.update(id, description);
        },
        Request::Delete { id } => {
            tasks.delete(id);
        },
        Request::Mark { id, status } => {
            tasks.mark(id, status);
        },
        Request::List { filter } => {
            lines = tasks.list(filter).lines();
        },
    }
    assert(lines.deep_view() =~= request@.prints(old(tasks)@));
    Outcome { lines, save }
}

} // verus!
