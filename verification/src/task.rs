//! A single task and the line that a listing prints for it.

use vstd::prelude::*;
use vstd::string::*;

use crate::clock::Timestamp;
use crate::id::TaskId;
use crate::status::Status;

verus! {

/// A to-do item. The identifier and `created_at` are set when the task is
/// made and never change. `updated_at` is set at the same moment and is left
/// alone by later changes of status or description, so it always equals
/// `created_at` on tasks that this library made.
#[derive(Debug, PartialEq, Eq)]
pub struct Task {
    pub id: TaskId,
    pub description: String,
    pub status: Status,
    pub created_at: Timestamp,
    pub updated_at: Timestamp,
}

/// What a task is, with its description as a sequence of characters.
pub ghost struct TaskView {
    pub id: TaskId,
    pub description: Seq<char>,
    pub status: Status,
    pub created_at: Timestamp,
    pub updated_at: Timestamp,
}

impl View for Task {
    type V = TaskView;

    open spec fn view(&self) -> TaskView {
        TaskView {
            id: self.id,
            description: self.description@,
            status: self.status,
            created_at: self.created_at,
            updated_at: self.updated_at,
        }
    }
}

impl DeepView for Task {
    type V = TaskView;

    open spec fn deep_view(&self) -> TaskView {
        self@
    }
}

/// The line of a listing: the identifier's text, a full stop and a space,
/// the description, and the status keyword in round brackets.
pub open spec fn line_of(id_text: Seq<char>, description: Seq<char>, status: Status) -> Seq<char> {
    id_text + ". "@ + description + " ("@ + status.keyword() + ")"@
}

impl TaskView {
    /// The task as `add` makes it: not started, both stamps at `now`.
    pub open spec fn created(id: TaskId, description: Seq<char>, now: Timestamp) -> TaskView {
        TaskView { id, description, status: Status::ToDo, created_at: now, updated_at: now }
    }

    /// The same task under another status.
    pub open spec fn with_status(self, status: Status) -> TaskView {
        TaskView { status, ..self }
    }

    /// The same task under another description.
    pub open spec fn with_description(self, description: Seq<char>) -> TaskView {
        TaskView { description, ..self }
    }

    /// The line that a listing prints for the task.
    pub open spec fn line(self) -> Seq<char> {
        line_of(self.id.text(), self.description, self.status)
    }
}

/// Puts the line of a listing together from the identifier's text, the
/// description and the status.
pub fn format_line(id_text: &str, description: &str, status: Status) -> (line: String)
    ensures
        line@ == line_of(id_text@, description@, status),
{
    let mut line = id_text.to_owned();
    line.append(". ");
    line.append(description);
    line.append(" (");
    line.append(status.as_str());
    line.append(")");
    line
}

impl Task {
    /// A new task: not started, created and updated at `now`.
    pub fn new(id: TaskId, description: String, now: Timestamp) -> (task: Task)
        ensures
            task@ == TaskView::created(id, description@, now),
    {
        Task { id, description, status: Status::ToDo, created_at: now, updated_at: now }
    }

    /// The line that a listing prints for the task.
    pub fn line(&self) -> (line: String)
        ensures
            line@ == self@.line(),
    {
        let id_text = self.id.to_string();
        format_line(id_text.as_str(), self.description.as_str(), self.status)
    }
}

impl Clone for Task {
    fn clone(&self) -> (copy: Task)
        ensures
            copy@ == self@,
    {
        Task {
            id: self.id,
            description: self.description.clone(),
            status: self.status,
            created_at: self.created_at,
            updated_at: self.updated_at,
        }
    }
}

} // verus!
