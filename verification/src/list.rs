//! The collection of tasks, in insertion order, and what each command does
//! to it.

use vstd::prelude::*;

use crate::clock::{utc_now, Timestamp};
use crate::id::{fresh_id, TaskId};
use crate::status::Status;
use crate::task::{Task, TaskView};

verus! {

/// Whether some task of `s` carries `id`.
pub open spec fn has_id(s: Seq<TaskView>, id: TaskId) -> bool {
    exists|i: int| 0 <= i < s.len() && (#[trigger] s[i]).id == id
}

/// Whether position `i` is the first one of `s` whose task carries `id`.
pub open spec fn is_first_with_id(s: Seq<TaskView>, id: TaskId, i: int) -> bool {
    &&& 0 <= i < s.len()
    &&& s[i].id == id
    &&& forall|j: int| 0 <= j < i ==> (#[trigger] s[j]).id != id
}

/// Whether no identifier occurs twice in `s`.
pub open spec fn ids_distinct(s: Seq<TaskView>) -> bool {
    forall|i: int, j: int| 0 <= i < j < s.len() ==> (#[trigger] s[i]).id != (#[trigger] s[j]).id
}

/// `s` after `mark`: the first task that carries `id` has the new status,
/// every other task is as it was.
pub open spec fn marked(s: Seq<TaskView>, id: TaskId, status: Status) -> Seq<TaskView> {
    Seq::new(
        s.len(),
        |i: int|
            if is_first_with_id(s, id, i) {
                s[i].with_status(status)
            } else {
                s[i]
            },
    )
}

/// `s` after `update`: the first task that carries `id` has the new
/// description, every other task is as it was.
pub open spec fn described(
    s: Seq<TaskView>,
    id: TaskId,
    description: Seq<char>,
) -> Seq<TaskView> {
    Seq::new(
        s.len(),
        |i: int|
            if is_first_with_id(s, id, i) {
                s[i].with_description(description)
            } else {
                s[i]
            },
    )
}

/// The test that a task passes unless it carries `id`.
pub open spec fn not_carrying(id: TaskId) -> spec_fn(TaskView) -> bool {
    |t: TaskView| t.id != id
}

/// The test that a task passes if its status is `status`.
pub open spec fn in_status(status: Status) -> spec_fn(TaskView) -> bool {
    |t: TaskView| t.status == status
}

/// `s` after `delete`: the tasks that do not carry `id`, in their order.
pub open spec fn without_id(s: Seq<TaskView>, id: TaskId) -> Seq<TaskView> {
    s.filter(not_carrying(id))
}

/// The tasks of `s` whose status is `status`, in their order.
pub open spec fn with_status(s: Seq<TaskView>, status: Status) -> Seq<TaskView> {
    s.filter(in_status(status))
}

/// What `list` shows: every task, or those of one status.
pub open spec fn listed(s: Seq<TaskView>, status: Option<Status>) -> Seq<TaskView> {
    match status {
        Some(wanted) => with_status(s, wanted),
        None => s,
    }
}

/// The lines of a listing of `s`: one for each task, in order.
pub open spec fn lines_of(s: Seq<TaskView>) -> Seq<Seq<char>> {
    s.map_values(|t: TaskView| t.line())
}

/// The tasks, oldest first.
#[derive(Debug, PartialEq, Eq)]
pub struct TaskList {
    pub tasks: Vec<Task>,
}

impl View for TaskList {
    type V = Seq<TaskView>;

    open spec fn view(&self) -> Seq<TaskView> {
        self.tasks.deep_view()
    }
}

proof fn lemma_without_id_step(s: Seq<TaskView>, id: TaskId, k: int)
    requires
        0 <= k < s.len(),
    ensures
        without_id(s.take(k + 1), id) == if s[k].id != id {
            without_id(s.take(k), id).push(s[k])
        } else {
            without_id(s.take(k), id)
        },
{
    reveal(Seq::filter);
    assert(s.take(k + 1).drop_last() =~= s.take(k));
}

proof fn lemma_with_status_step(s: Seq<TaskView>, status: Status, k: int)
    requires
        0 <= k < s.len(),
    ensures
        with_status(s.take(k + 1), status) == if s[k].status == status {
            with_status(s.take(k), status).push(s[k])
        } else {
            with_status(s.take(k), status)
        },
{
    reveal(Seq::filter);
    assert(s.take(k + 1).drop_last() =~= s.take(k));
}

impl TaskList {
    /// A collection without tasks.
    pub fn new() -> (list: TaskList)
        ensures
            list@ == Seq::<TaskView>::empty(),
    {
        let list = TaskList { tasks: Vec::new() };
        assert(list@ =~= Seq::<TaskView>::empty());
        list
    }

    /// The collection that a store hands over: the tasks it held, or none
    /// where nothing was ever stored, which stands for an empty collection.
    pub fn from_stored(stored: Option<Vec<Task>>) -> (list: TaskList)
        ensures
            list@ == match stored {
                Some(tasks) => tasks.deep_view(),
                None => Seq::<TaskView>::empty(),
            },
    {
        match stored {
            Some(tasks) => TaskList { tasks },
            None => TaskList::new(),
        }
    }

    /// The number of tasks.
    pub fn len(&self) -> (n: usize)
        ensures
            n == self@.len(),
    {
        self.tasks.len()
    }

    /// Appends a task that was made elsewhere.
    pub fn push(&mut self, task: Task)
        ensures
            final(self)@ == old(self)@.push(task@),
    {
        self.tasks.push(task);
        assert(self@ =~= old(self)@.push(task@));
    }

    /// Appends a new task with this identifier and description: not started,
    /// created and updated at `now`.
    pub fn add_with(&mut self, id: TaskId, description: String, now: Timestamp)
        ensures
            final(self)@ == old(self)@.push(TaskView::created(id, description@, now)),
    {
        self.push(Task::new(id, description, now));
    }

    /// Appends a new task with this description: not started, stamped with
    /// the current instant, under a newly drawn identifier, which is
    /// returned. The identifier and the instant come from outside, so the
    /// contract states what holds whichever they are.
    pub fn add(&mut self, description: String) -> (id: TaskId)
        ensures
            exists|now: Timestamp|
                final(self)@ == old(self)@.push(
                    #[trigger] TaskView::created(id, description@, now),
                ),
    {
        let id = fresh_id();
        let now = utc_now();
        self.add_with(id, description, now);
        id
    }

    /// Sets the status of the first task that carries `id`. Without such a
    /// task nothing changes.
    pub fn mark(&mut self, id: TaskId, status: Status)
        ensures
            final(self)@ == marked(old(self)@, id, status),
    {
        let n = self.tasks.len();
        let mut i: usize = 0;
        while i < n
            invariant
                i <= n,
                n == self.tasks@.len(),
                *self == *old(self),
                forall|j: int| 0 <= j < i ==> (#[trigger] self@[j]).id != id,
            decreases n - i,
        {
            if self.tasks[i].id == id {
                self.tasks[i].status = status;
                assert(is_first_with_id(old(self)@, id, i as int));
                assert(self@ =~= marked(old(self)@, id, status));
                return;
            }
            i = i + 1;
        }
        assert(self@ =~= marked(old(self)@, id, status));
    }

    /// Replaces the description of the first task that carries `id`.
    /// Without such a task nothing changes.
    pub fn update(&mut self, id: TaskId, description: String)
        ensures
            final(self)@ == described(old(self)@, id, description@),
    {
        let n = self.tasks.len();
        let mut i: usize = 0;
        while i < n
            invariant
                i <= n,
                n == self.tasks@.len(),
                *self == *old(self),
                forall|j: int| 0 <= j < i ==> (#[trigger] self@[j]).id != id,
            decreases n - i,
        {
            if self.tasks[i].id == id {
                self.tasks[i].description = description;
                assert(is_first_with_id(old(self)@, id, i as int));
                assert(self@ =~= described(old(self)@, id, description@));
                return;
            }
            i = i + 1;
        }
        assert(self@ =~= described(old(self)@, id, description@));
    }

    /// Removes every task that carries `id`; the others keep their order.
    pub fn delete(&mut self, id: TaskId)
        ensures
            final(self)@ == without_id(old(self)@, id),
    {
        let ghost before = self@;
        let ghost mut k: int = 0;
        let mut i: usize = 0;
        assert(before.take(0) =~= Seq::<TaskView>::empty());
        assert(without_id(before.take(0), id) =~= Seq::<TaskView>::empty()) by {
            reveal(Seq::filter);
        }
        while i < self.tasks.len()
            invariant
                before == old(self)@,
                0 <= i <= self.tasks@.len(),
                0 <= k <= before.len(),
                self.tasks@.len() - i == before.len() - k,
                self@.take(i as int) == without_id(before.take(k), id),
                self@.skip(i as int) == before.skip(k),
            decreases self.tasks@.len() - i,
        {
            proof {
                lemma_without_id_step(before, id, k);
                assert(self@[i as int] == self@.skip(i as int)[0]);
                assert(before[k] == before.skip(k)[0]);
            }
            let ghost current = self@;
            if self.tasks[i].id == id {
                self.tasks.remove(i);
                proof {
                    assert(self@.take(i as int) =~= current.take(i as int));
                    assert forall|j: int| 0 <= j < before.len() - k - 1 implies
                        self@.skip(i as int)[j] == before.skip(k + 1)[j] by {
                        assert(current.skip(i as int)[j + 1] == before.skip(k)[j + 1]);
                    }
                    assert(self@.skip(i as int) =~= before.skip(k + 1));
                    k = k + 1;
                }
            } else {
                i = i + 1;
                proof {
                    assert(self@.take(i as int) =~= current.take(i - 1).push(current[i - 1]));
                    assert forall|j: int| 0 <= j < before.len() - k - 1 implies
                        self@.skip(i as int)[j] == before.skip(k + 1)[j] by {
                        assert(current.skip(i - 1)[j + 1] == before.skip(k)[j + 1]);
                    }
                    assert(self@.skip(i as int) =~= before.skip(k + 1));
                    k = k + 1;
                }
            }
        }
        assert(self@.take(i as int) =~= self@);
        assert(before.take(k) =~= before);
    }

    /// The tasks whose status is `status`, copied in their order.
    pub fn filter(&self, status: Status) -> (found: TaskList)
        ensures
            found@ == with_status(self@, status),
    {
        let mut found = TaskList { tasks: Vec::new() };
        let n = self.tasks.len();
        let mut i: usize = 0;
        assert(self@.take(0) =~= Seq::<TaskView>::empty());
        assert(found@ =~= with_status(self@.take(0), status)) by {
            reveal(Seq::filter);
        }
        while i < n
            invariant
                i <= n,
                n == self.tasks@.len(),
                found@ == with_status(self@.take(i as int), status),
            decreases n - i,
        {
            proof {
                lemma_with_status_step(self@, status, i as int);
            }
            if self.tasks[i].status == status {
                found.push(self.tasks[i].clone());
            }
            i = i + 1;
        }
        assert(self@.take(n as int) =~= self@);
        found
    }

    /// A copy of the whole collection.
    pub fn duplicate(&self) -> (copy: TaskList)
        ensures
            copy@ == self@,
    {
        let mut copy = TaskList { tasks: Vec::new() };
        let n = self.tasks.len();
        let mut i: usize = 0;
        while i < n
            invariant
                i <= n,
                n == self.tasks@.len(),
                copy@ =~= self@.take(i as int),
            decreases n - i,
        {
            copy.push(self.tasks[i].clone());
            i = i + 1;
        }
        assert(self@.take(n as int) =~= self@);
        copy
    }

    /// What `list` shows: a copy of every task, or of those of one status.
    pub fn list(&self, status: Option<Status>) -> (shown: TaskList)
        ensures
            shown@ == listed(self@, status),
    {
        match status {
            Some(wanted) => self.filter(wanted),
            None => self.duplicate(),
        }
    }

    /// One line for each task, in the collection's order.
    pub fn lines(&self) -> (lines: Vec<String>)
        ensures
            lines.deep_view() == lines_of(self@),
    {
        let mut lines: Vec<String> = Vec::new();
        let n = self.tasks.len();
        let mut i: usize = 0;
        while i < n
            invariant
                i <= n,
                n == self.tasks@.len(),
                lines@.len() == i,
                forall|j: int| 0 <= j < i ==> (#[trigger] lines@[j])@ == self@[j].line(),
            decreases n - i,
        {
            lines.push(self.tasks[i].line());
            i = i + 1;
        }
        assert(lines.deep_view() =~= lines_of(self@));
        lines
    }
}

} // verus!
