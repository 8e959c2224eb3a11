use vstd::prelude::*;

verus! {

/// What a task is, as a mathematical value.
pub struct TaskModel {
    /// `None` until the persistence layer has assigned a durable identity.
    pub id: Option<i64>,
    pub description: Seq<char>,
    pub status: bool,
}

impl TaskModel {
    pub open spec fn with_status(self, status: bool) -> TaskModel {
        TaskModel { status, ..self }
    }

    pub open spec fn with_id(self, id: i64) -> TaskModel {
        TaskModel { id: Some(id), ..self }
    }
}

/// A single to-do item.
pub struct Task {
    /// The durable identity, or `None` while the task has not been persisted.
    pub id: Option<i64>,
    pub description: String,
    /// `true` once the task is completed.
    pub status: bool,
}

impl View for Task {
    type V = TaskModel;

    open spec fn view(&self) -> TaskModel {
        TaskModel { id: self.id, description: self.description@, status: self.status }
    }
}

/// The text shown before a task's description: `[x]` when done, `[ ]` otherwise.
pub open spec fn status_mark(status: bool) -> Seq<char> {
    if status {
        seq!['[', 'x', ']']
    } else {
        seq!['[', ' ', ']']
    }
}

/// One rendered row of the task list: the status mark, a space, the description.
pub open spec fn line_of(t: TaskModel) -> Seq<char> {
    status_mark(t.status) + seq![' '] + t.description
}

impl Task {
    /// A new, not yet persisted, open task.
    pub fn new(description: String) -> (t: Task)
        ensures
            t@ == (TaskModel { id: None, description: description@, status: false }),
    {
        Task { id: None, description, status: false }
    }

    /// The status mark, a space, then the description.
    pub fn line(&self) -> (r: String)
        ensures
            r@ == line_of(self@),
    {
        let mark = if self.status {
            String::from_str("[x] ")
        } else {
            String::from_str("[ ] ")
        };
        proof {
            reveal_strlit("[x] ");
            reveal_strlit("[ ] ");
            assert(status_mark(self.status) + seq![' '] =~= mark@);
        }
        mark.concat(self.description.as_str())
    }
}

impl Clone for Task {
    fn clone(&self) -> (r: Task)
        ensures
            r@ == self@,
    {
        Task { id: self.id, description: self.description.clone(), status: self.status }
    }
}

} // verus!
