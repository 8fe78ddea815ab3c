//! The record the scheduler keeps for each spawned task.

use vstd::prelude::*;
use crate::executor::task_id::TaskId;

verus! {

/// The life cycle of a task.
#[derive(Debug, Clone, Copy, PartialEq, Eq, Structural)]
pub enum TaskStatus {
    Init,
    Pending,
    Running,
    Completed,
    Failed,
}

/// What the scheduler knows of a task, as plain values.
pub struct TaskView {
    pub id: u64,
    pub name: Seq<char>,
    pub status: TaskStatus,
}

/// A task's identifier, name and status. The future that does the task's
/// work is held by whoever drives the scheduler, keyed by the identifier.
pub struct TaskLocal {
    id: TaskId,
    name: String,
    state: TaskStatus,
}

impl View for TaskLocal {
    type V = TaskView;

    open spec fn view(&self) -> TaskView {
        self.task_view()
    }
}

impl TaskLocal {
    pub closed spec fn task_view(&self) -> TaskView {
        TaskView { id: self.id.id, name: self.name@, status: self.state }
    }

    /// A new task record, in status `Init`.
    pub fn new(id: TaskId, name: String) -> (t: Self)
        ensures
            t@ == (TaskView { id: id.id, name: name@, status: TaskStatus::Init }),
    {
        Self { id, state: TaskStatus::Init, name }
    }

    /// Sets the status, keeping identifier and name.
    pub fn set_status(&mut self, st: TaskStatus)
        ensures
            final(self)@ == (TaskView { status: st, ..old(self)@ }),
    {
        self.state = st;
    }

    /// The task's identifier.
    pub fn id(&self) -> (r: TaskId)
        ensures
            r.id == self@.id,
    {
        self.id
    }

    /// The task's name.
    pub fn name(&self) -> (r: &str)
        ensures
            r@ == self@.name,
    {
        self.name.as_str()
    }

    /// The task's status.
    pub fn status(&self) -> (r: TaskStatus)
        ensures
            r == self@.status,
    {
        self.state
    }
}

} // verus!
