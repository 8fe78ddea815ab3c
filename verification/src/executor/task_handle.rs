//! The entries of the run queue.

use vstd::prelude::*;
use crate::executor::task_id::TaskId;

verus! {

/// A reference to a task, as it waits in the run queue.
pub struct TaskHandle {
    id: TaskId,
}

impl TaskHandle {
    pub closed spec fn task(&self) -> u64 {
        self.id.id
    }

    /// A handle for the task `id`.
    pub fn new(id: TaskId) -> (h: Self)
        ensures
            h.task() == id.id,
    {
        Self { id }
    }

    /// The identifier of the task the handle refers to.
    pub fn id(&self) -> (r: TaskId)
        ensures
            r.id == self.task(),
    {
        self.id
    }
}

} // verus!
