//! Identifiers of spawned tasks.

use vstd::prelude::*;
use crate::text::{decimal, with_decimal};

verus! {

/// The identifier of a task. Two identifiers are equal when their numbers are.
#[derive(Debug, Clone, Copy, PartialEq, Eq, Structural, PartialOrd, Ord, Hash)]
pub struct TaskId {
    pub id: u64,
}

impl TaskId {
    /// Wraps a task number.
    pub fn new(id: u64) -> (r: Self)
        ensures
            r.id == id,
    {
        Self { id }
    }

    /// The task number inside the identifier.
    pub fn as_u32(self) -> (r: u64)
        ensures
            r == self.id,
    {
        self.id
    }

    /// The text shown for the identifier: `Task #` and the number in decimal.
    pub fn label(&self) -> (s: String)
        ensures
            s@ == "Task #"@ + decimal(self.id as nat),
    {
        with_decimal("Task #", self.id)
    }
}

} // verus!
