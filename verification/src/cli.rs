//! The decisions of two small task-manager command lines: what each parsed
//! command reports.

pub mod subcmd2;
pub mod taskmgr;

use vstd::prelude::*;

verus! {

/// The arguments of the `add` command.
pub struct AddArgs {
    /// The description of the task.
    pub task_name: String,
}

} // verus!
