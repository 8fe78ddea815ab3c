//! The `taskmgr` command line: `add <task_name>` and `remove --id <id> [--force]`.

use vstd::prelude::*;
use vstd::string::*;
use crate::cli::AddArgs;
use crate::text::{decimal, push_decimal};

verus! {

/// The commands of `taskmgr`.
pub enum Commands {
    /// Add a new task to the list.
    Add(AddArgs),
    /// Remove a task.
    Remove {
        /// The number of the task to remove.
        id: u32,
        /// Remove without confirmation.
        force: bool,
    },
}

/// The line `taskmgr` prints for a command.
pub open spec fn report_text(cmd: &Commands) -> Seq<char> {
    match cmd {
        Commands::Add(args) => "Adding task: '"@ + args.task_name@ + "'"@,
        Commands::Remove { id, force } => if *force {
            "Forcefully removing task ID: "@ + decimal(*id as nat)
        } else {
            "Removing task ID: "@ + decimal(*id as nat)
        },
    }
}

/// The line `taskmgr` prints for a command; see `report_text`.
pub fn report(cmd: &Commands) -> (s: String)
    ensures
        s@ == report_text(cmd),
{
    match cmd {
        Commands::Add(args) => String::from_str("Adding task: '").concat(
            args.task_name.as_str(),
        ).concat("'"),
        Commands::Remove { id, force } => {
            let mut s = if *force {
                String::from_str("Forcefully removing task ID: ")
            } else {
                String::from_str("Removing task ID: ")
            };
            push_decimal(&mut s, *id as u64);
            s
        },
    }
}

} // verus!
