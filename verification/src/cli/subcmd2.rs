//! The `subcmd2` command line: global flags, then optionally `add <task_name>`
//! or `remove --id <id>`.

use vstd::prelude::*;
use vstd::string::*;
use crate::cli::AddArgs;
use crate::text::{decimal, push_decimal};

verus! {

/// The commands of `subcmd2`.
pub enum Commands {
    /// Add a new task to the list.
    Add(AddArgs),
    /// Remove a task.
    Remove {
        /// The number of the task to remove.
        id: u32,
    },
}

/// The line `subcmd2` prints when it runs a command.
pub open spec fn execution_text(cmd: &Commands) -> Seq<char> {
    match cmd {
        Commands::Add(args) => "Executing 'add' with task: '"@ + args.task_name@ + "'"@,
        Commands::Remove { id } => "Executing 'remove' for task ID: "@ + decimal(*id as nat),
    }
}

/// The line `subcmd2` prints when it runs a command; see `execution_text`.
pub fn execution_report(cmd: &Commands) -> (s: String)
    ensures
        s@ == execution_text(cmd),
{
    match cmd {
        Commands::Add(args) => String::from_str("Executing 'add' with task: '").concat(
            args.task_name.as_str(),
        ).concat("'"),
        Commands::Remove { id } => {
            let mut s = String::from_str("Executing 'remove' for task ID: ");
            push_decimal(&mut s, *id as u64);
            s
        },
    }
}

/// The line `subcmd2` prints for its `--verbose` flag.
pub fn verbose_line(verbose: bool) -> (s: String)
    ensures
        s@ == "Verbose Mode: "@ + if verbose { "true"@ } else { "false"@ },
{
    String::from_str("Verbose Mode: ").concat(if verbose { "true" } else { "false" })
}

} // verus!
