//! The data the command-line layer hands the store: one operation per run,
//! with its arguments as plain values.

use vstd::prelude::*;
use crate::task::Status;

verus! {

/// The whole command line.
pub struct Cli {
    pub command: Option<Commands>,
}

/// The top-level subcommands.
pub enum Commands {
    Tasks(TasksSubcommand),
}

/// The task subcommand: the file to work on, and the operation.
pub struct TasksSubcommand {
    pub file: Option<String>,
    pub command: Option<TaskCommands>,
}

/// The four operations on a task file.
pub enum TaskCommands {
    List(ListTasksArgs),
    Create(CreateTaskArgs),
    Update(UpdateTaskArgs),
    Delete(DeleteTaskArgs),
}

/// Arguments for creating a task.
pub struct CreateTaskArgs {
    pub name: String,
    pub text: Option<String>,
    pub status: Option<StatusArg>,
}

/// A status named on the command line.
#[derive(Copy, Debug, Clone, PartialEq, Eq)]
pub enum StatusArg {
    Doing,
    Done,
    Pending,
}

/// Arguments for updating a task in place; omitted fields are kept.
pub struct UpdateTaskArgs {
    pub id: usize,
    pub name: Option<String>,
    pub text: Option<String>,
    pub status: Option<StatusArg>,
}

/// Arguments for deleting a task.
pub struct DeleteTaskArgs {
    pub id: usize,
}

/// Arguments for listing tasks.
pub struct ListTasksArgs {
    pub number: Option<usize>,
}

/// The status a status argument selects.
pub open spec fn status_arg_view(s: StatusArg) -> Status {
    match s {
        StatusArg::Doing => Status::Doing,
        StatusArg::Pending => Status::Pending,
        StatusArg::Done => Status::Done,
    }
}

/// The status a creation argument yields: `Pending` when omitted.
pub open spec fn status_opt_view(s: Option<StatusArg>) -> Status {
    match s {
        Some(a) => status_arg_view(a),
        None => Status::Pending,
    }
}

/// Turn a status argument into the status it selects.
pub fn status_from_arg(s: StatusArg) -> (r: Status)
    ensures
        r == status_arg_view(s),
{
    match s {
        StatusArg::Doing => Status::Doing,
        StatusArg::Pending => Status::Pending,
        StatusArg::Done => Status::Done,
    }
}

} // verus!
