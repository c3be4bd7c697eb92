//! `DescribeCommands`: the status of a batch and of each of its commands.

use crate::database::batch_description_view;
use crate::database::describe_commands_model;
use crate::database::Database;
use vstd::prelude::*;

verus! {

/// The request.
#[derive(Clone, Debug, PartialEq, Eq)]
pub struct Input {
    /// Command batch id.
    pub batch_id: String,
}

/// The response.
#[derive(Clone, Debug, PartialEq, Eq)]
pub struct Output {
    /// Overall status of the batch.
    pub batch: BatchStatus,
    /// A status for every command in the batch.
    pub commands: Vec<CommandStatus>,
}

/// Overall status of a batch.
#[derive(Clone, Copy, Debug, PartialEq, Eq, Structural)]
pub enum BatchStatus {
    /// Some command is still to be run.
    Active,
    /// Nothing more will run.
    Done { succeeded: bool },
}

/// Status of one command.
#[derive(Clone, Copy, Debug, PartialEq, Eq, Structural)]
pub enum CommandStatus {
    /// No attempt has been started.
    Inactive,
    /// An attempt has been started and the command is not finished.
    Active,
    /// The command is finished.
    Done { succeeded: bool },
}

/// Handles a `DescribeCommands` request: the statuses, or `None` for an
/// unknown batch.
pub fn handle(req: &Input, database: &Database) -> (out: Option<Output>)
    ensures
        batch_description_view(out) == describe_commands_model(database@, req.batch_id@),
{
    database.describe_commands(&req.batch_id)
}

} // verus!
