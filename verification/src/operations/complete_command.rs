//! `CompleteCommand`: an executor reports how its attempt ended.

use crate::database::complete_command_model;
use crate::database::data_view;
use crate::database::Database;
use crate::laws::preserves;
use vstd::prelude::*;

verus! {

/// The request.
#[derive(Clone, Debug, PartialEq, Eq)]
pub struct Input {
    /// Command batch id.
    pub batch_id: String,
    /// Attempt token.
    pub attempt_token: String,
    /// True if the command succeeded, false if it failed.
    pub success: bool,
    /// Completion data, for successful and failed attempts alike.
    pub data: Option<String>,
}

/// The instruction to the executor.
#[derive(Clone, Copy, Debug, PartialEq, Eq, Structural)]
pub enum Output {
    /// Drop the whole batch from the worklist.
    Discard,
    /// Proceed to the next command; if there is none, drop the batch.
    NextCommand,
    /// Try the same command again.
    SameCommand,
}

/// Handles a `CompleteCommand` request at `now`.
pub fn handle(req: &Input, now: usize, database: &mut Database) -> (out: Output)
    ensures
        (final(database)@, out) == complete_command_model(
            old(database)@,
            req.batch_id@,
            req.attempt_token@,
            req.success,
            data_view(req.data),
            now,
        ),
        preserves(old(database)@, final(database)@),
{
    let data = match &req.data {
        Some(text) => Some(text.clone()),
        None => None,
    };
    database.complete_command(&req.batch_id, &req.attempt_token, req.success, data, now)
}

} // verus!
