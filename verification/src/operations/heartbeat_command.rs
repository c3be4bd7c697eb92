//! `HeartbeatCommand`: an executor reports that its attempt is still alive.

use crate::database::heartbeat_command_model;
use crate::database::Database;
use crate::laws::preserves;
use vstd::prelude::*;

verus! {

/// The request.
#[derive(Clone, Debug, PartialEq, Eq)]
pub struct Input {
    /// Command batch id.
    pub batch_id: String,
    /// Attempt token.
    pub attempt_token: String,
}

/// The instruction to the executor.
#[derive(Clone, Copy, Debug, PartialEq, Eq, Structural)]
pub enum Output {
    /// Cancel the running command if possible, and drop the whole batch.
    Discard,
    /// Go on with executing the command.
    Continue,
}

/// Handles a `HeartbeatCommand` request at `now`.
pub fn handle(req: &Input, now: usize, database: &mut Database) -> (out: Output)
    ensures
        (final(database)@, out) == heartbeat_command_model(
            old(database)@,
            req.batch_id@,
            req.attempt_token@,
            now,
        ),
        preserves(old(database)@, final(database)@),
{
    database.heartbeat_command(&req.batch_id, &req.attempt_token, now)
}

} // verus!
