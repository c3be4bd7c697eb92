//! `DeleteCommands`: tear a batch down.

use crate::database::delete_model;
use crate::database::Database;
use crate::laws::preserves;
use vstd::prelude::*;

verus! {

/// The request.
#[derive(Clone, Debug, PartialEq, Eq)]
pub struct Input {
    /// Command batch id.
    pub batch_id: String,
}

/// The response: nothing to report.
#[derive(Clone, Copy, Debug, PartialEq, Eq, Structural)]
pub struct Output {}

/// Handles a `DeleteCommands` request. It succeeds whether or not the
/// batch exists.
pub fn handle(req: &Input, database: &mut Database) -> (out: Output)
    ensures
        final(database)@ == delete_model(old(database)@, req.batch_id@),
        preserves(old(database)@, final(database)@),
{
    database.delete_commands(&req.batch_id)
}

} // verus!
