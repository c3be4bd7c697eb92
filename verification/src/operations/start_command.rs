//! `StartCommand`: an executor asks to begin an attempt of a command.

use crate::database::start_command_model;
use crate::database::Database;
use crate::laws::preserves;
use crate::ids::random_id;
use crate::ids::ID_LENGTH;
use vstd::prelude::*;

verus! {

/// The request.
#[derive(Clone, Debug, PartialEq, Eq)]
pub struct Input {
    /// Command batch id.
    pub batch_id: String,
    /// Index of the command within the batch that is being started.
    pub command_index: usize,
    /// Retry nonce: a client that retries the request sends the same nonce.
    pub nonce: String,
}

/// The instruction to the executor.
#[derive(Clone, Debug, PartialEq, Eq)]
pub enum Output {
    /// Do not execute the command; drop the whole batch.
    Discard,
    /// Go on with executing the command under this attempt token.
    Continue { attempt_token: String },
}

/// The instruction as plain data.
pub enum OutputView {
    Discard,
    Continue { attempt_token: Seq<char> },
}

impl View for Output {
    type V = OutputView;

    open spec fn view(&self) -> OutputView {
        match self {
            Output::Discard => OutputView::Discard,
            Output::Continue { attempt_token } => OutputView::Continue {
                attempt_token: attempt_token@,
            },
        }
    }
}

/// Handles a `StartCommand` request at `now`.
///
/// A fresh attempt token is drawn for the case that an attempt is started,
/// so the outcome is that of `start_command_model` for some fresh token.
pub fn handle(req: &Input, now: usize, database: &mut Database) -> (out: Output)
    ensures
        exists|fresh: Seq<char>|
            fresh.len() == ID_LENGTH && (final(database)@, out@) == #[trigger] start_command_model(
                old(database)@,
                req.batch_id@,
                req.command_index,
                req.nonce@,
                fresh,
                now,
            ),
        preserves(old(database)@, final(database)@),
{
    let attempt_token = random_id();
    database.start_command(&req.batch_id, req.command_index, &req.nonce, attempt_token, now)
}

} // verus!
