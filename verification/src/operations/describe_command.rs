//! `DescribeCommand`: the status of one command and of each of its attempts.

use crate::batch::description_view;
use crate::database::describe_one_model;
use crate::database::Database;
use vstd::prelude::*;

verus! {

/// The request.
#[derive(Clone, Debug, PartialEq, Eq)]
pub struct Input {
    /// Command batch id.
    pub batch_id: String,
    /// 0-based index of the command within the batch.
    pub command_index: usize,
}

/// The response.
#[derive(Clone, Debug, PartialEq, Eq)]
pub struct Output {
    /// Overall status of the command.
    pub command: CommandStatus,
    /// A status for every attempt of the command, oldest first.
    pub attempts: Vec<AttemptStatus>,
}

/// Status of the command.
#[derive(Clone, Copy, Debug, PartialEq, Eq, Structural)]
pub enum CommandStatus {
    /// No attempt has been started.
    Inactive,
    /// An attempt has been started and the command is not finished.
    Active,
    /// The command is finished.
    Done { succeeded: bool },
}

/// Status of one attempt.
#[derive(Clone, Debug, PartialEq, Eq)]
pub enum AttemptStatus {
    /// The attempt is waiting for an executor.
    Available { available_epoch_millis: usize },
    /// An executor is working on the attempt.
    Started { heartbeats: usize, available_epoch_millis: usize, start_epoch_millis: usize },
    /// The attempt is over.
    Done {
        data: String,
        succeeded: bool,
        heartbeats: usize,
        available_epoch_millis: usize,
        start_epoch_millis: usize,
        complete_epoch_millis: usize,
    },
}

/// An attempt status as plain data.
pub enum AttemptStatusView {
    Available { available_epoch_millis: usize },
    Started { heartbeats: usize, available_epoch_millis: usize, start_epoch_millis: usize },
    Done {
        data: Seq<char>,
        succeeded: bool,
        heartbeats: usize,
        available_epoch_millis: usize,
        start_epoch_millis: usize,
        complete_epoch_millis: usize,
    },
}

impl View for AttemptStatus {
    type V = AttemptStatusView;

    open spec fn view(&self) -> AttemptStatusView {
        match self {
            AttemptStatus::Available { available_epoch_millis } => AttemptStatusView::Available {
                available_epoch_millis: *available_epoch_millis,
            },
            AttemptStatus::Started {
                heartbeats,
                available_epoch_millis,
                start_epoch_millis,
            } => AttemptStatusView::Started {
                heartbeats: *heartbeats,
                available_epoch_millis: *available_epoch_millis,
                start_epoch_millis: *start_epoch_millis,
            },
            AttemptStatus::Done {
                data,
                succeeded,
                heartbeats,
                available_epoch_millis,
                start_epoch_millis,
                complete_epoch_millis,
            } => AttemptStatusView::Done {
                data: data@,
                succeeded: *succeeded,
                heartbeats: *heartbeats,
                available_epoch_millis: *available_epoch_millis,
                start_epoch_millis: *start_epoch_millis,
                complete_epoch_millis: *complete_epoch_millis,
            },
        }
    }
}

/// The response as plain data.
pub struct OutputView {
    pub command: CommandStatus,
    pub attempts: Seq<AttemptStatusView>,
}

impl View for Output {
    type V = OutputView;

    open spec fn view(&self) -> OutputView {
        OutputView {
            command: self.command,
            attempts: Seq::new(self.attempts@.len(), |i: int| self.attempts@[i]@),
        }
    }
}

/// Handles a `DescribeCommand` request: the statuses, or `None` for an
/// unknown batch or command.
pub fn handle(req: &Input, database: &Database) -> (out: Option<Output>)
    ensures
        description_view(out) == describe_one_model(database@, req.batch_id@, req.command_index),
{
    database.describe_command(&req.batch_id, req.command_index)
}

} // verus!
