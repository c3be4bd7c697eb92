//! `ReceiveCommands`: an executor long-polls a target for work.

use crate::database::deadline_for;
use crate::database::poll_deadline;
use crate::database::poll_model;
use crate::database::Database;
use crate::laws::preserves;
use crate::waiters::string_views;
use vstd::prelude::*;

verus! {

/// The request.
#[derive(Clone, Debug, PartialEq, Eq)]
pub struct Input {
    /// The target whose outstanding commands are received.
    pub target_name: String,
    /// Batch ids not to return, because the client already knows them.
    pub exclude_batches: Vec<String>,
    /// The constraint groups the client is part of.
    pub group_membership: Vec<String>,
    /// The longest the client is willing to wait for the poll to return.
    pub timeout_millis: usize,
}

/// The response.
#[derive(Clone, Debug, PartialEq, Eq)]
pub struct Output {
    /// Every returned batch is an independent work track.
    pub command_batches: Vec<Batch>,
}

/// One batch with work to do.
#[derive(Clone, Debug, PartialEq, Eq)]
pub struct Batch {
    /// Unique id of the command batch.
    pub id: String,
    /// The commands to execute, in order. The service hands out the pending
    /// command only, and enforces the order in the per-command operations.
    pub commands: Vec<Command>,
}

/// A command as an executor sees it: without retry settings, which stay
/// with the service.
#[derive(Clone, Debug, PartialEq, Eq)]
pub struct Command {
    /// Index within the batch. Not guaranteed to start at 0.
    pub index: usize,
    /// Freeform command name.
    pub name: String,
    /// Freeform command data.
    pub data: String,
    /// How often to heartbeat the command while it executes.
    pub heartbeat_interval_millis: usize,
}

/// A command for an executor as plain data.
pub struct CommandView {
    pub index: usize,
    pub name: Seq<char>,
    pub data: Seq<char>,
    pub heartbeat_interval_millis: usize,
}

impl View for Command {
    type V = CommandView;

    open spec fn view(&self) -> CommandView {
        CommandView {
            index: self.index,
            name: self.name@,
            data: self.data@,
            heartbeat_interval_millis: self.heartbeat_interval_millis,
        }
    }
}

/// A batch for an executor as plain data.
pub struct BatchView {
    pub id: Seq<char>,
    pub commands: Seq<CommandView>,
}

impl View for Batch {
    type V = BatchView;

    open spec fn view(&self) -> BatchView {
        BatchView {
            id: self.id@,
            commands: Seq::new(self.commands@.len(), |i: int| self.commands@[i]@),
        }
    }
}

/// The response as plain data: the batches, in order.
pub open spec fn batch_views(batches: Seq<Batch>) -> Seq<BatchView> {
    Seq::new(batches.len(), |i: int| batches[i]@)
}

/// How a poll went.
#[derive(Debug)]
pub enum Polled {
    /// Answer the executor now, with these batches.
    Ready(Output),
    /// Nothing to hand out yet: the poll is parked as `waiter` and gives up
    /// at `deadline`.
    Parked { waiter: u64, deadline: usize },
}

/// How a poll went, as plain data.
pub enum PolledView {
    Ready(Seq<BatchView>),
    Parked { waiter: u64, deadline: usize },
}

impl View for Polled {
    type V = PolledView;

    open spec fn view(&self) -> PolledView {
        match self {
            Polled::Ready(output) => PolledView::Ready(batch_views(output.command_batches@)),
            Polled::Parked { waiter, deadline } => PolledView::Parked {
                waiter: *waiter,
                deadline: *deadline,
            },
        }
    }
}

/// Handles a `ReceiveCommands` request that arrives at `now`: answers it
/// at once if there is work, and parks it otherwise, until the time it
/// asks for has passed.
pub fn handle(req: &Input, now: usize, database: &mut Database) -> (out: Polled)
    ensures
        (final(database)@, out@) == poll_model(
            old(database)@,
            req.target_name@,
            string_views(req.exclude_batches@),
            string_views(req.group_membership@),
            poll_deadline(now, req.timeout_millis),
            now,
        ),
        preserves(old(database)@, final(database)@),
{
    let deadline = deadline_for(now, req.timeout_millis);
    database.poll(req, deadline, now)
}

/// Looks again for a poll that was woken at `now`: answers it if there is
/// work or its deadline has come, and parks it again otherwise.
pub fn resume(req: &Input, deadline: usize, now: usize, database: &mut Database) -> (out: Polled)
    ensures
        (final(database)@, out@) == poll_model(
            old(database)@,
            req.target_name@,
            string_views(req.exclude_batches@),
            string_views(req.group_membership@),
            deadline,
            now,
        ),
        preserves(old(database)@, final(database)@),
{
    database.poll(req, deadline, now)
}

} // verus!
