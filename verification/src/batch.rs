//! The life of one batch: its commands in order, each with its attempts.
//!
//! A batch is a list of commands that run strictly one after the other. The
//! first command that is not done is the current command; only its last
//! attempt can be waiting or running. Every transition is a total function
//! of the batch and the request, stated over the batch's view, and the
//! invariants of a batch are proved to survive every transition.

use crate::operations::complete_command;
use crate::operations::describe_command;
use crate::operations::describe_commands::BatchStatus;
use crate::operations::describe_commands::CommandStatus;
use crate::operations::dispatch_commands::channel_view;
use crate::operations::dispatch_commands::Channel;
use crate::operations::dispatch_commands::ChannelView;
use crate::operations::dispatch_commands::Command;
use crate::operations::dispatch_commands::CommandView;
use crate::operations::heartbeat_command;
use crate::operations::receive_commands;
use crate::operations::start_command;
use vstd::prelude::*;

verus! {

/// One try at executing a command.
#[derive(Debug)]
pub enum Attempt {
    /// Waiting for an executor since `available_at`.
    Available { available_at: usize },
    /// An executor holds the attempt under `attempt_token`.
    Started {
        attempt_token: String,
        nonce: String,
        available_at: usize,
        started_at: usize,
        last_heartbeat_at: usize,
        heartbeats: usize,
        heartbeat_interval_millis: usize,
    },
    /// The attempt is over.
    Done {
        attempt_token: String,
        nonce: String,
        available_at: usize,
        started_at: usize,
        complete_at: usize,
        heartbeats: usize,
        succeeded: bool,
        data: String,
    },
}

/// An attempt as plain data.
pub enum AttemptView {
    Available { available_at: usize },
    Started {
        attempt_token: Seq<char>,
        nonce: Seq<char>,
        available_at: usize,
        started_at: usize,
        last_heartbeat_at: usize,
        heartbeats: usize,
        heartbeat_interval_millis: usize,
    },
    Done {
        attempt_token: Seq<char>,
        nonce: Seq<char>,
        available_at: usize,
        started_at: usize,
        complete_at: usize,
        heartbeats: usize,
        succeeded: bool,
        data: Seq<char>,
    },
}

impl View for Attempt {
    type V = AttemptView;

    open spec fn view(&self) -> AttemptView {
        match self {
            Attempt::Available { available_at } => AttemptView::Available {
                available_at: *available_at,
            },
            Attempt::Started {
                attempt_token,
                nonce,
                available_at,
                started_at,
                last_heartbeat_at,
                heartbeats,
                heartbeat_interval_millis,
            } => AttemptView::Started {
                attempt_token: attempt_token@,
                nonce: nonce@,
                available_at: *available_at,
                started_at: *started_at,
                last_heartbeat_at: *last_heartbeat_at,
                heartbeats: *heartbeats,
                heartbeat_interval_millis: *heartbeat_interval_millis,
            },
            Attempt::Done {
                attempt_token,
                nonce,
                available_at,
                started_at,
                complete_at,
                heartbeats,
                succeeded,
                data,
            } => AttemptView::Done {
                attempt_token: attempt_token@,
                nonce: nonce@,
                available_at: *available_at,
                started_at: *started_at,
                complete_at: *complete_at,
                heartbeats: *heartbeats,
                succeeded: *succeeded,
                data: data@,
            },
        }
    }
}

/// The views of a list of attempts, in order.
pub open spec fn attempt_views(attempts: Seq<Attempt>) -> Seq<AttemptView> {
    Seq::new(attempts.len(), |i: int| attempts[i]@)
}

/// A command of a batch: what was submitted, and how far it has come.
#[derive(Debug)]
pub struct CommandRecord {
    pub definition: Command,
    pub status: CommandStatus,
    pub attempts: Vec<Attempt>,
}

/// A command of a batch as plain data.
pub struct CommandRecordView {
    pub definition: CommandView,
    pub status: CommandStatus,
    pub attempts: Seq<AttemptView>,
}

impl View for CommandRecord {
    type V = CommandRecordView;

    open spec fn view(&self) -> CommandRecordView {
        CommandRecordView {
            definition: self.definition@,
            status: self.status,
            attempts: attempt_views(self.attempts@),
        }
    }
}

/// The views of a list of command records, in order.
pub open spec fn record_views(commands: Seq<CommandRecord>) -> Seq<CommandRecordView> {
    Seq::new(commands.len(), |i: int| commands[i]@)
}

/// A batch: what was submitted, and the state of each command.
#[derive(Debug)]
pub struct BatchRecord {
    pub batch_id: String,
    pub target_name: String,
    pub nonce: String,
    pub batch_complete_notification: Option<Channel>,
    pub created_at: usize,
    pub commands: Vec<CommandRecord>,
}

/// A batch as plain data.
pub struct BatchView {
    pub batch_id: Seq<char>,
    pub target_name: Seq<char>,
    pub nonce: Seq<char>,
    pub batch_complete_notification: Option<ChannelView>,
    pub created_at: usize,
    pub commands: Seq<CommandRecordView>,
}

impl View for BatchRecord {
    type V = BatchView;

    open spec fn view(&self) -> BatchView {
        BatchView {
            batch_id: self.batch_id@,
            target_name: self.target_name@,
            nonce: self.nonce@,
            batch_complete_notification: channel_view(self.batch_complete_notification),
            created_at: self.created_at,
            commands: record_views(self.commands@),
        }
    }
}

/// Where a batch stands.
#[derive(Clone, Copy, Debug, PartialEq, Eq, Structural)]
pub enum Progress {
    /// The command at `current` is the one to run.
    Active { current: usize },
    /// Nothing more will run.
    Done { succeeded: bool },
}

/// A command that had to succeed and did not.
pub open spec fn required_failure(c: CommandRecordView) -> bool {
    c.definition.success_required && c.status == (CommandStatus::Done { succeeded: false })
}

/// Some command that had to succeed did not.
pub open spec fn has_required_failure(commands: Seq<CommandRecordView>) -> bool {
    exists|i: int| 0 <= i < commands.len() && required_failure(#[trigger] commands[i])
}

/// The index of the first command from `from` on that is not done, or the
/// number of commands if there is none.
pub open spec fn first_open(commands: Seq<CommandRecordView>, from: int) -> int
    decreases commands.len() - from,
{
    if from >= commands.len() {
        commands.len() as int
    } else if !(commands[from].status is Done) {
        from
    } else {
        first_open(commands, from + 1)
    }
}

/// Where a batch with these commands stands: failed as soon as a command
/// that had to succeed has failed, succeeded once every command is done, and
/// otherwise waiting on its first command that is not done.
pub open spec fn progress_of(commands: Seq<CommandRecordView>) -> Progress {
    if has_required_failure(commands) {
        Progress::Done { succeeded: false }
    } else if first_open(commands, 0) >= commands.len() {
        Progress::Done { succeeded: true }
    } else {
        Progress::Active { current: first_open(commands, 0) as usize }
    }
}

/// The status of a batch with these commands.
pub open spec fn status_of(commands: Seq<CommandRecordView>) -> BatchStatus {
    match progress_of(commands) {
        Progress::Active { .. } => BatchStatus::Active,
        Progress::Done { succeeded } => BatchStatus::Done { succeeded },
    }
}

/// `first_open` finds the first command that is not done.
pub proof fn lemma_first_open(commands: Seq<CommandRecordView>, from: int)
    requires
        0 <= from <= commands.len(),
    ensures
        from <= first_open(commands, from) <= commands.len(),
        forall|j: int|
            from <= j < first_open(commands, from) ==> (#[trigger] commands[j]).status is Done,
        first_open(commands, from) < commands.len() ==> !(commands[first_open(
            commands,
            from,
        )].status is Done),
    decreases commands.len() - from,
{
    if from < commands.len() && commands[from].status is Done {
        lemma_first_open(commands, from + 1);
    }
}

/// The first command that is not done is the only index with every command
/// before it done and itself not done.
pub proof fn lemma_first_open_is(commands: Seq<CommandRecordView>, k: int)
    requires
        0 <= k <= commands.len(),
        forall|j: int| 0 <= j < k ==> (#[trigger] commands[j]).status is Done,
        k < commands.len() ==> !(commands[k].status is Done),
    ensures
        first_open(commands, 0) == k,
{
    lemma_first_open(commands, 0);
    let f = first_open(commands, 0);
    if f < k {
        assert(commands[f].status is Done);
    } else if k < f {
        assert(commands[k].status is Done);
    }
}

impl BatchRecord {
    /// Where the batch stands.
    pub fn progress(&self) -> (p: Progress)
        ensures
            p == progress_of(self@.commands),
    {
        let ghost views = self@.commands;
        let n = self.commands.len();
        let mut failed = false;
        let mut open: usize = n;
        let mut i: usize = 0;
        while i < n
            invariant
                n == self.commands.len(),
                views == self@.commands,
                i <= n,
                failed <==> exists|j: int| 0 <= j < i && required_failure(#[trigger] views[j]),
                open <= n,
                open < n ==> open < i && !(views[open as int].status is Done),
                forall|j: int| 0 <= j < i && j < open ==> (#[trigger] views[j]).status is Done,
            decreases n - i,
        {
            let command = &self.commands[i];
            assert(views[i as int] == command@);
            match command.status {
                CommandStatus::Done { succeeded } => {
                    if !succeeded && command.definition.success_required {
                        failed = true;
                    }
                },
                _ => {
                    if open == n {
                        open = i;
                    }
                },
            }
            i = i + 1;
        }
        proof {
            lemma_first_open_is(views, open as int);
        }
        if failed {
            Progress::Done { succeeded: false }
        } else if open == n {
            Progress::Done { succeeded: true }
        } else {
            Progress::Active { current: open }
        }
    }

    /// The status of the batch.
    pub fn status(&self) -> (s: BatchStatus)
        ensures
            s == status_of(self@.commands),
    {
        match self.progress() {
            Progress::Active { .. } => BatchStatus::Active,
            Progress::Done { succeeded } => BatchStatus::Done { succeeded },
        }
    }
}

/// The number of attempts of a command that have been started, given that
/// only its last attempt can still be waiting.
pub open spec fn attempts_begun(attempts: Seq<AttemptView>) -> int {
    if attempts.len() > 0 && attempts.last() is Available {
        attempts.len() - 1
    } else {
        attempts.len() as int
    }
}

/// `commands` with the command at `index` replaced by `record`.
pub open spec fn with_command(b: BatchView, index: int, record: CommandRecordView) -> BatchView {
    BatchView { commands: b.commands.update(index, record), ..b }
}

/// `StartCommand` on one batch: the batch afterwards, the instruction, and
/// whether a new attempt was started.
///
/// Only the current command of an active batch can be started. If its last
/// attempt is held under the same nonce, the request is a retry and gets the
/// token that attempt already has. If it is held under another nonce, or is
/// over, the request is discarded. If it is waiting and the command has
/// attempts left, it becomes the started attempt under the new token.
pub open spec fn start_model(
    b: BatchView,
    index: usize,
    nonce: Seq<char>,
    attempt_token: Seq<char>,
    now: usize,
    heartbeat_interval_millis: usize,
) -> (BatchView, start_command::OutputView, bool) {
    let discard = (b, start_command::OutputView::Discard, false);
    match progress_of(b.commands) {
        Progress::Active { current } => {
            let c = b.commands[current as int];
            if index != current || c.attempts.len() == 0 {
                discard
            } else {
                match c.attempts.last() {
                    AttemptView::Started { attempt_token: held_token, nonce: held, .. } => {
                        if held == nonce {
                            (
                                b,
                                start_command::OutputView::Continue { attempt_token: held_token },
                                false,
                            )
                        } else {
                            discard
                        }
                    },
                    AttemptView::Available { available_at } => {
                        if attempts_begun(c.attempts) <= c.definition.max_retries {
                            let started = AttemptView::Started {
                                attempt_token,
                                nonce,
                                available_at,
                                started_at: now,
                                last_heartbeat_at: now,
                                heartbeats: 0,
                                heartbeat_interval_millis,
                            };
                            let record = CommandRecordView {
                                status: CommandStatus::Active,
                                attempts: c.attempts.drop_last().push(started),
                                ..c
                            };
                            (
                                with_command(b, current as int, record),
                                start_command::OutputView::Continue { attempt_token },
                                true,
                            )
                        } else {
                            discard
                        }
                    },
                    AttemptView::Done { .. } => discard,
                }
            }
        },
        Progress::Done { .. } => discard,
    }
}

/// What the last attempt of a command allows a start request to do.
enum Opening {
    /// Held under the request's nonce: hand the token out again.
    Retry { attempt_token: String },
    /// Waiting since `available_at`.
    Free { available_at: usize },
    /// Held by someone else, or over.
    Closed,
}

impl BatchRecord {
    /// `StartCommand` on this batch: the instruction, and whether a new
    /// attempt was started.
    pub fn start(
        &mut self,
        index: usize,
        nonce: &String,
        attempt_token: String,
        now: usize,
        heartbeat_interval_millis: usize,
    ) -> (r: (start_command::Output, bool))
        ensures
            (final(self)@, r.0@, r.1) == start_model(
                old(self)@,
                index,
                nonce@,
                attempt_token@,
                now,
                heartbeat_interval_millis,
            ),
    {
        let ghost before = self@;
        let current = match self.progress() {
            Progress::Active { current } => current,
            Progress::Done { .. } => {
                return (start_command::Output::Discard, false);
            },
        };
        proof {
            lemma_first_open(before.commands, 0);
        }
        let n = self.commands[current].attempts.len();
        assert(before.commands[current as int] == self.commands@[current as int]@);
        if index != current || n == 0 {
            return (start_command::Output::Discard, false);
        }
        let opening = match &self.commands[current].attempts[n - 1] {
            Attempt::Started { attempt_token: held_token, nonce: held, .. } => {
                if *held == *nonce {
                    Opening::Retry { attempt_token: held_token.clone() }
                } else {
                    Opening::Closed
                }
            },
            Attempt::Available { available_at } => Opening::Free { available_at: *available_at },
            Attempt::Done { .. } => Opening::Closed,
        };
        assert(before.commands[current as int].attempts.last()
            == self.commands@[current as int].attempts@[n - 1]@);
        match opening {
            Opening::Retry { attempt_token: held_token } => (
                start_command::Output::Continue { attempt_token: held_token },
                false,
            ),
            Opening::Closed => (start_command::Output::Discard, false),
            Opening::Free { available_at } => {
                if n - 1 <= self.commands[current].definition.max_retries {
                    let command = &mut self.commands[current];
                    command.attempts.pop();
                    command.attempts.push(
                        Attempt::Started {
                            attempt_token: attempt_token.clone(),
                            nonce: nonce.clone(),
                            available_at,
                            started_at: now,
                            last_heartbeat_at: now,
                            heartbeats: 0,
                            heartbeat_interval_millis,
                        },
                    );
                    command.status = CommandStatus::Active;
                    proof {
                        let c = before.commands[current as int];
                        let expected = start_model(
                            before,
                            index,
                            nonce@,
                            attempt_token@,
                            now,
                            heartbeat_interval_millis,
                        ).0;
                        assert(self.commands@[current as int]@.attempts
                            =~= expected.commands[current as int].attempts);
                        assert(self@.commands =~= expected.commands);
                    }
                    (start_command::Output::Continue { attempt_token }, true)
                } else {
                    (start_command::Output::Discard, false)
                }
            },
        }
    }
}

/// What the end of an attempt changed.
#[derive(Clone, Copy, Debug, PartialEq, Eq, Structural)]
pub struct Finished {
    /// The command whose attempt ended.
    pub command_index: usize,
    /// How the attempt ended.
    pub succeeded: bool,
    /// The command that got a new waiting attempt: the same command for a
    /// retry, the next one when the batch moved on.
    pub available: Option<usize>,
    /// How the batch ended, if this attempt ended it.
    pub batch_done: Option<bool>,
}

/// The outcome of a completion: the instruction for the executor, and what
/// changed, if anything did.
#[derive(Clone, Copy, Debug, PartialEq, Eq, Structural)]
pub struct Completion {
    pub instruction: complete_command::Output,
    pub finished: Option<Finished>,
}

/// The completion that changes nothing.
pub open spec fn nothing_finished() -> Completion {
    Completion { instruction: complete_command::Output::Discard, finished: None }
}

/// The end of the running attempt of the command at `current`.
///
/// The attempt is recorded as done. A success finishes the command, and so
/// does a failure that used up the last attempt; the batch then moves on to
/// the next command, unless the command had to succeed, which ends the
/// batch. A failure with attempts left puts a fresh attempt in line.
pub open spec fn finish_model(
    b: BatchView,
    current: int,
    success: bool,
    data: Seq<char>,
    now: usize,
) -> (BatchView, Completion) {
    let c = b.commands[current];
    if c.attempts.len() > 0 && c.attempts.last() is Started {
        let done = AttemptView::Done {
            attempt_token: c.attempts.last()->Started_attempt_token,
            nonce: c.attempts.last()->Started_nonce,
            available_at: c.attempts.last()->Started_available_at,
            started_at: c.attempts.last()->Started_started_at,
            complete_at: now,
            heartbeats: c.attempts.last()->Started_heartbeats,
            succeeded: success,
            data,
        };
        let attempts = c.attempts.drop_last().push(done);
        let exhausted = attempts.len() > c.definition.max_retries;
        if success || (exhausted && !c.definition.success_required) {
            let record = CommandRecordView {
                status: CommandStatus::Done { succeeded: success },
                attempts,
                ..c
            };
            let b1 = with_command(b, current, record);
            if current + 1 < b.commands.len() {
                let next = b.commands[current + 1];
                let promoted = CommandRecordView {
                    attempts: next.attempts.push(AttemptView::Available { available_at: now }),
                    ..next
                };
                (
                    with_command(b1, current + 1, promoted),
                    Completion {
                        instruction: complete_command::Output::NextCommand,
                        finished: Some(
                            Finished {
                                command_index: current as usize,
                                succeeded: success,
                                available: Some((current + 1) as usize),
                                batch_done: None,
                            },
                        ),
                    },
                )
            } else {
                (
                    b1,
                    Completion {
                        instruction: complete_command::Output::NextCommand,
                        finished: Some(
                            Finished {
                                command_index: current as usize,
                                succeeded: success,
                                available: None,
                                batch_done: Some(true),
                            },
                        ),
                    },
                )
            }
        } else if !exhausted {
            let record = CommandRecordView {
                status: CommandStatus::Active,
                attempts: attempts.push(AttemptView::Available { available_at: now }),
                ..c
            };
            (
                with_command(b, current, record),
                Completion {
                    instruction: complete_command::Output::SameCommand,
                    finished: Some(
                        Finished {
                            command_index: current as usize,
                            succeeded: false,
                            available: Some(current as usize),
                            batch_done: None,
                        },
                    ),
                },
            )
        } else {
            let record = CommandRecordView {
                status: CommandStatus::Done { succeeded: false },
                attempts,
                ..c
            };
            (
                with_command(b, current, record),
                Completion {
                    instruction: complete_command::Output::Discard,
                    finished: Some(
                        Finished {
                            command_index: current as usize,
                            succeeded: false,
                            available: None,
                            batch_done: Some(false),
                        },
                    ),
                },
            )
        }
    } else {
        (b, nothing_finished())
    }
}

/// A running attempt and the index of its command.
pub struct Running {
    pub index: int,
    pub attempt: AttemptView,
}

/// The attempt an executor can speak for: the running attempt of the
/// current command of an active batch.
pub open spec fn running_attempt(b: BatchView) -> Option<Running> {
    match progress_of(b.commands) {
        Progress::Active { current } => {
            let c = b.commands[current as int];
            if c.attempts.len() > 0 && c.attempts.last() is Started {
                Some(Running { index: current as int, attempt: c.attempts.last() })
            } else {
                None
            }
        },
        Progress::Done { .. } => None,
    }
}

/// `CompleteCommand` on one batch. A token other than that of the running
/// attempt changes nothing and is told to discard.
pub open spec fn complete_model(
    b: BatchView,
    attempt_token: Seq<char>,
    success: bool,
    data: Seq<char>,
    now: usize,
) -> (BatchView, Completion) {
    match running_attempt(b) {
        Some(Running { index: current, attempt }) => if attempt->Started_attempt_token == attempt_token {
            finish_model(b, current, success, data, now)
        } else {
            (b, nothing_finished())
        },
        None => (b, nothing_finished()),
    }
}

/// How long an attempt may go without a heartbeat: three heartbeat
/// intervals, or the grace period if that is longer.
pub open spec fn lease_millis(heartbeat_interval_millis: usize, grace_millis: usize) -> int {
    if 3 * heartbeat_interval_millis >= grace_millis {
        3 * heartbeat_interval_millis
    } else {
        grace_millis as int
    }
}

/// Whether the lease of a running attempt has run out at `now`.
pub open spec fn lease_expired(attempt: AttemptView, now: usize, grace_millis: usize) -> bool {
    attempt is Started && attempt->Started_last_heartbeat_at + lease_millis(
        attempt->Started_heartbeat_interval_millis,
        grace_millis,
    ) < now
}

/// Lease expiry on one batch: a running attempt whose lease has run out
/// ends as a failure without data. Anything else is left alone.
pub open spec fn expire_model(b: BatchView, now: usize, grace_millis: usize) -> (
    BatchView,
    Completion,
) {
    match running_attempt(b) {
        Some(Running { index: current, attempt }) => if lease_expired(attempt, now, grace_millis) {
            finish_model(b, current, false, Seq::empty(), now)
        } else {
            (b, nothing_finished())
        },
        None => (b, nothing_finished()),
    }
}

/// `n + 1`, staying at the top of the range.
pub open spec fn count_up(n: usize) -> usize {
    if n == usize::MAX {
        n
    } else {
        (n + 1) as usize
    }
}

/// `HeartbeatCommand` on one batch: the running attempt, if the token is
/// its own, notes the time and counts the heartbeat. Any other token
/// changes nothing and is told to discard.
pub open spec fn heartbeat_model(b: BatchView, attempt_token: Seq<char>, now: usize) -> (
    BatchView,
    heartbeat_command::Output,
) {
    match running_attempt(b) {
        Some(Running { index: current, attempt }) => if attempt->Started_attempt_token == attempt_token {
            let c = b.commands[current];
            let beaten = AttemptView::Started {
                attempt_token: attempt->Started_attempt_token,
                nonce: attempt->Started_nonce,
                available_at: attempt->Started_available_at,
                started_at: attempt->Started_started_at,
                last_heartbeat_at: now,
                heartbeats: count_up(attempt->Started_heartbeats),
                heartbeat_interval_millis: attempt->Started_heartbeat_interval_millis,
            };
            let record = CommandRecordView { attempts: c.attempts.drop_last().push(beaten), ..c };
            (with_command(b, current, record), heartbeat_command::Output::Continue)
        } else {
            (b, heartbeat_command::Output::Discard)
        },
        None => (b, heartbeat_command::Output::Discard),
    }
}

impl BatchRecord {
    /// The index of the command whose last attempt is running, if the batch
    /// is active and has one.
    fn running(&self) -> (r: Option<usize>)
        ensures
            match r {
                Some(current) => running_attempt(self@) == Some(
                    Running {
                        index: current as int,
                        attempt: self@.commands[current as int].attempts.last(),
                    },
                ) && current < self.commands@.len() && self.commands@[current as int].attempts@.len()
                    > 0,
                None => running_attempt(self@) is None,
            },
    {
        match self.progress() {
            Progress::Active { current } => {
                proof {
                    lemma_first_open(self@.commands, 0);
                }
                let command = &self.commands[current];
                assert(self@.commands[current as int] == command@);
                let n = command.attempts.len();
                if n == 0 {
                    return None;
                }
                assert(command@.attempts.last() == command.attempts@[n - 1]@);
                match &command.attempts[n - 1] {
                    Attempt::Started { .. } => Some(current),
                    _ => None,
                }
            },
            Progress::Done { .. } => None,
        }
    }

    /// Ends the running attempt of the command at `current`.
    fn finish(&mut self, current: usize, success: bool, data: String, now: usize) -> (r: Completion)
        requires
            current < old(self).commands@.len(),
        ensures
            (final(self)@, r) == finish_model(old(self)@, current as int, success, data@, now),
    {
        let ghost before = self@;
        let ghost expected = finish_model(before, current as int, success, data@, now).0;
        let count = self.commands.len();
        assert(before.commands[current as int] == self.commands@[current as int]@);
        let command = &mut self.commands[current];
        let ghost old_attempts = command.attempts@;
        match command.attempts.pop() {
            Some(
                Attempt::Started { attempt_token, nonce, available_at, started_at, heartbeats, .. },
            ) => {
                assert(attempt_views(old_attempts).last() == old_attempts.last()@);
                command.attempts.push(
                    Attempt::Done {
                        attempt_token,
                        nonce,
                        available_at,
                        started_at,
                        complete_at: now,
                        heartbeats,
                        succeeded: success,
                        data,
                    },
                );
                let exhausted = command.attempts.len() > command.definition.max_retries;
                if success || (exhausted && !command.definition.success_required) {
                    command.status = CommandStatus::Done { succeeded: success };
                    if current + 1 < count {
                        assert(before.commands[current + 1] == self.commands@[current + 1]@);
                        self.commands[current + 1].attempts.push(
                            Attempt::Available { available_at: now },
                        );
                        proof {
                            assert(self.commands@[current as int]@.attempts
                                =~= expected.commands[current as int].attempts);
                            assert(self.commands@[current + 1]@.attempts
                                =~= expected.commands[current + 1].attempts);
                            assert(self@.commands =~= expected.commands);
                        }
                        Completion {
                            instruction: complete_command::Output::NextCommand,
                            finished: Some(
                                Finished {
                                    command_index: current,
                                    succeeded: success,
                                    available: Some(current + 1),
                                    batch_done: None,
                                },
                            ),
                        }
                    } else {
                        proof {
                            assert(self.commands@[current as int]@.attempts
                                =~= expected.commands[current as int].attempts);
                            assert(self@.commands =~= expected.commands);
                        }
                        Completion {
                            instruction: complete_command::Output::NextCommand,
                            finished: Some(
                                Finished {
                                    command_index: current,
                                    succeeded: success,
                                    available: None,
                                    batch_done: Some(true),
                                },
                            ),
                        }
                    }
                } else if !exhausted {
                    command.attempts.push(Attempt::Available { available_at: now });
                    command.status = CommandStatus::Active;
                    proof {
                        assert(self.commands@[current as int]@.attempts
                            =~= expected.commands[current as int].attempts);
                        assert(self@.commands =~= expected.commands);
                    }
                    Completion {
                        instruction: complete_command::Output::SameCommand,
                        finished: Some(
                            Finished {
                                command_index: current,
                                succeeded: false,
                                available: Some(current),
                                batch_done: None,
                            },
                        ),
                    }
                } else {
                    command.status = CommandStatus::Done { succeeded: false };
                    proof {
                        assert(self.commands@[current as int]@.attempts
                            =~= expected.commands[current as int].attempts);
                        assert(self@.commands =~= expected.commands);
                    }
                    Completion {
                        instruction: complete_command::Output::Discard,
                        finished: Some(
                            Finished {
                                command_index: current,
                                succeeded: false,
                                available: None,
                                batch_done: Some(false),
                            },
                        ),
                    }
                }
            },
            Some(other) => {
                assert(attempt_views(old_attempts).last() == old_attempts.last()@);
                command.attempts.push(other);
                proof {
                    assert(self.commands@[current as int].attempts@ =~= old_attempts);
                    assert(self.commands@[current as int]@.attempts
                        =~= before.commands[current as int].attempts);
                    assert(self@.commands =~= before.commands);
                }
                Completion { instruction: complete_command::Output::Discard, finished: None }
            },
            None => {
                proof {
                    assert(self.commands@[current as int]@.attempts
                        =~= before.commands[current as int].attempts);
                    assert(self@.commands =~= before.commands);
                }
                Completion { instruction: complete_command::Output::Discard, finished: None }
            },
        }
    }

    /// `CompleteCommand` on this batch.
    pub fn complete(&mut self, attempt_token: &String, success: bool, data: String, now: usize) -> (r:
        Completion)
        ensures
            (final(self)@, r) == complete_model(old(self)@, attempt_token@, success, data@, now),
    {
        match self.running() {
            Some(current) => {
                let command = &self.commands[current];
                let n = command.attempts.len();
                assert(self@.commands[current as int] == command@);
                assert(command@.attempts.last() == command.attempts@[n - 1]@);
                let same = match &command.attempts[n - 1] {
                    Attempt::Started { attempt_token: held, .. } => *held == *attempt_token,
                    _ => false,
                };
                if same {
                    self.finish(current, success, data, now)
                } else {
                    Completion { instruction: complete_command::Output::Discard, finished: None }
                }
            },
            None => Completion { instruction: complete_command::Output::Discard, finished: None },
        }
    }
}

/// Whether the lease of an attempt last heard from at `last_heartbeat_at`
/// has run out at `now`.
pub fn lease_has_expired(
    last_heartbeat_at: usize,
    heartbeat_interval_millis: usize,
    grace_millis: usize,
    now: usize,
) -> (expired: bool)
    ensures
        expired == (last_heartbeat_at + lease_millis(heartbeat_interval_millis, grace_millis) < now),
{
    match heartbeat_interval_millis.checked_mul(3) {
        Some(triple) => {
            let lease = if triple >= grace_millis {
                triple
            } else {
                grace_millis
            };
            match last_heartbeat_at.checked_add(lease) {
                Some(deadline) => deadline < now,
                None => false,
            }
        },
        None => false,
    }
}

impl BatchRecord {
    /// Lease expiry on this batch.
    pub fn expire(&mut self, now: usize, grace_millis: usize) -> (r: Completion)
        ensures
            (final(self)@, r) == expire_model(old(self)@, now, grace_millis),
    {
        match self.running() {
            Some(current) => {
                let command = &self.commands[current];
                let n = command.attempts.len();
                assert(self@.commands[current as int] == command@);
                assert(command@.attempts.last() == command.attempts@[n - 1]@);
                let expired = match &command.attempts[n - 1] {
                    Attempt::Started {
                        last_heartbeat_at,
                        heartbeat_interval_millis,
                        ..
                    } => lease_has_expired(
                        *last_heartbeat_at,
                        *heartbeat_interval_millis,
                        grace_millis,
                        now,
                    ),
                    _ => false,
                };
                if expired {
                    let data = String::new();
                    assert(data@ =~= Seq::<char>::empty());
                    self.finish(current, false, data, now)
                } else {
                    Completion { instruction: complete_command::Output::Discard, finished: None }
                }
            },
            None => Completion { instruction: complete_command::Output::Discard, finished: None },
        }
    }

    /// `HeartbeatCommand` on this batch.
    pub fn heartbeat(&mut self, attempt_token: &String, now: usize) -> (r: heartbeat_command::Output)
        ensures
            (final(self)@, r) == heartbeat_model(old(self)@, attempt_token@, now),
    {
        let ghost before = self@;
        let ghost expected = heartbeat_model(before, attempt_token@, now).0;
        match self.running() {
            Some(current) => {
                assert(before.commands[current as int] == self.commands@[current as int]@);
                let command = &mut self.commands[current];
                let ghost old_attempts = command.attempts@;
                assert(attempt_views(old_attempts).last() == old_attempts.last()@);
                match command.attempts.pop() {
                    Some(
                        Attempt::Started {
                            attempt_token: held,
                            nonce,
                            available_at,
                            started_at,
                            last_heartbeat_at,
                            heartbeats,
                            heartbeat_interval_millis,
                        },
                    ) => {
                        let same = held == *attempt_token;
                        let counted = if heartbeats == usize::MAX {
                            heartbeats
                        } else {
                            heartbeats + 1
                        };
                        command.attempts.push(
                            Attempt::Started {
                                attempt_token: held,
                                nonce,
                                available_at,
                                started_at,
                                last_heartbeat_at: if same {
                                    now
                                } else {
                                    last_heartbeat_at
                                },
                                heartbeats: if same {
                                    counted
                                } else {
                                    heartbeats
                                },
                                heartbeat_interval_millis,
                            },
                        );
                        proof {
                            if same {
                                assert(self.commands@[current as int]@.attempts
                                    =~= expected.commands[current as int].attempts);
                                assert(self@.commands =~= expected.commands);
                            } else {
                                assert(self.commands@[current as int]@.attempts
                                    =~= before.commands[current as int].attempts);
                                assert(self@.commands =~= before.commands);
                            }
                        }
                        if same {
                            heartbeat_command::Output::Continue
                        } else {
                            heartbeat_command::Output::Discard
                        }
                    },
                    Some(other) => {
                        command.attempts.push(other);
                        proof {
                            assert(self.commands@[current as int].attempts@ =~= old_attempts);
                            assert(self.commands@[current as int]@.attempts
                                =~= before.commands[current as int].attempts);
                            assert(self@.commands =~= before.commands);
                        }
                        heartbeat_command::Output::Discard
                    },
                    None => {
                        proof {
                            assert(self.commands@[current as int]@.attempts
                                =~= before.commands[current as int].attempts);
                            assert(self@.commands =~= before.commands);
                        }
                        heartbeat_command::Output::Discard
                    },
                }
            },
            None => heartbeat_command::Output::Discard,
        }
    }
}

/// A fresh batch: every command inactive, and the first one with an attempt
/// waiting since `now`.
pub open spec fn new_batch(
    batch_id: Seq<char>,
    target_name: Seq<char>,
    nonce: Seq<char>,
    commands: Seq<CommandView>,
    batch_complete_notification: Option<ChannelView>,
    now: usize,
) -> BatchView {
    BatchView {
        batch_id,
        target_name,
        nonce,
        batch_complete_notification,
        created_at: now,
        commands: Seq::new(
            commands.len(),
            |i: int|
                CommandRecordView {
                    definition: commands[i],
                    status: CommandStatus::Inactive,
                    attempts: if i == 0 {
                        seq![AttemptView::Available { available_at: now }]
                    } else {
                        Seq::empty()
                    },
                },
        ),
    }
}

impl BatchRecord {
    /// Creates the batch for a submission.
    pub fn new(
        batch_id: String,
        target_name: String,
        nonce: String,
        commands: &Vec<Command>,
        batch_complete_notification: Option<Channel>,
        now: usize,
    ) -> (r: BatchRecord)
        ensures
            r@ == new_batch(
                batch_id@,
                target_name@,
                nonce@,
                crate::operations::dispatch_commands::command_views(commands@),
                channel_view(batch_complete_notification),
                now,
            ),
    {
        let ghost expected = new_batch(
            batch_id@,
            target_name@,
            nonce@,
            crate::operations::dispatch_commands::command_views(commands@),
            channel_view(batch_complete_notification),
            now,
        );
        let mut records: Vec<CommandRecord> = Vec::new();
        let mut i: usize = 0;
        while i < commands.len()
            invariant
                i <= commands.len(),
                records@.len() == i,
                expected.commands.len() == commands.len(),
                forall|j: int| 0 <= j < i ==> (#[trigger] records@[j])@ == expected.commands[j],
                forall|j: int|
                    0 <= j < commands.len() ==> (#[trigger] expected.commands[j]).definition
                        == commands@[j]@,
                forall|j: int|
                    0 <= j < commands.len() ==> (#[trigger] expected.commands[j]).status
                        == CommandStatus::Inactive,
                expected.commands.len() > 0 ==> expected.commands[0].attempts
                    == seq![AttemptView::Available { available_at: now }],
                forall|j: int|
                    0 < j < commands.len() ==> (#[trigger] expected.commands[j]).attempts
                        == Seq::<AttemptView>::empty(),
            decreases commands.len() - i,
        {
            let mut attempts: Vec<Attempt> = Vec::new();
            if i == 0 {
                attempts.push(Attempt::Available { available_at: now });
            }
            let record = CommandRecord {
                definition: commands[i].duplicate(),
                status: CommandStatus::Inactive,
                attempts,
            };
            assert(record@.attempts =~= expected.commands[i as int].attempts);
            records.push(record);
            i = i + 1;
        }
        let r = BatchRecord {
            batch_id,
            target_name,
            nonce,
            batch_complete_notification,
            created_at: now,
            commands: records,
        };
        assert(r@.commands =~= expected.commands);
        r
    }
}

/// The status of an attempt as it is reported: without its token.
pub open spec fn attempt_status(a: AttemptView) -> describe_command::AttemptStatusView {
    match a {
        AttemptView::Available { available_at } => describe_command::AttemptStatusView::Available {
            available_epoch_millis: available_at,
        },
        AttemptView::Started {
            available_at,
            started_at,
            heartbeats,
            ..
        } => describe_command::AttemptStatusView::Started {
            heartbeats,
            available_epoch_millis: available_at,
            start_epoch_millis: started_at,
        },
        AttemptView::Done {
            available_at,
            started_at,
            complete_at,
            heartbeats,
            succeeded,
            data,
            ..
        } => describe_command::AttemptStatusView::Done {
            data,
            succeeded,
            heartbeats,
            available_epoch_millis: available_at,
            start_epoch_millis: started_at,
            complete_epoch_millis: complete_at,
        },
    }
}

/// The status of a command as `DescribeCommand` reports it.
pub open spec fn reported_status(s: CommandStatus) -> describe_command::CommandStatus {
    match s {
        CommandStatus::Inactive => describe_command::CommandStatus::Inactive,
        CommandStatus::Active => describe_command::CommandStatus::Active,
        CommandStatus::Done { succeeded } => describe_command::CommandStatus::Done { succeeded },
    }
}

/// `DescribeCommand` on one batch: the command's status and that of each of
/// its attempts, or nothing if the batch has no command at `index`.
pub open spec fn describe_command_model(b: BatchView, index: usize) -> Option<
    describe_command::OutputView,
> {
    if index < b.commands.len() {
        let c = b.commands[index as int];
        Some(
            describe_command::OutputView {
                command: reported_status(c.status),
                attempts: c.attempts.map_values(|a: AttemptView| attempt_status(a)),
            },
        )
    } else {
        None
    }
}

/// The command an executor polling at `now` is given from a batch: the
/// current command of an active batch, if its last attempt is waiting and
/// either the command is still inactive or the attempt has reached its
/// time.
pub open spec fn pending_model(b: BatchView, now: usize, heartbeat_interval_millis: usize) -> Option<
    receive_commands::CommandView,
> {
    match progress_of(b.commands) {
        Progress::Active { current } => {
            let c = b.commands[current as int];
            if c.attempts.len() > 0 && c.attempts.last() is Available && (c.status
                == CommandStatus::Inactive || c.attempts.last()->Available_available_at <= now) {
                Some(
                    receive_commands::CommandView {
                        index: current,
                        name: c.definition.name,
                        data: c.definition.data,
                        heartbeat_interval_millis,
                    },
                )
            } else {
                None
            }
        },
        Progress::Done { .. } => None,
    }
}

/// The views of an optional pending command.
pub open spec fn pending_view(c: Option<receive_commands::Command>) -> Option<
    receive_commands::CommandView,
> {
    match c {
        Some(c) => Some(c@),
        None => None,
    }
}

/// The view of an optional description.
pub open spec fn description_view(d: Option<describe_command::Output>) -> Option<
    describe_command::OutputView,
> {
    match d {
        Some(d) => Some(d@),
        None => None,
    }
}

impl BatchRecord {
    /// The status of every command, in order.
    pub fn command_statuses(&self) -> (r: Vec<CommandStatus>)
        ensures
            r@ == self@.commands.map_values(|c: CommandRecordView| c.status),
    {
        let mut r: Vec<CommandStatus> = Vec::new();
        let mut i: usize = 0;
        while i < self.commands.len()
            invariant
                i <= self.commands.len(),
                r@.len() == i,
                forall|j: int| 0 <= j < i ==> r@[j] == self.commands@[j].status,
            decreases self.commands.len() - i,
        {
            r.push(self.commands[i].status);
            i = i + 1;
        }
        assert(r@ =~= self@.commands.map_values(|c: CommandRecordView| c.status));
        r
    }

    /// `DescribeCommand` on this batch.
    pub fn describe_command(&self, index: usize) -> (r: Option<describe_command::Output>)
        ensures
            description_view(r) == describe_command_model(self@, index),
    {
        if index >= self.commands.len() {
            return None;
        }
        let command = &self.commands[index];
        assert(self@.commands[index as int] == command@);
        let mut attempts: Vec<describe_command::AttemptStatus> = Vec::new();
        let mut i: usize = 0;
        while i < command.attempts.len()
            invariant
                i <= command.attempts.len(),
                attempts@.len() == i,
                forall|j: int|
                    0 <= j < i ==> (#[trigger] attempts@[j])@ == attempt_status(
                        command.attempts@[j]@,
                    ),
            decreases command.attempts.len() - i,
        {
            let status = match &command.attempts[i] {
                Attempt::Available { available_at } => describe_command::AttemptStatus::Available {
                    available_epoch_millis: *available_at,
                },
                Attempt::Started {
                    available_at,
                    started_at,
                    heartbeats,
                    ..
                } => describe_command::AttemptStatus::Started {
                    heartbeats: *heartbeats,
                    available_epoch_millis: *available_at,
                    start_epoch_millis: *started_at,
                },
                Attempt::Done {
                    available_at,
                    started_at,
                    complete_at,
                    heartbeats,
                    succeeded,
                    data,
                    ..
                } => describe_command::AttemptStatus::Done {
                    data: data.clone(),
                    succeeded: *succeeded,
                    heartbeats: *heartbeats,
                    available_epoch_millis: *available_at,
                    start_epoch_millis: *started_at,
                    complete_epoch_millis: *complete_at,
                },
            };
            attempts.push(status);
            i = i + 1;
        }
        let status = match command.status {
            CommandStatus::Inactive => describe_command::CommandStatus::Inactive,
            CommandStatus::Active => describe_command::CommandStatus::Active,
            CommandStatus::Done { succeeded } => describe_command::CommandStatus::Done {
                succeeded,
            },
        };
        let r = describe_command::Output { command: status, attempts };
        assert(r@.attempts =~= command@.attempts.map_values(|a: AttemptView| attempt_status(a)));
        Some(r)
    }

    /// The command an executor polling at `now` is given from this batch.
    pub fn pending(&self, now: usize, heartbeat_interval_millis: usize) -> (r: Option<
        receive_commands::Command,
    >)
        ensures
            pending_view(r) == pending_model(self@, now, heartbeat_interval_millis),
    {
        match self.progress() {
            Progress::Active { current } => {
                proof {
                    lemma_first_open(self@.commands, 0);
                }
                let command = &self.commands[current];
                assert(self@.commands[current as int] == command@);
                let n = command.attempts.len();
                if n == 0 {
                    return None;
                }
                assert(command@.attempts.last() == command.attempts@[n - 1]@);
                let waiting = match &command.attempts[n - 1] {
                    Attempt::Available { available_at } => {
                        matches!(command.status, CommandStatus::Inactive) || *available_at <= now
                    },
                    _ => false,
                };
                if waiting {
                    Some(
                        receive_commands::Command {
                            index: current,
                            name: command.definition.name.clone(),
                            data: command.definition.data.clone(),
                            heartbeat_interval_millis,
                        },
                    )
                } else {
                    None
                }
            },
            Progress::Done { .. } => None,
        }
    }
}

} // verus!
