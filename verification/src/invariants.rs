//! What always holds of a batch, and the proofs that every transition keeps
//! it so.

use crate::batch::AttemptView;
use crate::batch::BatchView;
use crate::batch::CommandRecordView;
use crate::batch::Progress;
use crate::batch::attempts_begun;
use crate::batch::complete_model;
use crate::batch::expire_model;
use crate::batch::finish_model;
use crate::batch::first_open;
use crate::batch::has_required_failure;
use crate::batch::heartbeat_model;
use crate::batch::lemma_first_open;
use crate::batch::lemma_first_open_is;
use crate::batch::new_batch;
use crate::batch::nothing_finished;
use crate::batch::progress_of;
use crate::batch::required_failure;
use crate::batch::running_attempt;
use crate::batch::start_model;
use crate::batch::status_of;
use crate::batch::with_command;
use crate::operations::complete_command;
use crate::operations::describe_commands::BatchStatus;
use crate::operations::describe_commands::CommandStatus;
use crate::operations::dispatch_commands::ChannelView;
use crate::operations::dispatch_commands::CommandView;
use crate::operations::heartbeat_command;
use crate::operations::start_command;
use vstd::prelude::*;

verus! {

/// An attempt that ended in failure.
pub open spec fn failed_attempt(a: AttemptView) -> bool {
    a is Done && !a->Done_succeeded
}

/// A command nothing has happened to yet.
pub open spec fn untouched(c: CommandRecordView) -> bool {
    c.status == CommandStatus::Inactive && c.attempts.len() == 0
}

/// What holds of every command:
/// it has at most `max_retries + 1` attempts; all but the last of them have
/// failed; and its status says what its last attempt is. An inactive
/// command has no attempt, or a single one that is waiting. An active
/// command has a running attempt, or a retry that is waiting. A finished
/// command ended with its last attempt, and if it failed, it had used up
/// all its attempts.
pub open spec fn command_wf(c: CommandRecordView) -> bool {
    &&& c.attempts.len() <= c.definition.max_retries + 1
    &&& forall|j: int| 0 <= j < c.attempts.len() - 1 ==> failed_attempt(#[trigger] c.attempts[j])
    &&& match c.status {
        CommandStatus::Inactive => c.attempts.len() == 0 || (c.attempts.len() == 1
            && c.attempts[0] is Available),
        CommandStatus::Active => c.attempts.len() >= 1 && (c.attempts.last() is Started || (
        c.attempts.last() is Available && c.attempts.len() >= 2)),
        CommandStatus::Done { succeeded } => c.attempts.len() >= 1 && c.attempts.last() is Done
            && c.attempts.last()->Done_succeeded == succeeded && (!succeeded ==> c.attempts.len()
            == c.definition.max_retries + 1),
    }
}

/// What holds of every batch: its commands are well formed and run in
/// order. With `k` the first command that is not done, every command after
/// `k` is untouched, and no command before `k - 1` is a required failure.
/// If the command at `k - 1` is a required failure the batch stopped there
/// and the command at `k` is untouched as well; otherwise the command at
/// `k` has been given an attempt.
pub open spec fn batch_wf(b: BatchView) -> bool {
    let k = first_open(b.commands, 0);
    &&& forall|i: int| 0 <= i < b.commands.len() ==> command_wf(#[trigger] b.commands[i])
    &&& forall|i: int| k < i < b.commands.len() ==> untouched(#[trigger] b.commands[i])
    &&& forall|i: int| 0 <= i < k - 1 ==> !required_failure(#[trigger] b.commands[i])
    &&& if k >= 1 && required_failure(b.commands[k - 1]) {
        k < b.commands.len() ==> untouched(b.commands[k])
    } else {
        k < b.commands.len() ==> b.commands[k].attempts.len() >= 1
    }
}

/// The attempt at position `j` of the command at `i` is running.
pub open spec fn started_at(b: BatchView, i: int, j: int) -> bool {
    &&& 0 <= i < b.commands.len()
    &&& 0 <= j < b.commands[i].attempts.len()
    &&& b.commands[i].attempts[j] is Started
}

/// A well-formed batch has at most one running attempt: any two running
/// attempts are the same attempt of the same command. That command is the
/// current command of the batch, and the batch is active.
pub proof fn lemma_at_most_one_started(b: BatchView, i1: int, j1: int, i2: int, j2: int)
    requires
        batch_wf(b),
        started_at(b, i1, j1),
        started_at(b, i2, j2),
    ensures
        i1 == i2,
        j1 == j2,
        progress_of(b.commands) == (Progress::Active { current: i1 as usize }),
{
    lemma_started_is_current(b, i1, j1);
    lemma_started_is_current(b, i2, j2);
}

/// In a well-formed batch a running attempt is the last attempt of the
/// current command, and the batch is active.
pub proof fn lemma_started_is_current(b: BatchView, i: int, j: int)
    requires
        batch_wf(b),
        started_at(b, i, j),
    ensures
        i == first_open(b.commands, 0),
        j == b.commands[i].attempts.len() - 1,
        progress_of(b.commands) == (Progress::Active { current: i as usize }),
{
    lemma_first_open(b.commands, 0);
    let k = first_open(b.commands, 0);
    let c = b.commands[i];
    assert(command_wf(c));
    if j < c.attempts.len() - 1 {
        assert(failed_attempt(c.attempts[j]));
    }
    assert(c.status == CommandStatus::Active);
    if i > k {
        assert(untouched(b.commands[i]));
    }
    if i < k {
        assert(b.commands[i].status is Done);
    }
    if has_required_failure(b.commands) {
        let f = choose|f: int| 0 <= f < b.commands.len() && required_failure(#[trigger] b.commands[f]);
        if f > k {
            assert(untouched(b.commands[f]));
        }
        assert(f != k);
        if f < k - 1 {
            assert(!required_failure(b.commands[f]));
        }
        assert(f == k - 1);
        assert(untouched(b.commands[k]));
    }
}

/// In a well-formed batch at most one command is active: an active
/// command is the current command of the batch, and the batch is active.
pub proof fn lemma_active_is_current(b: BatchView, i: int)
    requires
        batch_wf(b),
        0 <= i < b.commands.len(),
        b.commands[i].status == CommandStatus::Active,
    ensures
        progress_of(b.commands) == (Progress::Active { current: i as usize }),
{
    lemma_first_open(b.commands, 0);
    let k = first_open(b.commands, 0);
    assert(command_wf(b.commands[i]));
    if i > k {
        assert(untouched(b.commands[i]));
    }
    if i < k {
        assert(b.commands[i].status is Done);
    }
    if has_required_failure(b.commands) {
        let f = choose|f: int| 0 <= f < b.commands.len() && required_failure(#[trigger] b.commands[f]);
        if f > k {
            assert(untouched(b.commands[f]));
        }
        if f < k - 1 {
            assert(!required_failure(b.commands[f]));
        }
        assert(untouched(b.commands[k]));
    }
}

/// In a well-formed batch no command has more than `max_retries + 1`
/// attempts.
pub proof fn lemma_attempts_capped(b: BatchView, i: int)
    requires
        batch_wf(b),
        0 <= i < b.commands.len(),
    ensures
        b.commands[i].attempts.len() <= b.commands[i].definition.max_retries + 1,
        attempts_begun(b.commands[i].attempts) <= b.commands[i].definition.max_retries + 1,
{
    assert(command_wf(b.commands[i]));
}

/// A fresh batch is well formed, every command of it is inactive, and it
/// is active unless it is empty.
pub proof fn lemma_new_batch_wf(
    batch_id: Seq<char>,
    target_name: Seq<char>,
    nonce: Seq<char>,
    commands: Seq<CommandView>,
    batch_complete_notification: Option<ChannelView>,
    now: usize,
)
    ensures
        batch_wf(
            new_batch(batch_id, target_name, nonce, commands, batch_complete_notification, now),
        ),
        forall|i: int|
            0 <= i < commands.len() ==> (#[trigger] new_batch(
                batch_id,
                target_name,
                nonce,
                commands,
                batch_complete_notification,
                now,
            ).commands[i]).status == CommandStatus::Inactive,
        commands.len() > 0 ==> status_of(
            new_batch(
                batch_id,
                target_name,
                nonce,
                commands,
                batch_complete_notification,
                now,
            ).commands,
        ) == BatchStatus::Active,
{
    let b = new_batch(batch_id, target_name, nonce, commands, batch_complete_notification, now);
    lemma_first_open(b.commands, 0);
    if commands.len() > 0 {
        lemma_first_open_is(b.commands, 0);
    }
    assert forall|i: int| 0 <= i < b.commands.len() implies !required_failure(
        #[trigger] b.commands[i],
    ) by {}
}

/// The first open command does not move when the command there is replaced
/// by one that is not done either.
pub proof fn lemma_first_open_kept(b: BatchView, record: CommandRecordView)
    requires
        first_open(b.commands, 0) < b.commands.len(),
        !(record.status is Done),
    ensures
        first_open(with_command(b, first_open(b.commands, 0), record).commands, 0) == first_open(
            b.commands,
            0,
        ),
{
    lemma_first_open(b.commands, 0);
    let k = first_open(b.commands, 0);
    let after = with_command(b, k, record).commands;
    assert forall|j: int| 0 <= j < k implies (#[trigger] after[j]).status is Done by {
        assert(b.commands[j].status is Done);
    }
    lemma_first_open_is(after, k);
}

/// `StartCommand` keeps a batch well formed.
pub proof fn lemma_start_keeps_wf(
    b: BatchView,
    index: usize,
    nonce: Seq<char>,
    attempt_token: Seq<char>,
    now: usize,
    heartbeat_interval_millis: usize,
)
    requires
        batch_wf(b),
    ensures
        batch_wf(start_model(b, index, nonce, attempt_token, now, heartbeat_interval_millis).0),
{
    let after = start_model(b, index, nonce, attempt_token, now, heartbeat_interval_millis).0;
    if after != b {
        lemma_first_open(b.commands, 0);
        let k = first_open(b.commands, 0);
        let record = after.commands[k];
        lemma_first_open_kept(b, record);
        assert(command_wf(b.commands[k]));
        assert forall|i: int| 0 <= i < after.commands.len() implies command_wf(
            #[trigger] after.commands[i],
        ) by {
            if i != k {
                assert(command_wf(b.commands[i]));
            } else {
                assert forall|j: int| 0 <= j < record.attempts.len() - 1 implies failed_attempt(
                    #[trigger] record.attempts[j],
                ) by {
                    assert(failed_attempt(b.commands[k].attempts[j]));
                }
            }
        }
        assert forall|i: int| k < i < after.commands.len() implies untouched(
            #[trigger] after.commands[i],
        ) by {
            assert(untouched(b.commands[i]));
        }
        assert forall|i: int| 0 <= i < k - 1 implies !required_failure(
            #[trigger] after.commands[i],
        ) by {
            assert(!required_failure(b.commands[i]));
        }
        if k >= 1 {
            assert(after.commands[k - 1] == b.commands[k - 1]);
            assert(!required_failure(b.commands[k - 1]));
        }
    }
}

/// `HeartbeatCommand` keeps a batch well formed.
pub proof fn lemma_heartbeat_keeps_wf(b: BatchView, attempt_token: Seq<char>, now: usize)
    requires
        batch_wf(b),
    ensures
        batch_wf(heartbeat_model(b, attempt_token, now).0),
{
    let after = heartbeat_model(b, attempt_token, now).0;
    if after != b {
        lemma_first_open(b.commands, 0);
        let k = first_open(b.commands, 0);
        let record = after.commands[k];
        lemma_first_open_kept(b, record);
        assert(command_wf(b.commands[k]));
        assert forall|i: int| 0 <= i < after.commands.len() implies command_wf(
            #[trigger] after.commands[i],
        ) by {
            if i != k {
                assert(command_wf(b.commands[i]));
            } else {
                assert forall|j: int| 0 <= j < record.attempts.len() - 1 implies failed_attempt(
                    #[trigger] record.attempts[j],
                ) by {
                    assert(failed_attempt(b.commands[k].attempts[j]));
                }
            }
        }
        assert forall|i: int| k < i < after.commands.len() implies untouched(
            #[trigger] after.commands[i],
        ) by {
            assert(untouched(b.commands[i]));
        }
        assert forall|i: int| 0 <= i < k - 1 implies !required_failure(
            #[trigger] after.commands[i],
        ) by {
            assert(!required_failure(b.commands[i]));
        }
        if k >= 1 {
            assert(after.commands[k - 1] == b.commands[k - 1]);
            assert(!required_failure(b.commands[k - 1]));
        }
    }
}

/// The end of the running attempt keeps a batch well formed.
pub proof fn lemma_finish_keeps_wf(
    b: BatchView,
    current: int,
    success: bool,
    data: Seq<char>,
    now: usize,
)
    requires
        batch_wf(b),
        running_attempt(b) is Some,
        running_attempt(b).unwrap().index == current,
    ensures
        batch_wf(finish_model(b, current, success, data, now).0),
{
    lemma_first_open(b.commands, 0);
    let k = first_open(b.commands, 0);
    let n = b.commands.len() as int;
    let c = b.commands[k];
    let after = finish_model(b, current, success, data, now).0;
    let record = after.commands[k];
    assert(command_wf(c));
    assert(!has_required_failure(b.commands));
    assert forall|i: int| 0 <= i < n implies !required_failure(#[trigger] b.commands[i]) by {}
    assert forall|j: int| 0 <= j < c.attempts.len() - 1 implies failed_attempt(
        #[trigger] record.attempts[j],
    ) by {
        assert(failed_attempt(c.attempts[j]));
    }
    assert(command_wf(record));
    assert forall|i: int| 0 <= i < n && i != k && i != k + 1 implies after.commands[i]
        == b.commands[i] by {}
    if record.status is Done {
        let promoted = !required_failure(record) && k + 1 < n;
        if k + 1 < n {
            assert(untouched(b.commands[k + 1]));
            assert(!(after.commands[k + 1].status is Done));
            assert(command_wf(b.commands[k + 1]));
        }
        let k2 = if k + 1 < n {
            k + 1
        } else {
            n
        };
        assert forall|j: int| 0 <= j < k2 implies (#[trigger] after.commands[j]).status is Done by {
            if j < k {
                assert(b.commands[j].status is Done);
            }
        }
        lemma_first_open_is(after.commands, k2);
        assert forall|i: int| 0 <= i < n implies command_wf(#[trigger] after.commands[i]) by {
            if i != k && i != k + 1 {
                assert(command_wf(b.commands[i]));
            }
        }
        assert forall|i: int| k2 < i < n implies untouched(#[trigger] after.commands[i]) by {
            assert(untouched(b.commands[i]));
        }
        assert forall|i: int| 0 <= i < k2 - 1 implies !required_failure(
            #[trigger] after.commands[i],
        ) by {
            assert(!required_failure(b.commands[i]));
        }
    } else {
        lemma_first_open_kept(b, record);
        assert forall|i: int| 0 <= i < n implies command_wf(#[trigger] after.commands[i]) by {
            if i != k {
                assert(command_wf(b.commands[i]));
            }
        }
        assert forall|i: int| k < i < n implies untouched(#[trigger] after.commands[i]) by {
            assert(untouched(b.commands[i]));
        }
        assert forall|i: int| 0 <= i < k - 1 implies !required_failure(
            #[trigger] after.commands[i],
        ) by {
            assert(!required_failure(b.commands[i]));
        }
        if k >= 1 {
            assert(!required_failure(b.commands[k - 1]));
        }
    }
}

/// `CompleteCommand` keeps a batch well formed.
pub proof fn lemma_complete_keeps_wf(
    b: BatchView,
    attempt_token: Seq<char>,
    success: bool,
    data: Seq<char>,
    now: usize,
)
    requires
        batch_wf(b),
    ensures
        batch_wf(complete_model(b, attempt_token, success, data, now).0),
{
    if complete_model(b, attempt_token, success, data, now).0 != b {
        lemma_finish_keeps_wf(b, running_attempt(b).unwrap().index, success, data, now);
    }
}

/// Lease expiry keeps a batch well formed.
pub proof fn lemma_expire_keeps_wf(b: BatchView, now: usize, grace_millis: usize)
    requires
        batch_wf(b),
    ensures
        batch_wf(expire_model(b, now, grace_millis).0),
{
    if expire_model(b, now, grace_millis).0 != b {
        lemma_finish_keeps_wf(b, running_attempt(b).unwrap().index, false, Seq::empty(), now);
    }
}

/// Once a batch is done, no transition changes it, and every request is
/// told to discard.
pub proof fn lemma_done_is_final(
    b: BatchView,
    index: usize,
    nonce: Seq<char>,
    attempt_token: Seq<char>,
    success: bool,
    data: Seq<char>,
    now: usize,
    heartbeat_interval_millis: usize,
    grace_millis: usize,
)
    requires
        status_of(b.commands) is Done,
    ensures
        start_model(b, index, nonce, attempt_token, now, heartbeat_interval_millis) == (
            b,
            start_command::OutputView::Discard,
            false,
        ),
        heartbeat_model(b, attempt_token, now) == (b, heartbeat_command::Output::Discard),
        complete_model(b, attempt_token, success, data, now) == (b, nothing_finished()),
        expire_model(b, now, grace_millis) == (b, nothing_finished()),
{
}

/// A token other than that of the running attempt changes nothing: a
/// heartbeat or a completion under it is told to discard.
pub proof fn lemma_stale_token_discarded(
    b: BatchView,
    attempt_token: Seq<char>,
    success: bool,
    data: Seq<char>,
    now: usize,
)
    requires
        running_attempt(b) is None || running_attempt(b).unwrap().attempt->Started_attempt_token
            != attempt_token,
    ensures
        heartbeat_model(b, attempt_token, now) == (b, heartbeat_command::Output::Discard),
        complete_model(b, attempt_token, success, data, now) == (b, nothing_finished()),
{
}

/// A batch ends in failure exactly when a command that had to succeed has
/// failed, and in success exactly when every command is done and none of
/// those that had to succeed has failed.
pub proof fn lemma_batch_termination(b: BatchView)
    ensures
        status_of(b.commands) == (BatchStatus::Done { succeeded: false }) <==> has_required_failure(
            b.commands,
        ),
        status_of(b.commands) == (BatchStatus::Done { succeeded: true }) <==> (
        !has_required_failure(b.commands) && forall|i: int|
            0 <= i < b.commands.len() ==> (#[trigger] b.commands[i]).status is Done),
{
    lemma_first_open(b.commands, 0);
    if forall|i: int| 0 <= i < b.commands.len() ==> (#[trigger] b.commands[i]).status is Done {
        lemma_first_open_is(b.commands, b.commands.len() as int);
    }
}

/// What an executor brings to one start and one successful completion.
pub struct Turn {
    pub nonce: Seq<char>,
    pub attempt_token: Seq<char>,
    pub data: Seq<char>,
    pub started_at: usize,
    pub completed_at: usize,
    pub heartbeat_interval_millis: usize,
}

/// The batch after the command at `index` was started and then completed
/// with success.
pub open spec fn succeed_once(b: BatchView, index: usize, t: Turn) -> BatchView {
    complete_model(
        start_model(
            b,
            index,
            t.nonce,
            t.attempt_token,
            t.started_at,
            t.heartbeat_interval_millis,
        ).0,
        t.attempt_token,
        true,
        t.data,
        t.completed_at,
    ).0
}

/// The batch after its first `turns.len()` commands were each started and
/// completed with success, in order.
pub open spec fn successful_run(b: BatchView, turns: Seq<Turn>) -> BatchView
    decreases turns.len(),
{
    if turns.len() == 0 {
        b
    } else {
        succeed_once(
            successful_run(b, turns.drop_last()),
            (turns.len() - 1) as usize,
            turns.last(),
        )
    }
}

/// The first `j` commands have succeeded, the command at `j` waits for its
/// first attempt, and the rest are untouched.
pub open spec fn succeeded_up_to(b: BatchView, j: int) -> bool {
    &&& 0 <= j <= b.commands.len()
    &&& forall|i: int|
        0 <= i < j ==> (#[trigger] b.commands[i]).status == (CommandStatus::Done {
            succeeded: true,
        })
    &&& j < b.commands.len() ==> b.commands[j].status == CommandStatus::Inactive
        && b.commands[j].attempts.len() == 1 && b.commands[j].attempts[0] is Available
    &&& forall|i: int| j < i < b.commands.len() ==> untouched(#[trigger] b.commands[i])
}

/// Starting the waiting command and completing it with success moves the
/// batch one command on: the start is told to continue under its token, and
/// the completion is told to go to the next command.
pub proof fn lemma_succeed_once(b: BatchView, j: int, t: Turn)
    requires
        succeeded_up_to(b, j),
        j < b.commands.len(),
        b.commands.len() <= usize::MAX,
    ensures
        start_model(
            b,
            j as usize,
            t.nonce,
            t.attempt_token,
            t.started_at,
            t.heartbeat_interval_millis,
        ).1 == (start_command::OutputView::Continue { attempt_token: t.attempt_token }),
        complete_model(
            start_model(
                b,
                j as usize,
                t.nonce,
                t.attempt_token,
                t.started_at,
                t.heartbeat_interval_millis,
            ).0,
            t.attempt_token,
            true,
            t.data,
            t.completed_at,
        ).1.instruction == complete_command::Output::NextCommand,
        succeeded_up_to(succeed_once(b, j as usize, t), j + 1),
        succeed_once(b, j as usize, t).commands.len() == b.commands.len(),
{
    assert forall|i: int| 0 <= i < b.commands.len() implies !required_failure(
        #[trigger] b.commands[i],
    ) by {}
    lemma_first_open_is(b.commands, j);
    let started = start_model(
        b,
        j as usize,
        t.nonce,
        t.attempt_token,
        t.started_at,
        t.heartbeat_interval_millis,
    ).0;
    assert(started.commands[j].status == CommandStatus::Active);
    assert forall|i: int| 0 <= i < started.commands.len() implies !required_failure(
        #[trigger] started.commands[i],
    ) by {
        if i != j {
            assert(started.commands[i] == b.commands[i]);
        }
    }
    assert forall|i: int| 0 <= i < j implies (#[trigger] started.commands[i]).status is Done by {
        assert(started.commands[i] == b.commands[i]);
    }
    lemma_first_open_is(started.commands, j);
    let after = succeed_once(b, j as usize, t);
    assert forall|i: int| 0 <= i < j + 1 implies (#[trigger] after.commands[i]).status == (
    CommandStatus::Done { succeeded: true }) by {
        if i < j {
            assert(after.commands[i] == b.commands[i]);
        }
    }
    assert forall|i: int| j + 1 < i < after.commands.len() implies untouched(
        #[trigger] after.commands[i],
    ) by {
        assert(after.commands[i] == b.commands[i]);
        assert(untouched(b.commands[i]));
    }
    if j + 1 < b.commands.len() {
        assert(untouched(b.commands[j + 1]));
    }
}

/// A run of successes over the first commands leaves them succeeded and
/// the next one waiting.
pub proof fn lemma_successful_run(b: BatchView, turns: Seq<Turn>)
    requires
        succeeded_up_to(b, 0),
        turns.len() <= b.commands.len(),
        b.commands.len() <= usize::MAX,
    ensures
        succeeded_up_to(successful_run(b, turns), turns.len() as int),
        successful_run(b, turns).commands.len() == b.commands.len(),
    decreases turns.len(),
{
    if turns.len() > 0 {
        lemma_successful_run(b, turns.drop_last());
        lemma_succeed_once(
            successful_run(b, turns.drop_last()),
            turns.len() - 1,
            turns.last(),
        );
    }
}

/// After a fresh batch has had every command started and completed with
/// success, in order, every command is done with success and so is the
/// batch.
pub proof fn lemma_full_run_succeeds(
    batch_id: Seq<char>,
    target_name: Seq<char>,
    nonce: Seq<char>,
    commands: Seq<CommandView>,
    batch_complete_notification: Option<ChannelView>,
    now: usize,
    turns: Seq<Turn>,
)
    requires
        turns.len() == commands.len(),
        commands.len() <= usize::MAX,
    ensures
        ({
            let fresh = new_batch(
                batch_id,
                target_name,
                nonce,
                commands,
                batch_complete_notification,
                now,
            );
            let end = successful_run(fresh, turns);
            &&& end.commands.len() == commands.len()
            &&& forall|i: int|
                0 <= i < commands.len() ==> (#[trigger] end.commands[i]).status == (
                CommandStatus::Done { succeeded: true })
            &&& status_of(end.commands) == (BatchStatus::Done { succeeded: true })
        }),
{
    let fresh = new_batch(batch_id, target_name, nonce, commands, batch_complete_notification, now);
    lemma_successful_run(fresh, turns);
    let end = successful_run(fresh, turns);
    assert forall|i: int| 0 <= i < end.commands.len() implies !required_failure(
        #[trigger] end.commands[i],
    ) by {}
    lemma_batch_termination(end);
}

} // verus!
