//! What always holds of the store, and how its operations relate.

use crate::batch::complete_model;
use crate::batch::expire_model;
use crate::batch::heartbeat_model;
use crate::batch::lemma_first_open_is;
use crate::batch::new_batch;
use crate::batch::required_failure;
use crate::batch::start_model;
use crate::batch::status_of;
use crate::batch::BatchView;
use crate::batch::CommandRecordView;
use crate::database::announce_model;
use crate::database::available_model;
use crate::database::batch_position;
use crate::database::candidates;
use crate::database::complete_command_model;
use crate::database::delete_model;
use crate::database::describe_commands_model;
use crate::database::dispatch_model;
use crate::database::empty_database;
use crate::database::heartbeat_command_model;
use crate::database::lemma_batch_position;
use crate::database::lemma_batch_position_found;
use crate::database::poll_model;
use crate::database::start_command_model;
use crate::database::sweep_model;
use crate::database::sweep_one;
use crate::database::with_batch;
use crate::database::DatabaseView;
use crate::database::HEARTBEAT_INTERVAL_MILLIS;
use crate::database::LEASE_GRACE_MILLIS;
use crate::invariants::batch_wf;
use crate::invariants::lemma_done_is_final;
use crate::invariants::lemma_full_run_succeeds;
use crate::invariants::successful_run;
use crate::invariants::succeed_once;
use crate::invariants::Turn;
use crate::invariants::lemma_complete_keeps_wf;
use crate::invariants::lemma_expire_keeps_wf;
use crate::invariants::lemma_heartbeat_keeps_wf;
use crate::invariants::lemma_new_batch_wf;
use crate::invariants::lemma_start_keeps_wf;
use crate::batch::Finished;
use crate::operations::describe_commands::BatchStatus;
use crate::operations::describe_commands::CommandStatus;
use crate::operations::dispatch_commands::InputView;
use crate::operations::receive_commands;
use crate::waiters::cancel_model;
use crate::waiters::expire_waiters_model;
use crate::waiters::first_wanting;
use crate::waiters::has_room;
use crate::waiters::lemma_first_wanting_is;
use crate::waiters::wants;
use crate::waiters::lemma_first_wanting;
use crate::waiters::park_model;
use crate::waiters::position_of;
use crate::waiters::remaining;
use crate::waiters::wake_model;
use crate::waiters::RegistryView;
use crate::waiters::WaiterView;
use vstd::prelude::*;

verus! {

/// No two waiters have the same id, and every id in use is below the next
/// one to be given out.
pub open spec fn registry_wf(r: RegistryView) -> bool {
    &&& forall|i: int| 0 <= i < r.waiters.len() ==> (#[trigger] r.waiters[i]).id < r.next_id
    &&& forall|i: int, j: int|
        0 <= i < j < r.waiters.len() ==> (#[trigger] r.waiters[i]).id != (#[trigger] r.waiters[j]).id
}

/// No two batches have the same id.
pub open spec fn unique_ids(batches: Seq<BatchView>) -> bool {
    forall|i: int, j: int|
        0 <= i < j < batches.len() ==> (#[trigger] batches[i]).batch_id != (
        #[trigger] batches[j]).batch_id
}

/// What holds of every store: batch ids are unique, every batch is well
/// formed, and so is the registry of parked polls.
pub open spec fn database_wf(db: DatabaseView) -> bool {
    &&& unique_ids(db.batches)
    &&& forall|i: int| 0 <= i < db.batches.len() ==> batch_wf(#[trigger] db.batches[i])
    &&& registry_wf(db.registry)
}

/// Every idempotency record of `before` is still there in `after`, with
/// the same batch id.
pub open spec fn records_kept(before: DatabaseView, after: DatabaseView) -> bool {
    forall|f: u64| #[trigger]
        before.idempotency.contains_key(f) ==> after.idempotency.contains_key(f)
            && after.idempotency[f] == before.idempotency[f]
}

/// What every operation owes the store it works on: a well-formed store
/// stays well formed, and no idempotency record is lost or changed.
pub open spec fn preserves(before: DatabaseView, after: DatabaseView) -> bool {
    &&& database_wf(before) ==> database_wf(after)
    &&& records_kept(before, after)
}

/// Leaving the store as it is preserves it.
pub proof fn lemma_unchanged_preserves(db: DatabaseView)
    ensures
        preserves(db, db),
{
}

/// The empty store is well formed.
pub proof fn lemma_empty_wf()
    ensures
        database_wf(empty_database()),
{
}

/// Waking a poll keeps the registry well formed.
pub proof fn lemma_wake_keeps_wf(r: RegistryView, target_name: Seq<char>, batch_id: Seq<char>)
    requires
        registry_wf(r),
    ensures
        registry_wf(wake_model(r, target_name, batch_id).0),
{
    lemma_first_wanting(r.waiters, target_name, batch_id, 0);
    let at = first_wanting(r.waiters, target_name, batch_id, 0);
    let after = wake_model(r, target_name, batch_id).0;
    if at < r.waiters.len() {
        assert forall|i: int| 0 <= i < after.waiters.len() implies (
        #[trigger] after.waiters[i]).id < after.next_id by {
            if i < at {
                assert(after.waiters[i] == r.waiters[i]);
            } else {
                assert(after.waiters[i] == r.waiters[i + 1]);
            }
        }
        assert forall|i: int, j: int| 0 <= i < j < after.waiters.len() implies (
        #[trigger] after.waiters[i]).id != (#[trigger] after.waiters[j]).id by {
            let i0 = if i < at {
                i
            } else {
                i + 1
            };
            let j0 = if j < at {
                j
            } else {
                j + 1
            };
            assert(after.waiters[i] == r.waiters[i0]);
            assert(after.waiters[j] == r.waiters[j0]);
        }
    }
}

/// Announcing an available attempt changes neither the batches nor the
/// idempotency records, and keeps the store well formed.
pub proof fn lemma_available_keeps_wf(db: DatabaseView, p: int, a: int)
    requires
        database_wf(db),
    ensures
        database_wf(available_model(db, p, a)),
        available_model(db, p, a).batches == db.batches,
        available_model(db, p, a).idempotency == db.idempotency,
{
    let b = db.batches[p];
    lemma_wake_keeps_wf(db.registry, b.target_name, b.batch_id);
}

/// Announcing the end of an attempt changes neither the batches nor the
/// idempotency records, and keeps the store well formed.
pub proof fn lemma_announce_keeps_wf(db: DatabaseView, p: int, finished: Option<Finished>)
    requires
        database_wf(db),
    ensures
        database_wf(announce_model(db, p, finished)),
        announce_model(db, p, finished).batches == db.batches,
        announce_model(db, p, finished).idempotency == db.idempotency,
{
    match finished {
        None => {},
        Some(f) => {
            let b = db.batches[p];
            match f.available {
                Some(a) => {
                    lemma_wake_keeps_wf(db.registry, b.target_name, b.batch_id);
                },
                None => {},
            }
        },
    }
}

/// Replacing a batch by a well-formed one with the same id keeps the
/// store well formed.
pub proof fn lemma_with_batch_keeps_wf(db: DatabaseView, p: int, b: BatchView)
    requires
        database_wf(db),
        0 <= p < db.batches.len(),
        batch_wf(b),
        b.batch_id == db.batches[p].batch_id,
    ensures
        database_wf(with_batch(db, p, b)),
{
    let after = with_batch(db, p, b);
    assert forall|i: int, j: int| 0 <= i < j < after.batches.len() implies (
    #[trigger] after.batches[i]).batch_id != (#[trigger] after.batches[j]).batch_id by {
        assert(after.batches[i].batch_id == db.batches[i].batch_id);
        assert(after.batches[j].batch_id == db.batches[j].batch_id);
    }
    assert forall|i: int| 0 <= i < after.batches.len() implies batch_wf(
        #[trigger] after.batches[i],
    ) by {
        if i != p {
            assert(batch_wf(db.batches[i]));
        }
    }
}

/// `DispatchCommands` keeps the store well formed and every idempotency
/// record in place, and puts the returned batch id on record for the
/// fingerprint.
pub proof fn lemma_dispatch(
    db: DatabaseView,
    fingerprint: u64,
    fresh_id: Seq<char>,
    input: InputView,
    now: usize,
)
    requires
        database_wf(db),
    ensures
        database_wf(dispatch_model(db, fingerprint, fresh_id, input, now).0),
        records_kept(db, dispatch_model(db, fingerprint, fresh_id, input, now).0),
        dispatch_model(db, fingerprint, fresh_id, input, now).0.idempotency.contains_key(
            fingerprint,
        ),
        dispatch_model(db, fingerprint, fresh_id, input, now).0.idempotency[fingerprint]
            == dispatch_model(db, fingerprint, fresh_id, input, now).1,
{
    let after = dispatch_model(db, fingerprint, fresh_id, input, now);
    let batch_id = after.1;
    lemma_batch_position_found(db.batches, batch_id, 0);
    if batch_position(db.batches, batch_id, 0) >= db.batches.len() {
        let fresh = new_batch(
            batch_id,
            input.target_name,
            input.nonce,
            input.commands,
            input.batch_complete_notification,
            now,
        );
        lemma_new_batch_wf(
            batch_id,
            input.target_name,
            input.nonce,
            input.commands,
            input.batch_complete_notification,
            now,
        );
        let created = DatabaseView { batches: db.batches.push(fresh), ..db };
        assert forall|i: int, j: int| 0 <= i < j < created.batches.len() implies (
        #[trigger] created.batches[i]).batch_id != (#[trigger] created.batches[j]).batch_id by {
            if j < db.batches.len() {
                assert(db.batches[i].batch_id != db.batches[j].batch_id);
            } else {
                assert(db.batches[i].batch_id != batch_id);
            }
        }
        assert forall|i: int| 0 <= i < created.batches.len() implies batch_wf(
            #[trigger] created.batches[i],
        ) by {
            if i < db.batches.len() {
                assert(batch_wf(db.batches[i]));
            }
        }
        assert(database_wf(created));
        if input.commands.len() > 0 {
            lemma_wake_keeps_wf(db.registry, fresh.target_name, fresh.batch_id);
        }
    }
}

/// Two `DispatchCommands` requests with the same fingerprint get the same
/// batch id, whatever else the second one holds, and the second one
/// creates no batch.
pub proof fn lemma_dispatch_idempotent(
    db: DatabaseView,
    fingerprint: u64,
    first_id: Seq<char>,
    first: InputView,
    first_now: usize,
    second_id: Seq<char>,
    second: InputView,
    second_now: usize,
)
    ensures
        dispatch_model(
            dispatch_model(db, fingerprint, first_id, first, first_now).0,
            fingerprint,
            second_id,
            second,
            second_now,
        ).1 == dispatch_model(db, fingerprint, first_id, first, first_now).1,
        dispatch_model(
            dispatch_model(db, fingerprint, first_id, first, first_now).0,
            fingerprint,
            second_id,
            second,
            second_now,
        ).0 == dispatch_model(db, fingerprint, first_id, first, first_now).0,
{
    let once = dispatch_model(db, fingerprint, first_id, first, first_now);
    let batch_id = once.1;
    lemma_batch_position_found(db.batches, batch_id, 0);
    let p = batch_position(db.batches, batch_id, 0);
    if p < db.batches.len() {
        assert(once.0.batches == db.batches);
    } else {
        assert(once.0.batches[db.batches.len() as int].batch_id == batch_id);
        assert forall|j: int| 0 <= j < db.batches.len() implies (
        #[trigger] once.0.batches[j]).batch_id != batch_id by {
            assert(once.0.batches[j] == db.batches[j]);
        }
        lemma_batch_position(once.0.batches, batch_id, 0, db.batches.len() as int);
    }
}

/// A request whose fingerprint is on record gets the batch id on record,
/// however long ago the record was made.
pub proof fn lemma_dispatch_repeats(
    db: DatabaseView,
    fingerprint: u64,
    fresh_id: Seq<char>,
    input: InputView,
    now: usize,
)
    requires
        db.idempotency.contains_key(fingerprint),
    ensures
        dispatch_model(db, fingerprint, fresh_id, input, now).1 == db.idempotency[fingerprint],
{
}

/// Right after a batch has been created, every command of it is reported
/// inactive, and the batch active unless it is empty.
pub proof fn lemma_describe_after_dispatch(
    db: DatabaseView,
    fingerprint: u64,
    fresh_id: Seq<char>,
    input: InputView,
    now: usize,
)
    requires
        !db.idempotency.contains_key(fingerprint),
        batch_position(db.batches, fresh_id, 0) >= db.batches.len(),
    ensures
        describe_commands_model(dispatch_model(db, fingerprint, fresh_id, input, now).0, fresh_id)
            is Some,
        describe_commands_model(
            dispatch_model(db, fingerprint, fresh_id, input, now).0,
            fresh_id,
        ).unwrap().1 == Seq::new(input.commands.len(), |i: int| CommandStatus::Inactive),
        input.commands.len() > 0 ==> describe_commands_model(
            dispatch_model(db, fingerprint, fresh_id, input, now).0,
            fresh_id,
        ).unwrap().0 == BatchStatus::Active,
{
    let after = dispatch_model(db, fingerprint, fresh_id, input, now).0;
    let fresh = new_batch(
        fresh_id,
        input.target_name,
        input.nonce,
        input.commands,
        input.batch_complete_notification,
        now,
    );
    lemma_batch_position_found(db.batches, fresh_id, 0);
    assert(after.batches == db.batches.push(fresh));
    assert forall|j: int| 0 <= j < db.batches.len() implies (#[trigger] after.batches[j]).batch_id
        != fresh_id by {
        assert(after.batches[j] == db.batches[j]);
    }
    lemma_batch_position(after.batches, fresh_id, 0, db.batches.len() as int);
    lemma_new_batch_wf(
        fresh_id,
        input.target_name,
        input.nonce,
        input.commands,
        input.batch_complete_notification,
        now,
    );
    assert(fresh.commands.map_values(|c: CommandRecordView| c.status) =~= Seq::new(
        input.commands.len(),
        |i: int| CommandStatus::Inactive,
    ));
}

/// `StartCommand` keeps the store well formed and every idempotency record
/// in place.
pub proof fn lemma_start_command(
    db: DatabaseView,
    batch_id: Seq<char>,
    index: usize,
    nonce: Seq<char>,
    attempt_token: Seq<char>,
    now: usize,
)
    requires
        database_wf(db),
    ensures
        database_wf(start_command_model(db, batch_id, index, nonce, attempt_token, now).0),
        records_kept(db, start_command_model(db, batch_id, index, nonce, attempt_token, now).0),
{
    lemma_batch_position_found(db.batches, batch_id, 0);
    let p = batch_position(db.batches, batch_id, 0);
    if p < db.batches.len() {
        assert(batch_wf(db.batches[p]));
        lemma_start_keeps_wf(
            db.batches[p],
            index,
            nonce,
            attempt_token,
            now,
            HEARTBEAT_INTERVAL_MILLIS,
        );
        let started = start_model(
            db.batches[p],
            index,
            nonce,
            attempt_token,
            now,
            HEARTBEAT_INTERVAL_MILLIS,
        );
        lemma_with_batch_keeps_wf(db, p, started.0);
    }
}

/// `HeartbeatCommand` keeps the store well formed and every idempotency
/// record in place.
pub proof fn lemma_heartbeat_command(
    db: DatabaseView,
    batch_id: Seq<char>,
    attempt_token: Seq<char>,
    now: usize,
)
    requires
        database_wf(db),
    ensures
        database_wf(heartbeat_command_model(db, batch_id, attempt_token, now).0),
        records_kept(db, heartbeat_command_model(db, batch_id, attempt_token, now).0),
{
    lemma_batch_position_found(db.batches, batch_id, 0);
    let p = batch_position(db.batches, batch_id, 0);
    if p < db.batches.len() {
        assert(batch_wf(db.batches[p]));
        lemma_heartbeat_keeps_wf(db.batches[p], attempt_token, now);
        lemma_with_batch_keeps_wf(db, p, heartbeat_model(db.batches[p], attempt_token, now).0);
    }
}

/// `CompleteCommand` keeps the store well formed and every idempotency
/// record in place.
pub proof fn lemma_complete_command(
    db: DatabaseView,
    batch_id: Seq<char>,
    attempt_token: Seq<char>,
    success: bool,
    data: Seq<char>,
    now: usize,
)
    requires
        database_wf(db),
    ensures
        database_wf(complete_command_model(db, batch_id, attempt_token, success, data, now).0),
        records_kept(db, complete_command_model(db, batch_id, attempt_token, success, data, now).0),
{
    lemma_batch_position_found(db.batches, batch_id, 0);
    let p = batch_position(db.batches, batch_id, 0);
    if p < db.batches.len() {
        assert(batch_wf(db.batches[p]));
        lemma_complete_keeps_wf(db.batches[p], attempt_token, success, data, now);
        let completed = complete_model(db.batches[p], attempt_token, success, data, now);
        lemma_with_batch_keeps_wf(db, p, completed.0);
        lemma_announce_keeps_wf(with_batch(db, p, completed.0), p, completed.1.finished);
    }
}

/// Lease expiry on one batch keeps the store well formed, every
/// idempotency record in place, and the number of batches.
pub proof fn lemma_sweep_one(db: DatabaseView, p: int, now: usize)
    requires
        database_wf(db),
        0 <= p < db.batches.len(),
    ensures
        database_wf(sweep_one(db, p, now)),
        records_kept(db, sweep_one(db, p, now)),
        sweep_one(db, p, now).batches.len() == db.batches.len(),
{
    assert(batch_wf(db.batches[p]));
    lemma_expire_keeps_wf(db.batches[p], now, LEASE_GRACE_MILLIS);
    let expired = expire_model(db.batches[p], now, LEASE_GRACE_MILLIS);
    lemma_with_batch_keeps_wf(db, p, expired.0);
    lemma_announce_keeps_wf(with_batch(db, p, expired.0), p, expired.1.finished);
}

/// Lease expiry over the batches keeps the store well formed, every
/// idempotency record in place, and the number of batches.
pub proof fn lemma_sweep(db: DatabaseView, upto: int, now: usize)
    requires
        database_wf(db),
        upto <= db.batches.len(),
    ensures
        database_wf(sweep_model(db, upto, now)),
        records_kept(db, sweep_model(db, upto, now)),
        sweep_model(db, upto, now).batches.len() == db.batches.len(),
    decreases upto,
{
    if upto > 0 {
        lemma_sweep(db, upto - 1, now);
        lemma_sweep_one(sweep_model(db, upto - 1, now), upto - 1, now);
    }
}

/// `DeleteCommands` keeps the store well formed and every idempotency
/// record in place; afterwards no batch has the id. Deleting an unknown
/// batch changes nothing, and so does deleting a second time.
pub proof fn lemma_delete(db: DatabaseView, batch_id: Seq<char>)
    requires
        database_wf(db),
    ensures
        database_wf(delete_model(db, batch_id)),
        delete_model(db, batch_id).idempotency == db.idempotency,
        batch_position(delete_model(db, batch_id).batches, batch_id, 0) == delete_model(
            db,
            batch_id,
        ).batches.len(),
        batch_position(db.batches, batch_id, 0) >= db.batches.len() ==> delete_model(db, batch_id)
            == db,
        delete_model(delete_model(db, batch_id), batch_id) == delete_model(db, batch_id),
{
    lemma_batch_position_found(db.batches, batch_id, 0);
    let p = batch_position(db.batches, batch_id, 0);
    let after = delete_model(db, batch_id);
    if p < db.batches.len() {
        assert forall|i: int| 0 <= i < after.batches.len() implies (#[trigger] after.batches[i])
            == db.batches[if i < p {
            i
        } else {
            i + 1
        }] by {}
        assert forall|i: int, j: int| 0 <= i < j < after.batches.len() implies (
        #[trigger] after.batches[i]).batch_id != (#[trigger] after.batches[j]).batch_id by {
            let i0 = if i < p {
                i
            } else {
                i + 1
            };
            let j0 = if j < p {
                j
            } else {
                j + 1
            };
            assert(after.batches[i] == db.batches[i0]);
            assert(after.batches[j] == db.batches[j0]);
            assert(db.batches[i0].batch_id != db.batches[j0].batch_id);
        }
        assert forall|i: int| 0 <= i < after.batches.len() implies batch_wf(
            #[trigger] after.batches[i],
        ) by {
            let i0 = if i < p {
                i
            } else {
                i + 1
            };
            assert(after.batches[i] == db.batches[i0]);
            assert(batch_wf(db.batches[i0]));
        }
        assert forall|j: int| 0 <= j < after.batches.len() implies (
        #[trigger] after.batches[j]).batch_id != batch_id by {
            let j0 = if j < p {
                j
            } else {
                j + 1
            };
            assert(after.batches[j] == db.batches[j0]);
            if j0 < p {
                assert(db.batches[j0].batch_id != batch_id);
            } else {
                assert(db.batches[p].batch_id != db.batches[j0].batch_id);
            }
        }
    } else {
        assert forall|j: int| 0 <= j < after.batches.len() implies (
        #[trigger] after.batches[j]).batch_id != batch_id by {}
    }
    lemma_batch_position(after.batches, batch_id, 0, after.batches.len() as int);
}

/// The waiters that stay are among the waiters that were there.
pub proof fn lemma_remaining_members(waiters: Seq<WaiterView>, now: usize, i: int)
    requires
        0 <= i < remaining(waiters, now).len(),
    ensures
        exists|j: int| 0 <= j < waiters.len() && #[trigger] waiters[j] == remaining(waiters, now)[i],
    decreases waiters.len(),
{
    if waiters.len() > 0 {
        let rest = remaining(waiters.drop_last(), now);
        if i < rest.len() {
            lemma_remaining_members(waiters.drop_last(), now, i);
            let j = choose|j: int|
                0 <= j < waiters.drop_last().len() && #[trigger] waiters.drop_last()[j] == rest[i];
            assert(waiters[j] == remaining(waiters, now)[i]);
        } else {
            assert(waiters[waiters.len() - 1] == remaining(waiters, now)[i]);
        }
    }
}

/// Unique ids stay unique among the waiters that stay.
pub proof fn lemma_remaining_unique(waiters: Seq<WaiterView>, now: usize)
    requires
        forall|i: int, j: int|
            0 <= i < j < waiters.len() ==> (#[trigger] waiters[i]).id != (#[trigger] waiters[j]).id,
    ensures
        forall|i: int, j: int|
            0 <= i < j < remaining(waiters, now).len() ==> (#[trigger] remaining(
                waiters,
                now,
            )[i]).id != (#[trigger] remaining(waiters, now)[j]).id,
    decreases waiters.len(),
{
    if waiters.len() > 0 {
        let front = waiters.drop_last();
        assert forall|i: int, j: int| 0 <= i < j < front.len() implies (#[trigger] front[i]).id != (
        #[trigger] front[j]).id by {
            assert(front[i] == waiters[i]);
            assert(front[j] == waiters[j]);
        }
        lemma_remaining_unique(front, now);
        let rest = remaining(front, now);
        let all = remaining(waiters, now);
        assert forall|i: int, j: int| 0 <= i < j < all.len() implies (#[trigger] all[i]).id != (
        #[trigger] all[j]).id by {
            if j < rest.len() {
                assert(all[i] == rest[i]);
                assert(all[j] == rest[j]);
            } else {
                lemma_remaining_members(front, now, i);
                let k = choose|k: int| 0 <= k < front.len() && #[trigger] front[k] == rest[i];
                assert(front[k] == waiters[k]);
                assert(all[i] == rest[i]);
                assert(all[j] == waiters[waiters.len() - 1]);
                assert(waiters[k].id != waiters[waiters.len() - 1].id);
            }
        }
    }
}

/// Parking, giving up and timing out polls keep the registry well formed.
pub proof fn lemma_registry(
    r: RegistryView,
    target_name: Seq<char>,
    exclude_batches: Seq<Seq<char>>,
    group_membership: Seq<Seq<char>>,
    deadline: usize,
    id: u64,
    now: usize,
)
    requires
        registry_wf(r),
    ensures
        registry_wf(park_model(r, target_name, exclude_batches, group_membership, deadline).0),
        registry_wf(cancel_model(r, id).0),
        registry_wf(expire_waiters_model(r, now).0),
{
    let parked = park_model(r, target_name, exclude_batches, group_membership, deadline).0;
    assert forall|i: int, j: int| 0 <= i < j < parked.waiters.len() implies (
    #[trigger] parked.waiters[i]).id != (#[trigger] parked.waiters[j]).id by {
        assert(parked.waiters[i] == r.waiters[i]);
        if j < r.waiters.len() {
            assert(parked.waiters[j] == r.waiters[j]);
        }
    }
    assert forall|i: int| 0 <= i < parked.waiters.len() implies (#[trigger] parked.waiters[i]).id
        < parked.next_id by {
        if i < r.waiters.len() {
            assert(parked.waiters[i] == r.waiters[i]);
        }
    }
    let at = position_of(r.waiters, id, 0);
    let cancelled = cancel_model(r, id).0;
    if 0 <= at < r.waiters.len() {
        assert forall|i: int| 0 <= i < cancelled.waiters.len() implies (
        #[trigger] cancelled.waiters[i]).id < cancelled.next_id by {
            let i0 = if i < at {
                i
            } else {
                i + 1
            };
            assert(cancelled.waiters[i] == r.waiters[i0]);
        }
        assert forall|i: int, j: int| 0 <= i < j < cancelled.waiters.len() implies (
        #[trigger] cancelled.waiters[i]).id != (#[trigger] cancelled.waiters[j]).id by {
            let i0 = if i < at {
                i
            } else {
                i + 1
            };
            let j0 = if j < at {
                j
            } else {
                j + 1
            };
            assert(cancelled.waiters[i] == r.waiters[i0]);
            assert(cancelled.waiters[j] == r.waiters[j0]);
        }
    }
    let expired = expire_waiters_model(r, now).0;
    lemma_remaining_unique(r.waiters, now);
    assert forall|i: int| 0 <= i < expired.waiters.len() implies (#[trigger] expired.waiters[i]).id
        < expired.next_id by {
        lemma_remaining_members(r.waiters, now, i);
        let j = choose|j: int|
            0 <= j < r.waiters.len() && #[trigger] r.waiters[j] == remaining(r.waiters, now)[i];
        assert(r.waiters[j].id < r.next_id);
    }
}

/// A poll keeps the store well formed, and changes nothing but the
/// registry of parked polls.
pub proof fn lemma_poll(
    db: DatabaseView,
    target_name: Seq<char>,
    exclude_batches: Seq<Seq<char>>,
    group_membership: Seq<Seq<char>>,
    deadline: usize,
    now: usize,
)
    requires
        database_wf(db),
    ensures
        database_wf(
            poll_model(db, target_name, exclude_batches, group_membership, deadline, now).0,
        ),
        poll_model(db, target_name, exclude_batches, group_membership, deadline, now).0
            == (DatabaseView {
            registry: poll_model(
                db,
                target_name,
                exclude_batches,
                group_membership,
                deadline,
                now,
            ).0.registry,
            ..db
        }),
{
    lemma_registry(db.registry, target_name, exclude_batches, group_membership, deadline, 0, now);
}

/// `DispatchCommands` preserves the store.
pub proof fn lemma_dispatch_preserves(
    db: DatabaseView,
    fingerprint: u64,
    fresh_id: Seq<char>,
    input: InputView,
    now: usize,
)
    ensures
        preserves(db, dispatch_model(db, fingerprint, fresh_id, input, now).0),
{
    if database_wf(db) {
        lemma_dispatch(db, fingerprint, fresh_id, input, now);
    }
}

/// `StartCommand` preserves the store.
pub proof fn lemma_start_command_preserves(
    db: DatabaseView,
    batch_id: Seq<char>,
    index: usize,
    nonce: Seq<char>,
    attempt_token: Seq<char>,
    now: usize,
)
    ensures
        preserves(db, start_command_model(db, batch_id, index, nonce, attempt_token, now).0),
{
    if database_wf(db) {
        lemma_start_command(db, batch_id, index, nonce, attempt_token, now);
    }
}

/// `HeartbeatCommand` preserves the store.
pub proof fn lemma_heartbeat_command_preserves(
    db: DatabaseView,
    batch_id: Seq<char>,
    attempt_token: Seq<char>,
    now: usize,
)
    ensures
        preserves(db, heartbeat_command_model(db, batch_id, attempt_token, now).0),
{
    if database_wf(db) {
        lemma_heartbeat_command(db, batch_id, attempt_token, now);
    }
}

/// `CompleteCommand` preserves the store.
pub proof fn lemma_complete_command_preserves(
    db: DatabaseView,
    batch_id: Seq<char>,
    attempt_token: Seq<char>,
    success: bool,
    data: Seq<char>,
    now: usize,
)
    ensures
        preserves(
            db,
            complete_command_model(db, batch_id, attempt_token, success, data, now).0,
        ),
{
    if database_wf(db) {
        lemma_complete_command(db, batch_id, attempt_token, success, data, now);
    }
}

/// Lease expiry over the batches preserves the store.
pub proof fn lemma_sweep_preserves(db: DatabaseView, now: usize)
    ensures
        preserves(db, sweep_model(db, db.batches.len() as int, now)),
{
    lemma_records_kept(
        db,
        0,
        Seq::empty(),
        InputView {
            target_name: Seq::empty(),
            commands: Seq::empty(),
            nonce: Seq::empty(),
            batch_complete_notification: None,
        },
        Seq::empty(),
        0,
        Seq::empty(),
        Seq::empty(),
        false,
        Seq::empty(),
        db.batches.len() as int,
        now,
    );
    if database_wf(db) {
        lemma_sweep(db, db.batches.len() as int, now);
    }
}

/// `DeleteCommands` preserves the store.
pub proof fn lemma_delete_preserves(db: DatabaseView, batch_id: Seq<char>)
    ensures
        preserves(db, delete_model(db, batch_id)),
{
    if database_wf(db) {
        lemma_delete(db, batch_id);
    }
}

/// A poll preserves the store.
pub proof fn lemma_poll_preserves(
    db: DatabaseView,
    target_name: Seq<char>,
    exclude_batches: Seq<Seq<char>>,
    group_membership: Seq<Seq<char>>,
    deadline: usize,
    now: usize,
)
    ensures
        preserves(
            db,
            poll_model(db, target_name, exclude_batches, group_membership, deadline, now).0,
        ),
{
    if database_wf(db) {
        lemma_poll(db, target_name, exclude_batches, group_membership, deadline, now);
    }
}

/// Timing out and giving up polls preserve the store.
pub proof fn lemma_waiters_preserve(db: DatabaseView, waiter: u64, now: usize)
    ensures
        preserves(db, DatabaseView { registry: expire_waiters_model(db.registry, now).0, ..db }),
        preserves(db, DatabaseView { registry: cancel_model(db.registry, waiter).0, ..db }),
{
    if database_wf(db) {
        lemma_registry(db.registry, Seq::empty(), Seq::empty(), Seq::empty(), 0, waiter, now);
    }
}

/// No operation loses or changes an idempotency record, whatever state
/// the store is in: `DispatchCommands` only adds one, and the other
/// operations leave the records alone.
pub proof fn lemma_records_kept(
    db: DatabaseView,
    fingerprint: u64,
    fresh_id: Seq<char>,
    input: InputView,
    batch_id: Seq<char>,
    index: usize,
    nonce: Seq<char>,
    attempt_token: Seq<char>,
    success: bool,
    data: Seq<char>,
    upto: int,
    now: usize,
)
    ensures
        records_kept(db, dispatch_model(db, fingerprint, fresh_id, input, now).0),
        start_command_model(db, batch_id, index, nonce, attempt_token, now).0.idempotency
            == db.idempotency,
        heartbeat_command_model(db, batch_id, attempt_token, now).0.idempotency == db.idempotency,
        complete_command_model(db, batch_id, attempt_token, success, data, now).0.idempotency
            == db.idempotency,
        sweep_model(db, upto, now).idempotency == db.idempotency,
        delete_model(db, batch_id).idempotency == db.idempotency,
    decreases upto,
{
    if upto > 0 {
        lemma_records_kept(
            db,
            fingerprint,
            fresh_id,
            input,
            batch_id,
            index,
            nonce,
            attempt_token,
            success,
            data,
            upto - 1,
            now,
        );
    }
}

/// Once a batch is done, no operation but its deletion changes it: not a
/// request that names it, not a request that names another batch, not the
/// sweep.
pub proof fn lemma_done_batch_is_final(
    db: DatabaseView,
    p: int,
    fingerprint: u64,
    fresh_id: Seq<char>,
    input: InputView,
    batch_id: Seq<char>,
    index: usize,
    nonce: Seq<char>,
    attempt_token: Seq<char>,
    success: bool,
    data: Seq<char>,
    now: usize,
)
    requires
        0 <= p < db.batches.len(),
        status_of(db.batches[p].commands) is Done,
    ensures
        dispatch_model(db, fingerprint, fresh_id, input, now).0.batches[p] == db.batches[p],
        start_command_model(db, batch_id, index, nonce, attempt_token, now).0.batches[p]
            == db.batches[p],
        heartbeat_command_model(db, batch_id, attempt_token, now).0.batches[p] == db.batches[p],
        complete_command_model(db, batch_id, attempt_token, success, data, now).0.batches[p]
            == db.batches[p],
        sweep_model(db, db.batches.len() as int, now).batches[p] == db.batches[p],
{
    lemma_batch_position_found(db.batches, batch_id, 0);
    lemma_done_is_final(
        db.batches[p],
        index,
        nonce,
        attempt_token,
        success,
        data,
        now,
        HEARTBEAT_INTERVAL_MILLIS,
        LEASE_GRACE_MILLIS,
    );
    lemma_sweep_spares_done(db, p, db.batches.len() as int, now);
}

/// The sweep leaves a batch that is done as it is, and keeps the number of
/// batches.
pub proof fn lemma_sweep_spares_done(db: DatabaseView, p: int, upto: int, now: usize)
    requires
        0 <= p < db.batches.len(),
        status_of(db.batches[p].commands) is Done,
        upto <= db.batches.len(),
    ensures
        sweep_model(db, upto, now).batches[p] == db.batches[p],
        sweep_model(db, upto, now).batches.len() == db.batches.len(),
    decreases upto,
{
    if upto > 0 {
        lemma_sweep_spares_done(db, p, upto - 1, now);
        let before = sweep_model(db, upto - 1, now);
        lemma_done_is_final(
            before.batches[p],
            0,
            Seq::empty(),
            Seq::empty(),
            false,
            Seq::empty(),
            now,
            HEARTBEAT_INTERVAL_MILLIS,
            LEASE_GRACE_MILLIS,
        );
    }
}

/// The store after the first `turns.len()` commands of the batch with this
/// id were each started and completed with success, in order.
pub open spec fn run_in_store(db: DatabaseView, batch_id: Seq<char>, turns: Seq<Turn>) -> DatabaseView
    decreases turns.len(),
{
    if turns.len() == 0 {
        db
    } else {
        let t = turns.last();
        complete_command_model(
            start_command_model(
                run_in_store(db, batch_id, turns.drop_last()),
                batch_id,
                (turns.len() - 1) as usize,
                t.nonce,
                t.attempt_token,
                t.started_at,
            ).0,
            batch_id,
            t.attempt_token,
            true,
            t.data,
            t.completed_at,
        ).0
    }
}

/// Starting and completing commands of the batch at `p` in the store is
/// starting and completing them in the batch; the other batches stay as
/// they are.
pub proof fn lemma_run_in_store(db: DatabaseView, p: int, turns: Seq<Turn>)
    requires
        0 <= p < db.batches.len(),
        batch_position(db.batches, db.batches[p].batch_id, 0) == p,
        forall|i: int|
            0 <= i < turns.len() ==> (#[trigger] turns[i]).heartbeat_interval_millis
                == HEARTBEAT_INTERVAL_MILLIS,
    ensures
        run_in_store(db, db.batches[p].batch_id, turns).batches == db.batches.update(
            p,
            successful_run(db.batches[p], turns),
        ),
        successful_run(db.batches[p], turns).batch_id == db.batches[p].batch_id,
    decreases turns.len(),
{
    let batch_id = db.batches[p].batch_id;
    if turns.len() == 0 {
        assert(db.batches.update(p, db.batches[p]) =~= db.batches);
    } else {
        let front = turns.drop_last();
        let t = turns.last();
        assert forall|i: int| 0 <= i < front.len() implies (
        #[trigger] front[i]).heartbeat_interval_millis == HEARTBEAT_INTERVAL_MILLIS by {
            assert(front[i] == turns[i]);
        }
        lemma_run_in_store(db, p, front);
        let before = run_in_store(db, batch_id, front);
        let b = successful_run(db.batches[p], front);
        lemma_position_kept(db.batches, p, b);
        let index = (turns.len() - 1) as usize;
        let started = start_command_model(
            before,
            batch_id,
            index,
            t.nonce,
            t.attempt_token,
            t.started_at,
        ).0;
        let b1 = start_model(
            b,
            index,
            t.nonce,
            t.attempt_token,
            t.started_at,
            HEARTBEAT_INTERVAL_MILLIS,
        ).0;
        assert(started.batches =~= db.batches.update(p, b1));
        lemma_position_kept(db.batches, p, b1);
        let b2 = complete_model(b1, t.attempt_token, true, t.data, t.completed_at).0;
        let after = run_in_store(db, batch_id, turns);
        assert(after.batches =~= db.batches.update(p, b2));
        assert(b2 == succeed_once(b, index, t));
    }
}

/// Replacing the batch at its position by one with the same id keeps the
/// position of that id.
pub proof fn lemma_position_kept(batches: Seq<BatchView>, p: int, b: BatchView)
    requires
        0 <= p < batches.len(),
        batch_position(batches, batches[p].batch_id, 0) == p,
        b.batch_id == batches[p].batch_id,
    ensures
        batch_position(batches.update(p, b), b.batch_id, 0) == p,
{
    lemma_batch_position_found(batches, b.batch_id, 0);
    let after = batches.update(p, b);
    assert forall|j: int| 0 <= j < p implies (#[trigger] after[j]).batch_id != b.batch_id by {
        assert(after[j] == batches[j]);
    }
    lemma_batch_position(after, b.batch_id, 0, p);
}

/// After a batch has been created and every command of it has been started
/// and completed with success, in order, the batch is described as done
/// with success, and so is every command of it.
pub proof fn lemma_describe_after_full_run(
    db: DatabaseView,
    fingerprint: u64,
    fresh_id: Seq<char>,
    input: InputView,
    now: usize,
    turns: Seq<Turn>,
)
    requires
        !db.idempotency.contains_key(fingerprint),
        batch_position(db.batches, fresh_id, 0) >= db.batches.len(),
        turns.len() == input.commands.len(),
        input.commands.len() <= usize::MAX,
        forall|i: int|
            0 <= i < turns.len() ==> (#[trigger] turns[i]).heartbeat_interval_millis
                == HEARTBEAT_INTERVAL_MILLIS,
    ensures
        describe_commands_model(
            run_in_store(dispatch_model(db, fingerprint, fresh_id, input, now).0, fresh_id, turns),
            fresh_id,
        ) == Some(
            (
                BatchStatus::Done { succeeded: true },
                Seq::new(input.commands.len(), |i: int| CommandStatus::Done { succeeded: true }),
            ),
        ),
{
    let created = dispatch_model(db, fingerprint, fresh_id, input, now).0;
    let fresh = new_batch(
        fresh_id,
        input.target_name,
        input.nonce,
        input.commands,
        input.batch_complete_notification,
        now,
    );
    let p = db.batches.len() as int;
    lemma_batch_position_found(db.batches, fresh_id, 0);
    assert(created.batches == db.batches.push(fresh));
    assert forall|j: int| 0 <= j < p implies (#[trigger] created.batches[j]).batch_id
        != fresh_id by {
        assert(created.batches[j] == db.batches[j]);
    }
    lemma_batch_position(created.batches, fresh_id, 0, p);
    lemma_run_in_store(created, p, turns);
    lemma_full_run_succeeds(
        fresh_id,
        input.target_name,
        input.nonce,
        input.commands,
        input.batch_complete_notification,
        now,
        turns,
    );
    let end = successful_run(fresh, turns);
    lemma_position_kept(created.batches, p, end);
    assert(end.commands.map_values(|c: CommandRecordView| c.status) =~= Seq::new(
        input.commands.len(),
        |i: int| CommandStatus::Done { succeeded: true },
    ));
}

/// A poll that finds no work and is parked first in line is woken by the
/// next batch dispatched against its target, and when it looks again it is
/// answered with that batch: its id and its first command.
pub proof fn lemma_long_poll_wake(
    db: DatabaseView,
    target_name: Seq<char>,
    exclude_batches: Seq<Seq<char>>,
    group_membership: Seq<Seq<char>>,
    deadline: usize,
    polled_at: usize,
    fingerprint: u64,
    fresh_id: Seq<char>,
    input: InputView,
    dispatched_at: usize,
    resumed_at: usize,
)
    requires
        candidates(db.batches, target_name, exclude_batches, polled_at).len() == 0,
        polled_at < deadline,
        has_room(db.registry, target_name),
        forall|i: int|
            0 <= i < db.registry.waiters.len() ==> !wants(
                #[trigger] db.registry.waiters[i],
                target_name,
                fresh_id,
            ),
        !db.idempotency.contains_key(fingerprint),
        batch_position(db.batches, fresh_id, 0) >= db.batches.len(),
        input.target_name == target_name,
        input.commands.len() > 0,
        !exclude_batches.contains(fresh_id),
    ensures
        ({
            let parked = poll_model(
                db,
                target_name,
                exclude_batches,
                group_membership,
                deadline,
                polled_at,
            );
            let dispatched = dispatch_model(parked.0, fingerprint, fresh_id, input, dispatched_at);
            let resumed = poll_model(
                dispatched.0,
                target_name,
                exclude_batches,
                group_membership,
                deadline,
                resumed_at,
            );
            &&& parked.1 == (receive_commands::PolledView::Parked {
                waiter: db.registry.next_id,
                deadline,
            })
            &&& dispatched.1 == fresh_id
            &&& dispatched.0.woken == db.woken.push(db.registry.next_id)
            &&& dispatched.0.registry.waiters == db.registry.waiters
            &&& resumed.0 == dispatched.0
            &&& resumed.1 matches receive_commands::PolledView::Ready(found) && found.len() > 0
                && found.last() == (receive_commands::BatchView {
                id: fresh_id,
                commands: seq![
                    receive_commands::CommandView {
                        index: 0,
                        name: input.commands[0].name,
                        data: input.commands[0].data,
                        heartbeat_interval_millis: HEARTBEAT_INTERVAL_MILLIS,
                    },
                ],
            })
        }),
{
    let parked = poll_model(db, target_name, exclude_batches, group_membership, deadline, polled_at);
    let waiters = parked.0.registry.waiters;
    let n = db.registry.waiters.len() as int;
    assert(waiters.len() == n + 1);
    assert forall|j: int| 0 <= j < n implies !wants(#[trigger] waiters[j], target_name, fresh_id) by {
        assert(waiters[j] == db.registry.waiters[j]);
    }
    assert(wants(waiters[n], target_name, fresh_id));
    lemma_first_wanting_is(waiters, target_name, fresh_id, n);
    assert(waiters.remove(n) =~= db.registry.waiters);
    lemma_batch_position_found(db.batches, fresh_id, 0);
    let fresh = new_batch(
        fresh_id,
        input.target_name,
        input.nonce,
        input.commands,
        input.batch_complete_notification,
        dispatched_at,
    );
    let dispatched = dispatch_model(parked.0, fingerprint, fresh_id, input, dispatched_at);
    assert(dispatched.0.batches == db.batches.push(fresh));
    assert(dispatched.0.batches.drop_last() =~= db.batches);
    assert forall|i: int| 0 <= i < fresh.commands.len() implies !required_failure(
        #[trigger] fresh.commands[i],
    ) by {}
    lemma_first_open_is(fresh.commands, 0);
}

} // verus!
