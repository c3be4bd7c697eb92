//! The store behind the service: idempotency records, batches, parked
//! polls, and the notifications and wake-ups that wait to be carried out.
//!
//! Every operation is a total function of the store and the request. The
//! functions here are stated over the store's view; the invariants of the
//! store and the laws that relate the operations are in `laws`.

use crate::batch::expire_model;
use crate::batch::complete_model;
use crate::batch::heartbeat_model;
use crate::batch::new_batch;
use crate::batch::pending_model;
use crate::batch::start_model;
use crate::batch::status_of;
use crate::batch::describe_command_model;
use crate::batch::description_view;
use crate::batch::BatchRecord;
use crate::batch::BatchView;
use crate::batch::CommandRecordView;
use crate::batch::Completion;
use crate::batch::Finished;
use crate::batch::lemma_first_open;
use crate::batch::progress_of;
use crate::batch::Progress;
use crate::batch::running_attempt;
use crate::laws::lemma_complete_command_preserves;
use crate::laws::lemma_delete_preserves;
use crate::laws::lemma_dispatch_preserves;
use crate::laws::lemma_heartbeat_command_preserves;
use crate::laws::lemma_poll_preserves;
use crate::laws::lemma_start_command_preserves;
use crate::laws::lemma_sweep_preserves;
use crate::laws::lemma_waiters_preserve;
use crate::laws::preserves;
use crate::notifications::enqueue;
use crate::notifications::notification_views;
use crate::notifications::notify;
use crate::notifications::Event;
use crate::notifications::Notification;
use crate::notifications::NotificationView;
use crate::operations::complete_command;
use crate::operations::delete_commands;
use crate::operations::describe_command;
use crate::operations::describe_commands;
use crate::operations::dispatch_commands;
use crate::operations::heartbeat_command;
use crate::operations::receive_commands;
use crate::operations::start_command;
use crate::waiters::cancel_model;
use crate::waiters::contains_string;
use crate::waiters::duplicate_strings;
use crate::waiters::expire_waiters_model;
use crate::waiters::park_model;
use crate::waiters::string_views;
use crate::waiters::wake_model;
use crate::waiters::RegistryView;
use crate::waiters::WaiterRegistry;
use std::collections::HashMap;
use vstd::prelude::*;

verus! {

broadcast use vstd::std_specs::hash::group_hash_axioms;

/// How often an executor is asked to heartbeat a running attempt, in
/// milliseconds.
pub const HEARTBEAT_INTERVAL_MILLIS: usize = 10000;

/// The least time, in milliseconds, that an attempt may go without a
/// heartbeat before its lease runs out.
pub const LEASE_GRACE_MILLIS: usize = 30000;

/// How often the leases should be swept, in milliseconds: four times per
/// heartbeat interval.
pub const SWEEP_PERIOD_MILLIS: usize = HEARTBEAT_INTERVAL_MILLIS / 4;

/// The longest a poll may wait, in milliseconds, whatever it asks for.
pub const MAX_POLL_TIMEOUT_MILLIS: usize = 60000;

/// The store as plain data.
pub struct DatabaseView {
    /// The batch id recorded for each fingerprint.
    pub idempotency: Map<u64, Seq<char>>,
    /// The batches, in the order in which they were created.
    pub batches: Seq<BatchView>,
    /// The parked polls.
    pub registry: RegistryView,
    /// Notifications that wait to be delivered, oldest first.
    pub outbox: Seq<NotificationView>,
    /// Parked polls that were woken and wait to be resumed, oldest first.
    pub woken: Seq<u64>,
    /// The connection records, oldest first.
    pub connections: Seq<ConnectionView>,
}

/// What backs a target of an account.
#[derive(Debug)]
pub struct ConnectionRecord {
    pub account_id: String,
    pub target_name: String,
    /// The resource behind the target.
    pub resource: String,
}

/// A connection record as plain data.
pub struct ConnectionView {
    pub account_id: Seq<char>,
    pub target_name: Seq<char>,
    pub resource: Seq<char>,
}

impl View for ConnectionRecord {
    type V = ConnectionView;

    open spec fn view(&self) -> ConnectionView {
        ConnectionView {
            account_id: self.account_id@,
            target_name: self.target_name@,
            resource: self.resource@,
        }
    }
}

/// The views of a list of connection records, in order.
pub open spec fn connection_views(connections: Seq<ConnectionRecord>) -> Seq<ConnectionView> {
    Seq::new(connections.len(), |i: int| connections[i]@)
}

/// The position of the first record from `from` on for this account and
/// target, or the number of records if there is none.
pub open spec fn connection_position(
    connections: Seq<ConnectionView>,
    account_id: Seq<char>,
    target_name: Seq<char>,
    from: int,
) -> int
    decreases connections.len() - from,
{
    if from >= connections.len() {
        connections.len() as int
    } else if connections[from].account_id == account_id && connections[from].target_name
        == target_name {
        from
    } else {
        connection_position(connections, account_id, target_name, from + 1)
    }
}

/// `connection_position` finds the first record for the account and
/// target.
pub proof fn lemma_connection_position(
    connections: Seq<ConnectionView>,
    account_id: Seq<char>,
    target_name: Seq<char>,
    from: int,
    k: int,
)
    requires
        0 <= from <= k <= connections.len(),
        forall|j: int|
            from <= j < k ==> !((#[trigger] connections[j]).account_id == account_id
                && connections[j].target_name == target_name),
        k < connections.len() ==> connections[k].account_id == account_id
            && connections[k].target_name == target_name,
    ensures
        connection_position(connections, account_id, target_name, from) == k,
    decreases k - from,
{
    if from < k {
        assert(!(connections[from].account_id == account_id && connections[from].target_name
            == target_name));
        lemma_connection_position(connections, account_id, target_name, from + 1, k);
    }
}

/// The resource on record for a target of an account, if any.
pub open spec fn connection_model(
    db: DatabaseView,
    account_id: Seq<char>,
    target_name: Seq<char>,
) -> Option<Seq<char>> {
    let at = connection_position(db.connections, account_id, target_name, 0);
    if 0 <= at < db.connections.len() {
        Some(db.connections[at].resource)
    } else {
        None
    }
}

/// A target of an account is bound to a resource: the record for them is
/// replaced, or added if there is none.
pub open spec fn bind_model(
    db: DatabaseView,
    account_id: Seq<char>,
    target_name: Seq<char>,
    resource: Seq<char>,
) -> DatabaseView {
    let at = connection_position(db.connections, account_id, target_name, 0);
    let record = ConnectionView { account_id, target_name, resource };
    if 0 <= at < db.connections.len() {
        DatabaseView { connections: db.connections.update(at, record), ..db }
    } else {
        DatabaseView { connections: db.connections.push(record), ..db }
    }
}

/// The views of a list of batches, in order.
pub open spec fn batch_views(batches: Seq<BatchRecord>) -> Seq<BatchView> {
    Seq::new(batches.len(), |i: int| batches[i]@)
}

/// The position of the first batch from `from` on with this id, or the
/// number of batches if there is none.
pub open spec fn batch_position(batches: Seq<BatchView>, batch_id: Seq<char>, from: int) -> int
    decreases batches.len() - from,
{
    if from >= batches.len() {
        batches.len() as int
    } else if batches[from].batch_id == batch_id {
        from
    } else {
        batch_position(batches, batch_id, from + 1)
    }
}

/// `batch_position` finds the first batch with the id.
pub proof fn lemma_batch_position(batches: Seq<BatchView>, batch_id: Seq<char>, from: int, k: int)
    requires
        0 <= from <= k <= batches.len(),
        forall|j: int| from <= j < k ==> (#[trigger] batches[j]).batch_id != batch_id,
        k < batches.len() ==> batches[k].batch_id == batch_id,
    ensures
        batch_position(batches, batch_id, from) == k,
    decreases k - from,
{
    if from < k {
        assert(batches[from].batch_id != batch_id);
        lemma_batch_position(batches, batch_id, from + 1, k);
    }
}

/// What `batch_position` returns is the first batch with the id.
pub proof fn lemma_batch_position_found(batches: Seq<BatchView>, batch_id: Seq<char>, from: int)
    requires
        0 <= from <= batches.len(),
    ensures
        from <= batch_position(batches, batch_id, from) <= batches.len(),
        forall|j: int|
            from <= j < batch_position(batches, batch_id, from) ==> (#[trigger] batches[j]).batch_id
                != batch_id,
        batch_position(batches, batch_id, from) < batches.len() ==> batches[batch_position(
            batches,
            batch_id,
            from,
        )].batch_id == batch_id,
    decreases batches.len() - from,
{
    if from < batches.len() && batches[from].batch_id != batch_id {
        lemma_batch_position_found(batches, batch_id, from + 1);
    }
}

/// The store with the batch at `p` replaced.
pub open spec fn with_batch(db: DatabaseView, p: int, b: BatchView) -> DatabaseView {
    DatabaseView { batches: db.batches.update(p, b), ..db }
}

/// `woken` with one more id, if there is one.
pub open spec fn note_woken(woken: Seq<u64>, id: Option<u64>) -> Seq<u64> {
    match id {
        Some(id) => woken.push(id),
        None => woken,
    }
}

/// An attempt of the command at `a` of the batch at `p` became available:
/// the command's availability channel is notified, and the poll that has
/// waited longest for such a batch is woken.
pub open spec fn available_model(db: DatabaseView, p: int, a: int) -> DatabaseView {
    let b = db.batches[p];
    let woken = wake_model(db.registry, b.target_name, b.batch_id);
    DatabaseView {
        outbox: notify(
            db.outbox,
            b.commands[a].definition.command_available_notification,
            b.batch_id,
            Event::CommandAvailable { command_index: a as usize },
        ),
        registry: woken.0,
        woken: note_woken(db.woken, woken.1),
        ..db
    }
}

/// The attempt of a command of the batch at `p` ended: the command's
/// progress channel is notified; if an attempt became available, that is
/// announced; and if the batch is done, its completion channel is notified.
pub open spec fn announce_model(db: DatabaseView, p: int, finished: Option<Finished>) -> DatabaseView {
    match finished {
        None => db,
        Some(f) => {
            let b = db.batches[p];
            let told = DatabaseView {
                outbox: notify(
                    db.outbox,
                    b.commands[f.command_index as int].definition.command_progress_notification,
                    b.batch_id,
                    Event::AttemptCompleted {
                        command_index: f.command_index,
                        succeeded: f.succeeded,
                    },
                ),
                ..db
            };
            let offered = match f.available {
                Some(a) => available_model(told, p, a as int),
                None => told,
            };
            match f.batch_done {
                Some(succeeded) => DatabaseView {
                    outbox: notify(
                        offered.outbox,
                        b.batch_complete_notification,
                        b.batch_id,
                        Event::BatchCompleted { succeeded },
                    ),
                    ..offered
                },
                None => offered,
            }
        },
    }
}

/// `DispatchCommands`. The fingerprint decides the batch id: the one on
/// record for it, or else the fresh one, which is then put on record. If
/// no batch has that id yet, the batch is created, and if it has a command,
/// the first one is announced as available. An existing batch is never
/// touched.
pub open spec fn dispatch_model(
    db: DatabaseView,
    fingerprint: u64,
    fresh_id: Seq<char>,
    input: dispatch_commands::InputView,
    now: usize,
) -> (DatabaseView, Seq<char>) {
    let known = db.idempotency.contains_key(fingerprint);
    let batch_id = if known {
        db.idempotency[fingerprint]
    } else {
        fresh_id
    };
    let recorded = DatabaseView {
        idempotency: if known {
            db.idempotency
        } else {
            db.idempotency.insert(fingerprint, fresh_id)
        },
        ..db
    };
    if batch_position(db.batches, batch_id, 0) < db.batches.len() {
        (recorded, batch_id)
    } else {
        let created = DatabaseView {
            batches: db.batches.push(
                new_batch(
                    batch_id,
                    input.target_name,
                    input.nonce,
                    input.commands,
                    input.batch_complete_notification,
                    now,
                ),
            ),
            ..recorded
        };
        if input.commands.len() > 0 {
            (available_model(created, db.batches.len() as int, 0), batch_id)
        } else {
            (created, batch_id)
        }
    }
}

/// `StartCommand`. An unknown batch is told to discard. Otherwise the
/// batch decides, and a newly started attempt is reported on the command's
/// progress channel.
pub open spec fn start_command_model(
    db: DatabaseView,
    batch_id: Seq<char>,
    index: usize,
    nonce: Seq<char>,
    attempt_token: Seq<char>,
    now: usize,
) -> (DatabaseView, start_command::OutputView) {
    let p = batch_position(db.batches, batch_id, 0);
    if p < db.batches.len() {
        let started = start_model(
            db.batches[p],
            index,
            nonce,
            attempt_token,
            now,
            HEARTBEAT_INTERVAL_MILLIS,
        );
        let stored = with_batch(db, p, started.0);
        if started.2 {
            (
                DatabaseView {
                    outbox: notify(
                        db.outbox,
                        started.0.commands[index as int].definition.command_progress_notification,
                        started.0.batch_id,
                        Event::AttemptStarted { command_index: index },
                    ),
                    ..stored
                },
                started.1,
            )
        } else {
            (stored, started.1)
        }
    } else {
        (db, start_command::OutputView::Discard)
    }
}

/// `HeartbeatCommand`. An unknown batch is told to discard. Otherwise the
/// batch decides.
pub open spec fn heartbeat_command_model(
    db: DatabaseView,
    batch_id: Seq<char>,
    attempt_token: Seq<char>,
    now: usize,
) -> (DatabaseView, heartbeat_command::Output) {
    let p = batch_position(db.batches, batch_id, 0);
    if p < db.batches.len() {
        let beaten = heartbeat_model(db.batches[p], attempt_token, now);
        (with_batch(db, p, beaten.0), beaten.1)
    } else {
        (db, heartbeat_command::Output::Discard)
    }
}

/// The view of an optional string.
pub open spec fn data_option_view(data: Option<String>) -> Option<Seq<char>> {
    match data {
        Some(s) => Some(s@),
        None => None,
    }
}

/// The completion data an executor sent, or the empty string.
pub open spec fn data_view(data: Option<String>) -> Seq<char> {
    match data {
        Some(s) => s@,
        None => Seq::empty(),
    }
}

/// `CompleteCommand`. An unknown batch is told to discard. Otherwise the
/// batch decides, and what changed is announced.
pub open spec fn complete_command_model(
    db: DatabaseView,
    batch_id: Seq<char>,
    attempt_token: Seq<char>,
    success: bool,
    data: Seq<char>,
    now: usize,
) -> (DatabaseView, complete_command::Output) {
    let p = batch_position(db.batches, batch_id, 0);
    if p < db.batches.len() {
        let completed = complete_model(db.batches[p], attempt_token, success, data, now);
        (
            announce_model(with_batch(db, p, completed.0), p, completed.1.finished),
            completed.1.instruction,
        )
    } else {
        (db, complete_command::Output::Discard)
    }
}

/// When an attempt ends, the command it names and the command it makes
/// available are commands of the batch, which keeps its length and what was
/// submitted.
pub proof fn lemma_finished_in_range(b: BatchView, after: BatchView, c: Completion)
    requires
        running_attempt(b) is Some,
        exists|success: bool, data: Seq<char>, now: usize|
            (after, c) == #[trigger] crate::batch::finish_model(
                b,
                running_attempt(b).unwrap().index,
                success,
                data,
                now,
            ),
    ensures
        after.commands.len() == b.commands.len(),
        after.batch_id == b.batch_id,
        after.target_name == b.target_name,
        c.finished matches Some(f) ==> f.command_index < b.commands.len() && (
        f.available matches Some(a) ==> a < b.commands.len()),
{
    lemma_first_open(b.commands, 0);
}

/// The store in memory.
pub struct LocalDatabase {
    idempotency: HashMap<u64, String>,
    batches: Vec<BatchRecord>,
    registry: WaiterRegistry,
    outbox: Vec<Notification>,
    woken: Vec<u64>,
    connections: Vec<ConnectionRecord>,
}

impl View for LocalDatabase {
    type V = DatabaseView;

    closed spec fn view(&self) -> DatabaseView {
        DatabaseView {
            idempotency: self.idempotency@.map_values(|s: String| s@),
            batches: batch_views(self.batches@),
            registry: self.registry@,
            outbox: notification_views(self.outbox@),
            woken: self.woken@,
            connections: connection_views(self.connections@),
        }
    }
}

/// The store that holds nothing.
pub open spec fn empty_database() -> DatabaseView {
    DatabaseView {
        idempotency: Map::empty(),
        batches: Seq::empty(),
        registry: RegistryView { waiters: Seq::empty(), next_id: 0 },
        outbox: Seq::empty(),
        woken: Seq::empty(),
        connections: Seq::empty(),
    }
}

impl LocalDatabase {
    /// An empty store.
    pub fn new() -> (db: LocalDatabase)
        ensures
            db@ == empty_database(),
    {
        let db = LocalDatabase {
            idempotency: HashMap::new(),
            batches: Vec::new(),
            registry: WaiterRegistry::new(),
            outbox: Vec::new(),
            woken: Vec::new(),
            connections: Vec::new(),
        };
        assert(db@.idempotency =~= Map::empty());
        assert(db@.batches =~= Seq::empty());
        assert(db@.outbox =~= Seq::empty());
        assert(db@.connections =~= Seq::empty());
        db
    }

    /// The position of the connection record for this account and target.
    fn find_connection(&self, account_id: &String, target_name: &String) -> (r: Option<usize>)
        ensures
            match r {
                Some(at) => at < self.connections@.len() && at == connection_position(
                    self@.connections,
                    account_id@,
                    target_name@,
                    0,
                ),
                None => connection_position(self@.connections, account_id@, target_name@, 0)
                    == self.connections@.len(),
            },
            self@.connections.len() == self.connections@.len(),
    {
        let ghost views = self@.connections;
        let mut i: usize = 0;
        while i < self.connections.len()
            invariant
                i <= self.connections.len(),
                views == connection_views(self.connections@),
                forall|j: int|
                    0 <= j < i ==> !((#[trigger] views[j]).account_id == account_id@
                        && views[j].target_name == target_name@),
            decreases self.connections.len() - i,
        {
            assert(views[i as int] == self.connections@[i as int]@);
            if self.connections[i].account_id == *account_id && self.connections[i].target_name
                == *target_name {
                proof {
                    lemma_connection_position(views, account_id@, target_name@, 0, i as int);
                }
                return Some(i);
            }
            i = i + 1;
        }
        proof {
            lemma_connection_position(views, account_id@, target_name@, 0, views.len() as int);
        }
        None
    }

    /// The resource on record for a target of an account, if any.
    pub fn connection(&self, account_id: &String, target_name: &String) -> (r: Option<String>)
        ensures
            data_option_view(r) == connection_model(self@, account_id@, target_name@),
    {
        match self.find_connection(account_id, target_name) {
            Some(at) => {
                assert(self@.connections[at as int] == self.connections@[at as int]@);
                Some(self.connections[at].resource.clone())
            },
            None => None,
        }
    }

    /// Binds a target of an account to a resource.
    pub fn bind_connection(&mut self, account_id: String, target_name: String, resource: String)
        ensures
            final(self)@ == bind_model(old(self)@, account_id@, target_name@, resource@),
            preserves(old(self)@, final(self)@),
    {
        let ghost before = self@;
        let ghost record = ConnectionView {
            account_id: account_id@,
            target_name: target_name@,
            resource: resource@,
        };
        match self.find_connection(&account_id, &target_name) {
            Some(at) => {
                self.connections[at] = ConnectionRecord { account_id, target_name, resource };
                assert(self@.connections =~= before.connections.update(at as int, record));
            },
            None => {
                self.connections.push(ConnectionRecord { account_id, target_name, resource });
                assert(self@.connections =~= before.connections.push(record));
            },
        }
    }

    /// The position of the batch with this id.
    fn find(&self, batch_id: &String) -> (r: Option<usize>)
        ensures
            match r {
                Some(p) => p < self.batches@.len() && p == batch_position(
                    self@.batches,
                    batch_id@,
                    0,
                ),
                None => batch_position(self@.batches, batch_id@, 0) == self.batches@.len(),
            },
            self@.batches.len() == self.batches@.len(),
    {
        let ghost views = self@.batches;
        let mut i: usize = 0;
        while i < self.batches.len()
            invariant
                i <= self.batches.len(),
                views == batch_views(self.batches@),
                forall|j: int| 0 <= j < i ==> (#[trigger] views[j]).batch_id != batch_id@,
            decreases self.batches.len() - i,
        {
            assert(views[i as int] == self.batches@[i as int]@);
            if self.batches[i].batch_id == *batch_id {
                proof {
                    lemma_batch_position(views, batch_id@, 0, i as int);
                }
                return Some(i);
            }
            i = i + 1;
        }
        proof {
            lemma_batch_position(views, batch_id@, 0, views.len() as int);
        }
        None
    }

    /// Announces that an attempt of the command at `a` of the batch at `p`
    /// became available.
    fn announce_available(&mut self, p: usize, a: usize)
        requires
            p < old(self)@.batches.len(),
            a < old(self)@.batches[p as int].commands.len(),
        ensures
            final(self)@ == available_model(old(self)@, p as int, a as int),
    {
        let ghost before = self@;
        assert(before.batches[p as int] == self.batches@[p as int]@);
        assert(before.batches[p as int].commands[a as int]
            == self.batches@[p as int].commands@[a as int]@);
        enqueue(
            &mut self.outbox,
            &self.batches[p].commands[a].definition.command_available_notification,
            &self.batches[p].batch_id,
            Event::CommandAvailable { command_index: a },
        );
        match self.registry.wake(&self.batches[p].target_name, &self.batches[p].batch_id) {
            Some(id) => {
                self.woken.push(id);
            },
            None => {},
        }
    }

    /// Announces what the end of an attempt of the batch at `p` changed.
    fn announce(&mut self, p: usize, finished: Option<Finished>)
        requires
            p < old(self)@.batches.len(),
            finished matches Some(f) ==> f.command_index < old(self)@.batches[p as int].commands.len()
                && (f.available matches Some(a) ==> a < old(self)@.batches[p as int].commands.len()),
        ensures
            final(self)@ == announce_model(old(self)@, p as int, finished),
    {
        let ghost before = self@;
        match finished {
            None => {},
            Some(f) => {
                assert(before.batches[p as int] == self.batches@[p as int]@);
                assert(before.batches[p as int].commands[f.command_index as int]
                    == self.batches@[p as int].commands@[f.command_index as int]@);
                enqueue(
                    &mut self.outbox,
                    &self.batches[p].commands[f.command_index].definition.command_progress_notification,
                    &self.batches[p].batch_id,
                    Event::AttemptCompleted {
                        command_index: f.command_index,
                        succeeded: f.succeeded,
                    },
                );
                match f.available {
                    Some(a) => {
                        self.announce_available(p, a);
                    },
                    None => {},
                }
                match f.batch_done {
                    Some(succeeded) => {
                        assert(self@.batches == before.batches);
                        enqueue(
                            &mut self.outbox,
                            &self.batches[p].batch_complete_notification,
                            &self.batches[p].batch_id,
                            Event::BatchCompleted { succeeded },
                        );
                    },
                    None => {},
                }
            },
        }
    }
}

/// Lease expiry on the batch at `p`, with what it changed announced.
pub open spec fn sweep_one(db: DatabaseView, p: int, now: usize) -> DatabaseView {
    let expired = expire_model(db.batches[p], now, LEASE_GRACE_MILLIS);
    announce_model(with_batch(db, p, expired.0), p, expired.1.finished)
}

/// Lease expiry on the first `upto` batches, in order.
pub open spec fn sweep_model(db: DatabaseView, upto: int, now: usize) -> DatabaseView
    decreases upto,
{
    if upto <= 0 {
        db
    } else {
        sweep_one(sweep_model(db, upto - 1, now), upto - 1, now)
    }
}

/// `DescribeCommands`: the status of the batch and of each command, or
/// nothing for an unknown batch.
pub open spec fn describe_commands_model(db: DatabaseView, batch_id: Seq<char>) -> Option<
    (describe_commands::BatchStatus, Seq<describe_commands::CommandStatus>),
> {
    let p = batch_position(db.batches, batch_id, 0);
    if p < db.batches.len() {
        Some(
            (
                status_of(db.batches[p].commands),
                db.batches[p].commands.map_values(|c: CommandRecordView| c.status),
            ),
        )
    } else {
        None
    }
}

/// The view of an optional batch description.
pub open spec fn batch_description_view(d: Option<describe_commands::Output>) -> Option<
    (describe_commands::BatchStatus, Seq<describe_commands::CommandStatus>),
> {
    match d {
        Some(d) => Some((d.batch, d.commands@)),
        None => None,
    }
}

/// `DescribeCommand`: the status of the command and of each attempt, or
/// nothing for an unknown batch or command.
pub open spec fn describe_one_model(db: DatabaseView, batch_id: Seq<char>, index: usize) -> Option<
    describe_command::OutputView,
> {
    let p = batch_position(db.batches, batch_id, 0);
    if p < db.batches.len() {
        describe_command_model(db.batches[p], index)
    } else {
        None
    }
}

/// `DeleteCommands`: the batch with this id, if there is one, is removed
/// with its commands and attempts. The idempotency records stay.
pub open spec fn delete_model(db: DatabaseView, batch_id: Seq<char>) -> DatabaseView {
    let p = batch_position(db.batches, batch_id, 0);
    if p < db.batches.len() {
        DatabaseView { batches: db.batches.remove(p), ..db }
    } else {
        db
    }
}

impl LocalDatabase {
    /// `DispatchCommands`, given the fingerprint of the request and a
    /// fresh batch id to use if the fingerprint is new.
    pub fn dispatch(
        &mut self,
        fingerprint: u64,
        fresh_id: String,
        input: &dispatch_commands::Input,
        now: usize,
    ) -> (out: dispatch_commands::Output)
        ensures
            (final(self)@, out.batch_id@) == dispatch_model(
                old(self)@,
                fingerprint,
                fresh_id@,
                input@,
                now,
            ),
            preserves(old(self)@, final(self)@),
    {
        proof {
            lemma_dispatch_preserves(self@, fingerprint, fresh_id@, input@, now);
        }
        let ghost before = self@;
        let known: Option<String> = match self.idempotency.get(&fingerprint) {
            Some(id) => Some(id.clone()),
            None => None,
        };
        let batch_id = match known {
            Some(id) => id,
            None => {
                self.idempotency.insert(fingerprint, fresh_id.clone());
                assert(self@.idempotency =~= before.idempotency.insert(fingerprint, fresh_id@));
                fresh_id
            },
        };
        let ghost recorded = self@;
        if self.find(&batch_id).is_none() {
            let p = self.batches.len();
            let batch = BatchRecord::new(
                batch_id.clone(),
                input.target_name.clone(),
                input.nonce.clone(),
                &input.commands,
                dispatch_commands::duplicate_channel(&input.batch_complete_notification),
                now,
            );
            self.batches.push(batch);
            assert(self@.batches =~= recorded.batches.push(
                new_batch(
                    batch_id@,
                    input@.target_name,
                    input@.nonce,
                    input@.commands,
                    input@.batch_complete_notification,
                    now,
                ),
            ));
            if input.commands.len() > 0 {
                self.announce_available(p, 0);
            }
        }
        dispatch_commands::Output { batch_id }
    }

    /// `StartCommand`, given a fresh attempt token to use if an attempt is
    /// started.
    pub fn start_command(
        &mut self,
        batch_id: &String,
        index: usize,
        nonce: &String,
        attempt_token: String,
        now: usize,
    ) -> (out: start_command::Output)
        ensures
            (final(self)@, out@) == start_command_model(
                old(self)@,
                batch_id@,
                index,
                nonce@,
                attempt_token@,
                now,
            ),
            preserves(old(self)@, final(self)@),
    {
        proof {
            lemma_start_command_preserves(self@, batch_id@, index, nonce@, attempt_token@, now);
        }
        let ghost before = self@;
        match self.find(batch_id) {
            Some(p) => {
                assert(before.batches[p as int] == self.batches@[p as int]@);
                let ghost expected = start_model(
                    before.batches[p as int],
                    index,
                    nonce@,
                    attempt_token@,
                    now,
                    HEARTBEAT_INTERVAL_MILLIS,
                );
                let started = self.batches[p].start(
                    index,
                    nonce,
                    attempt_token,
                    now,
                    HEARTBEAT_INTERVAL_MILLIS,
                );
                assert(self@.batches =~= before.batches.update(p as int, expected.0));
                if started.1 {
                    proof {
                        lemma_first_open(before.batches[p as int].commands, 0);
                        assert(self.batches@[p as int]@ == expected.0);
                        assert(progress_of(before.batches[p as int].commands) == (Progress::Active {
                            current: index,
                        }));
                        assert(index < before.batches[p as int].commands.len());
                        assert(expected.0.commands.len() == before.batches[p as int].commands.len());
                        assert(expected.0.commands[index as int]
                            == self.batches@[p as int].commands@[index as int]@);
                    }
                    enqueue(
                        &mut self.outbox,
                        &self.batches[p].commands[index].definition.command_progress_notification,
                        &self.batches[p].batch_id,
                        Event::AttemptStarted { command_index: index },
                    );
                }
                started.0
            },
            None => start_command::Output::Discard,
        }
    }

    /// `HeartbeatCommand`.
    pub fn heartbeat_command(&mut self, batch_id: &String, attempt_token: &String, now: usize) -> (out:
        heartbeat_command::Output)
        ensures
            (final(self)@, out) == heartbeat_command_model(
                old(self)@,
                batch_id@,
                attempt_token@,
                now,
            ),
            preserves(old(self)@, final(self)@),
    {
        proof {
            lemma_heartbeat_command_preserves(self@, batch_id@, attempt_token@, now);
        }
        let ghost before = self@;
        match self.find(batch_id) {
            Some(p) => {
                assert(before.batches[p as int] == self.batches@[p as int]@);
                let out = self.batches[p].heartbeat(attempt_token, now);
                assert(self@.batches =~= before.batches.update(
                    p as int,
                    heartbeat_model(before.batches[p as int], attempt_token@, now).0,
                ));
                out
            },
            None => heartbeat_command::Output::Discard,
        }
    }

    /// `CompleteCommand`.
    pub fn complete_command(
        &mut self,
        batch_id: &String,
        attempt_token: &String,
        success: bool,
        data: Option<String>,
        now: usize,
    ) -> (out: complete_command::Output)
        ensures
            (final(self)@, out) == complete_command_model(
                old(self)@,
                batch_id@,
                attempt_token@,
                success,
                data_view(data),
                now,
            ),
            preserves(old(self)@, final(self)@),
    {
        proof {
            lemma_complete_command_preserves(
                self@,
                batch_id@,
                attempt_token@,
                success,
                data_view(data),
                now,
            );
        }
        let ghost before = self@;
        match self.find(batch_id) {
            Some(p) => {
                assert(before.batches[p as int] == self.batches@[p as int]@);
                let text = match data {
                    Some(s) => s,
                    None => String::new(),
                };
                assert(text@ =~= data_view(data));
                let ghost expected = complete_model(
                    before.batches[p as int],
                    attempt_token@,
                    success,
                    text@,
                    now,
                );
                let completed = self.batches[p].complete(attempt_token, success, text, now);
                assert(self@.batches =~= before.batches.update(p as int, expected.0));
                proof {
                    if completed.finished is Some {
                        lemma_finished_in_range(before.batches[p as int], expected.0, completed);
                    }
                }
                self.announce(p, completed.finished);
                completed.instruction
            },
            None => complete_command::Output::Discard,
        }
    }

    /// Lease expiry over every batch: each running attempt whose lease has
    /// run out at `now` ends as a failure, and what that changed is
    /// announced.
    pub fn sweep(&mut self, now: usize)
        ensures
            final(self)@ == sweep_model(old(self)@, old(self)@.batches.len() as int, now),
            preserves(old(self)@, final(self)@),
    {
        proof {
            lemma_sweep_preserves(self@, now);
        }
        let ghost before = self@;
        let n = self.batches.len();
        let mut p: usize = 0;
        while p < n
            invariant
                p <= n,
                n == self.batches@.len(),
                n == before.batches.len(),
                self@ == sweep_model(before, p as int, now),
            decreases n - p,
        {
            let ghost here = self@;
            assert(here.batches[p as int] == self.batches@[p as int]@);
            let ghost expected = expire_model(here.batches[p as int], now, LEASE_GRACE_MILLIS);
            let expired = self.batches[p].expire(now, LEASE_GRACE_MILLIS);
            assert(self@.batches =~= here.batches.update(p as int, expected.0));
            proof {
                if expired.finished is Some {
                    lemma_finished_in_range(here.batches[p as int], expected.0, expired);
                }
            }
            self.announce(p, expired.finished);
            p = p + 1;
        }
    }

    /// `DescribeCommands`.
    pub fn describe_commands(&self, batch_id: &String) -> (out: Option<describe_commands::Output>)
        ensures
            batch_description_view(out) == describe_commands_model(self@, batch_id@),
    {
        match self.find(batch_id) {
            Some(p) => {
                assert(self@.batches[p as int] == self.batches@[p as int]@);
                let batch = &self.batches[p];
                Some(
                    describe_commands::Output {
                        batch: batch.status(),
                        commands: batch.command_statuses(),
                    },
                )
            },
            None => None,
        }
    }

    /// `DescribeCommand`.
    pub fn describe_command(&self, batch_id: &String, index: usize) -> (out: Option<
        describe_command::Output,
    >)
        ensures
            description_view(out) == describe_one_model(self@, batch_id@, index),
    {
        match self.find(batch_id) {
            Some(p) => {
                assert(self@.batches[p as int] == self.batches@[p as int]@);
                self.batches[p].describe_command(index)
            },
            None => None,
        }
    }

    /// `DeleteCommands`.
    pub fn delete_commands(&mut self, batch_id: &String) -> (out: delete_commands::Output)
        ensures
            final(self)@ == delete_model(old(self)@, batch_id@),
            preserves(old(self)@, final(self)@),
    {
        proof {
            lemma_delete_preserves(self@, batch_id@);
        }
        let ghost before = self@;
        match self.find(batch_id) {
            Some(p) => {
                self.batches.remove(p);
                assert(self@.batches =~= before.batches.remove(p as int));
            },
            None => {},
        }
        delete_commands::Output {  }
    }

    /// Hands over the notifications that wait to be delivered, oldest
    /// first, and forgets them.
    pub fn take_notifications(&mut self) -> (taken: Vec<Notification>)
        ensures
            notification_views(taken@) == old(self)@.outbox,
            final(self)@ == (DatabaseView { outbox: Seq::empty(), ..old(self)@ }),
            preserves(old(self)@, final(self)@),
    {
        let mut taken: Vec<Notification> = Vec::new();
        std::mem::swap(&mut self.outbox, &mut taken);
        assert(self@.outbox =~= Seq::empty());
        taken
    }

    /// Hands over the ids of the polls that were woken, oldest first, and
    /// forgets them.
    pub fn take_woken(&mut self) -> (taken: Vec<u64>)
        ensures
            taken@ == old(self)@.woken,
            final(self)@ == (DatabaseView { woken: Seq::empty(), ..old(self)@ }),
            preserves(old(self)@, final(self)@),
    {
        let mut taken: Vec<u64> = Vec::new();
        std::mem::swap(&mut self.woken, &mut taken);
        taken
    }
}

/// What a batch has for an executor that polls `target_name` at `now`: its
/// pending command, unless the batch is for another target or excluded.
pub open spec fn offer(
    b: BatchView,
    target_name: Seq<char>,
    exclude_batches: Seq<Seq<char>>,
    now: usize,
) -> Option<receive_commands::BatchView> {
    if b.target_name == target_name && !exclude_batches.contains(b.batch_id) {
        match pending_model(b, now, HEARTBEAT_INTERVAL_MILLIS) {
            Some(command) => Some(
                receive_commands::BatchView { id: b.batch_id, commands: seq![command] },
            ),
            None => None,
        }
    } else {
        None
    }
}

/// Everything the batches have for an executor that polls `target_name` at
/// `now`, in the order of the batches.
pub open spec fn candidates(
    batches: Seq<BatchView>,
    target_name: Seq<char>,
    exclude_batches: Seq<Seq<char>>,
    now: usize,
) -> Seq<receive_commands::BatchView>
    decreases batches.len(),
{
    if batches.len() == 0 {
        Seq::empty()
    } else {
        let before = candidates(batches.drop_last(), target_name, exclude_batches, now);
        match offer(batches.last(), target_name, exclude_batches, now) {
            Some(batch) => before.push(batch),
            None => before,
        }
    }
}

/// When a poll that starts at `now` gives up: after the time it asks for,
/// but no later than the service allows.
pub open spec fn poll_deadline(now: usize, timeout_millis: usize) -> usize {
    let wait = if timeout_millis <= MAX_POLL_TIMEOUT_MILLIS {
        timeout_millis
    } else {
        MAX_POLL_TIMEOUT_MILLIS
    };
    if now + wait <= usize::MAX {
        (now + wait) as usize
    } else {
        usize::MAX
    }
}

/// A poll at `now` that gives up at `deadline`. If there is work, or the
/// deadline has come, it is answered at once. Otherwise it is parked, and
/// if there is no room to park it, it is answered at once, with nothing.
pub open spec fn poll_model(
    db: DatabaseView,
    target_name: Seq<char>,
    exclude_batches: Seq<Seq<char>>,
    group_membership: Seq<Seq<char>>,
    deadline: usize,
    now: usize,
) -> (DatabaseView, receive_commands::PolledView) {
    let found = candidates(db.batches, target_name, exclude_batches, now);
    if found.len() > 0 || deadline <= now {
        (db, receive_commands::PolledView::Ready(found))
    } else {
        let parked = park_model(
            db.registry,
            target_name,
            exclude_batches,
            group_membership,
            deadline,
        );
        match parked.1 {
            Some(waiter) => (
                DatabaseView { registry: parked.0, ..db },
                receive_commands::PolledView::Parked { waiter, deadline },
            ),
            None => (db, receive_commands::PolledView::Ready(Seq::empty())),
        }
    }
}

/// Computes when a poll that starts at `now` gives up.
pub fn deadline_for(now: usize, timeout_millis: usize) -> (deadline: usize)
    ensures
        deadline == poll_deadline(now, timeout_millis),
{
    let wait = if timeout_millis <= MAX_POLL_TIMEOUT_MILLIS {
        timeout_millis
    } else {
        MAX_POLL_TIMEOUT_MILLIS
    };
    match now.checked_add(wait) {
        Some(deadline) => deadline,
        None => usize::MAX,
    }
}

impl LocalDatabase {
    /// Everything the store has for an executor that polls at `now`.
    fn collect(&self, target_name: &String, exclude_batches: &Vec<String>, now: usize) -> (found: Vec<
        receive_commands::Batch,
    >)
        ensures
            receive_commands::batch_views(found@) == candidates(
                self@.batches,
                target_name@,
                string_views(exclude_batches@),
                now,
            ),
    {
        let ghost views = self@.batches;
        let ghost exclude = string_views(exclude_batches@);
        let mut found: Vec<receive_commands::Batch> = Vec::new();
        let mut i: usize = 0;
        while i < self.batches.len()
            invariant
                i <= self.batches.len(),
                views == batch_views(self.batches@),
                exclude == string_views(exclude_batches@),
                receive_commands::batch_views(found@) == candidates(
                    views.subrange(0, i as int),
                    target_name@,
                    exclude,
                    now,
                ),
            decreases self.batches.len() - i,
        {
            let batch = &self.batches[i];
            assert(views.subrange(0, i + 1).drop_last() =~= views.subrange(0, i as int));
            assert(views.subrange(0, i + 1).last() == batch@);
            if batch.target_name == *target_name && !contains_string(
                exclude_batches,
                &batch.batch_id,
            ) {
                match batch.pending(now, HEARTBEAT_INTERVAL_MILLIS) {
                    Some(command) => {
                        let ghost earlier = receive_commands::batch_views(found@);
                        let mut commands: Vec<receive_commands::Command> = Vec::new();
                        commands.push(command);
                        let offered = receive_commands::Batch {
                            id: batch.batch_id.clone(),
                            commands,
                        };
                        assert(offered@.commands =~= seq![command@]);
                        found.push(offered);
                        assert(receive_commands::batch_views(found@) =~= earlier.push(offered@));
                    },
                    None => {},
                }
            }
            i = i + 1;
        }
        assert(views.subrange(0, i as int) =~= views);
        found
    }

    /// A poll at `now` that gives up at `deadline`.
    pub fn poll(&mut self, input: &receive_commands::Input, deadline: usize, now: usize) -> (out:
        receive_commands::Polled)
        ensures
            (final(self)@, out@) == poll_model(
                old(self)@,
                input.target_name@,
                string_views(input.exclude_batches@),
                string_views(input.group_membership@),
                deadline,
                now,
            ),
            preserves(old(self)@, final(self)@),
    {
        proof {
            lemma_poll_preserves(
                self@,
                input.target_name@,
                string_views(input.exclude_batches@),
                string_views(input.group_membership@),
                deadline,
                now,
            );
        }
        let found = self.collect(&input.target_name, &input.exclude_batches, now);
        if found.len() > 0 || deadline <= now {
            return receive_commands::Polled::Ready(
                receive_commands::Output { command_batches: found },
            );
        }
        match self.registry.park(
            input.target_name.clone(),
            duplicate_strings(&input.exclude_batches),
            duplicate_strings(&input.group_membership),
            deadline,
        ) {
            Some(waiter) => receive_commands::Polled::Parked { waiter, deadline },
            None => {
                let nothing: Vec<receive_commands::Batch> = Vec::new();
                assert(receive_commands::batch_views(nothing@) =~= Seq::empty());
                receive_commands::Polled::Ready(
                    receive_commands::Output { command_batches: nothing },
                )
            },
        }
    }

    /// Removes the parked polls whose deadline has come at `now`, and names
    /// them, oldest first. Each of them is answered with nothing.
    pub fn expire_waiters(&mut self, now: usize) -> (ids: Vec<u64>)
        ensures
            final(self)@ == (DatabaseView {
                registry: expire_waiters_model(old(self)@.registry, now).0,
                ..old(self)@
            }),
            ids@ == expire_waiters_model(old(self)@.registry, now).1,
            preserves(old(self)@, final(self)@),
    {
        proof {
            lemma_waiters_preserve(self@, 0, now);
        }
        self.registry.expire(now)
    }

    /// Gives up the parked poll with this id, if there is one.
    pub fn cancel_waiter(&mut self, id: u64) -> (found: bool)
        ensures
            final(self)@ == (DatabaseView {
                registry: cancel_model(old(self)@.registry, id).0,
                ..old(self)@
            }),
            found == cancel_model(old(self)@.registry, id).1,
            preserves(old(self)@, final(self)@),
    {
        proof {
            lemma_waiters_preserve(self@, id, 0);
        }
        self.registry.cancel(id)
    }
}

/// The store, whichever backend holds it.
pub enum Database {
    /// Everything is kept in memory.
    Local(LocalDatabase),
}

impl View for Database {
    type V = DatabaseView;

    open spec fn view(&self) -> DatabaseView {
        match self {
            Database::Local(db) => db@,
        }
    }
}

impl Database {
    /// An empty store in memory.
    pub fn local() -> (db: Database)
        ensures
            db@ == empty_database(),
    {
        Database::Local(LocalDatabase::new())
    }

    /// `DispatchCommands`, given the fingerprint of the request and a
    /// fresh batch id to use if the fingerprint is new.
    pub fn dispatch(
        &mut self,
        fingerprint: u64,
        fresh_id: String,
        input: &dispatch_commands::Input,
        now: usize,
    ) -> (out: dispatch_commands::Output)
        ensures
            (final(self)@, out.batch_id@) == dispatch_model(
                old(self)@,
                fingerprint,
                fresh_id@,
                input@,
                now,
            ),
            preserves(old(self)@, final(self)@),
    {
        match self {
            Database::Local(db) => db.dispatch(fingerprint, fresh_id, input, now),
        }
    }

    /// `StartCommand`, given a fresh attempt token to use if an attempt is
    /// started.
    pub fn start_command(
        &mut self,
        batch_id: &String,
        index: usize,
        nonce: &String,
        attempt_token: String,
        now: usize,
    ) -> (out: start_command::Output)
        ensures
            (final(self)@, out@) == start_command_model(
                old(self)@,
                batch_id@,
                index,
                nonce@,
                attempt_token@,
                now,
            ),
            preserves(old(self)@, final(self)@),
    {
        match self {
            Database::Local(db) => db.start_command(batch_id, index, nonce, attempt_token, now),
        }
    }

    /// `HeartbeatCommand`.
    pub fn heartbeat_command(&mut self, batch_id: &String, attempt_token: &String, now: usize) -> (out:
        heartbeat_command::Output)
        ensures
            (final(self)@, out) == heartbeat_command_model(
                old(self)@,
                batch_id@,
                attempt_token@,
                now,
            ),
            preserves(old(self)@, final(self)@),
    {
        match self {
            Database::Local(db) => db.heartbeat_command(batch_id, attempt_token, now),
        }
    }

    /// `CompleteCommand`.
    pub fn complete_command(
        &mut self,
        batch_id: &String,
        attempt_token: &String,
        success: bool,
        data: Option<String>,
        now: usize,
    ) -> (out: complete_command::Output)
        ensures
            (final(self)@, out) == complete_command_model(
                old(self)@,
                batch_id@,
                attempt_token@,
                success,
                data_view(data),
                now,
            ),
            preserves(old(self)@, final(self)@),
    {
        match self {
            Database::Local(db) => db.complete_command(batch_id, attempt_token, success, data, now),
        }
    }

    /// Lease expiry over every batch.
    pub fn sweep(&mut self, now: usize)
        ensures
            final(self)@ == sweep_model(old(self)@, old(self)@.batches.len() as int, now),
            preserves(old(self)@, final(self)@),
    {
        match self {
            Database::Local(db) => db.sweep(now),
        }
    }

    /// `DescribeCommands`.
    pub fn describe_commands(&self, batch_id: &String) -> (out: Option<describe_commands::Output>)
        ensures
            batch_description_view(out) == describe_commands_model(self@, batch_id@),
    {
        match self {
            Database::Local(db) => db.describe_commands(batch_id),
        }
    }

    /// `DescribeCommand`.
    pub fn describe_command(&self, batch_id: &String, index: usize) -> (out: Option<
        describe_command::Output,
    >)
        ensures
            description_view(out) == describe_one_model(self@, batch_id@, index),
    {
        match self {
            Database::Local(db) => db.describe_command(batch_id, index),
        }
    }

    /// `DeleteCommands`.
    pub fn delete_commands(&mut self, batch_id: &String) -> (out: delete_commands::Output)
        ensures
            final(self)@ == delete_model(old(self)@, batch_id@),
            preserves(old(self)@, final(self)@),
    {
        match self {
            Database::Local(db) => db.delete_commands(batch_id),
        }
    }

    /// A poll at `now` that gives up at `deadline`.
    pub fn poll(&mut self, input: &receive_commands::Input, deadline: usize, now: usize) -> (out:
        receive_commands::Polled)
        ensures
            (final(self)@, out@) == poll_model(
                old(self)@,
                input.target_name@,
                string_views(input.exclude_batches@),
                string_views(input.group_membership@),
                deadline,
                now,
            ),
            preserves(old(self)@, final(self)@),
    {
        match self {
            Database::Local(db) => db.poll(input, deadline, now),
        }
    }

    /// Removes the parked polls whose deadline has come at `now`, and names
    /// them, oldest first. Each of them is answered with nothing.
    pub fn expire_waiters(&mut self, now: usize) -> (ids: Vec<u64>)
        ensures
            final(self)@ == (DatabaseView {
                registry: expire_waiters_model(old(self)@.registry, now).0,
                ..old(self)@
            }),
            ids@ == expire_waiters_model(old(self)@.registry, now).1,
            preserves(old(self)@, final(self)@),
    {
        match self {
            Database::Local(db) => db.expire_waiters(now),
        }
    }

    /// Gives up the parked poll with this id, if there is one.
    pub fn cancel_waiter(&mut self, id: u64) -> (found: bool)
        ensures
            final(self)@ == (DatabaseView {
                registry: cancel_model(old(self)@.registry, id).0,
                ..old(self)@
            }),
            found == cancel_model(old(self)@.registry, id).1,
            preserves(old(self)@, final(self)@),
    {
        match self {
            Database::Local(db) => db.cancel_waiter(id),
        }
    }

    /// The resource on record for a target of an account, if any.
    pub fn connection(&self, account_id: &String, target_name: &String) -> (r: Option<String>)
        ensures
            data_option_view(r) == connection_model(self@, account_id@, target_name@),
    {
        match self {
            Database::Local(db) => db.connection(account_id, target_name),
        }
    }

    /// Binds a target of an account to a resource.
    pub fn bind_connection(&mut self, account_id: String, target_name: String, resource: String)
        ensures
            final(self)@ == bind_model(old(self)@, account_id@, target_name@, resource@),
            preserves(old(self)@, final(self)@),
    {
        match self {
            Database::Local(db) => db.bind_connection(account_id, target_name, resource),
        }
    }

    /// Hands over the notifications that wait to be delivered, oldest
    /// first, and forgets them.
    pub fn take_notifications(&mut self) -> (taken: Vec<Notification>)
        ensures
            notification_views(taken@) == old(self)@.outbox,
            final(self)@ == (DatabaseView { outbox: Seq::empty(), ..old(self)@ }),
            preserves(old(self)@, final(self)@),
    {
        match self {
            Database::Local(db) => db.take_notifications(),
        }
    }

    /// Hands over the ids of the polls that were woken, oldest first, and
    /// forgets them.
    pub fn take_woken(&mut self) -> (taken: Vec<u64>)
        ensures
            taken@ == old(self)@.woken,
            final(self)@ == (DatabaseView { woken: Seq::empty(), ..old(self)@ }),
            preserves(old(self)@, final(self)@),
    {
        match self {
            Database::Local(db) => db.take_woken(),
        }
    }
}

} // verus!
