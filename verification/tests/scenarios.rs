use dispatch_service::database::Database;
use dispatch_service::notifications::Event;
use dispatch_service::operations::complete_command;
use dispatch_service::operations::delete_commands;
use dispatch_service::operations::describe_command;
use dispatch_service::operations::describe_commands;
use dispatch_service::operations::describe_commands::BatchStatus;
use dispatch_service::operations::describe_commands::CommandStatus;
use dispatch_service::operations::dispatch_commands;
use dispatch_service::operations::dispatch_commands::Channel;
use dispatch_service::operations::heartbeat_command;
use dispatch_service::operations::receive_commands;
use dispatch_service::operations::receive_commands::Polled;
use dispatch_service::operations::start_command;

fn command(name: &str, data: &str, max_retries: usize, success_required: bool) -> dispatch_commands::Command {
    dispatch_commands::Command {
        name: name.to_string(),
        data: data.to_string(),
        max_retries,
        command_available_notification: None,
        command_progress_notification: None,
        success_required,
    }
}

fn submission(target: &str, commands: Vec<dispatch_commands::Command>, nonce: &str) -> dispatch_commands::Input {
    dispatch_commands::Input {
        target_name: target.to_string(),
        commands,
        nonce: nonce.to_string(),
        batch_complete_notification: None,
    }
}

fn poll(target: &str, timeout_millis: usize) -> receive_commands::Input {
    receive_commands::Input {
        target_name: target.to_string(),
        exclude_batches: vec![],
        group_membership: vec![],
        timeout_millis,
    }
}

fn start(db: &mut Database, batch_id: &str, index: usize, nonce: &str, now: usize) -> start_command::Output {
    start_command::handle(
        &start_command::Input { batch_id: batch_id.to_string(), command_index: index, nonce: nonce.to_string() },
        now,
        db,
    )
}

fn token_of(out: start_command::Output) -> String {
    match out {
        start_command::Output::Continue { attempt_token } => attempt_token,
        start_command::Output::Discard => panic!("the start was discarded"),
    }
}

fn complete(db: &mut Database, batch_id: &str, token: &str, success: bool, now: usize) -> complete_command::Output {
    complete_command::handle(
        &complete_command::Input {
            batch_id: batch_id.to_string(),
            attempt_token: token.to_string(),
            success,
            data: None,
        },
        now,
        db,
    )
}

fn heartbeat(db: &mut Database, batch_id: &str, token: &str, now: usize) -> heartbeat_command::Output {
    heartbeat_command::handle(
        &heartbeat_command::Input { batch_id: batch_id.to_string(), attempt_token: token.to_string() },
        now,
        db,
    )
}

fn describe(db: &Database, batch_id: &str) -> describe_commands::Output {
    describe_commands::handle(&describe_commands::Input { batch_id: batch_id.to_string() }, db)
        .expect("the batch is known")
}

fn attempts(db: &Database, batch_id: &str, index: usize) -> describe_command::Output {
    describe_command::handle(
        &describe_command::Input { batch_id: batch_id.to_string(), command_index: index },
        db,
    )
    .expect("the command is known")
}

#[test]
fn happy_path() {
    let mut db = Database::local();
    let batch = dispatch_commands::handle(
        &submission("t", vec![command("ping", "x", 0, true)], "d1"),
        "alice",
        1000,
        &mut db,
    )
    .batch_id;
    assert_eq!(batch.len(), 36);

    let polled = receive_commands::handle(&poll("t", 5000), 1001, &mut db);
    match polled {
        Polled::Ready(output) => {
            assert_eq!(
                output.command_batches,
                vec![receive_commands::Batch {
                    id: batch.clone(),
                    commands: vec![receive_commands::Command {
                        index: 0,
                        name: "ping".to_string(),
                        data: "x".to_string(),
                        heartbeat_interval_millis: 10000,
                    }],
                }]
            );
        }
        Polled::Parked { .. } => panic!("there is work, the poll must not park"),
    }

    let token = token_of(start(&mut db, &batch, 0, "n1", 1002));
    assert_eq!(token.len(), 36);
    assert_eq!(complete(&mut db, &batch, &token, true, 1003), complete_command::Output::NextCommand);
    assert_eq!(
        describe(&db, &batch),
        describe_commands::Output {
            batch: BatchStatus::Done { succeeded: true },
            commands: vec![CommandStatus::Done { succeeded: true }],
        }
    );
}

#[test]
fn retry_then_succeed() {
    let mut db = Database::local();
    let batch = dispatch_commands::handle(
        &submission("t", vec![command("build", "", 2, true)], "d1"),
        "alice",
        10,
        &mut db,
    )
    .batch_id;

    let t1 = token_of(start(&mut db, &batch, 0, "n1", 11));
    assert_eq!(complete(&mut db, &batch, &t1, false, 12), complete_command::Output::SameCommand);
    let t2 = token_of(start(&mut db, &batch, 0, "n2", 13));
    assert_eq!(complete(&mut db, &batch, &t2, false, 14), complete_command::Output::SameCommand);
    let t3 = token_of(start(&mut db, &batch, 0, "n3", 15));
    assert_eq!(complete(&mut db, &batch, &t3, true, 16), complete_command::Output::NextCommand);

    assert_eq!(describe(&db, &batch).batch, BatchStatus::Done { succeeded: true });
    let described = attempts(&db, &batch, 0);
    assert_eq!(described.command, describe_command::CommandStatus::Done { succeeded: true });
    assert_eq!(
        described.attempts,
        vec![
            describe_command::AttemptStatus::Done {
                data: String::new(),
                succeeded: false,
                heartbeats: 0,
                available_epoch_millis: 10,
                start_epoch_millis: 11,
                complete_epoch_millis: 12,
            },
            describe_command::AttemptStatus::Done {
                data: String::new(),
                succeeded: false,
                heartbeats: 0,
                available_epoch_millis: 12,
                start_epoch_millis: 13,
                complete_epoch_millis: 14,
            },
            describe_command::AttemptStatus::Done {
                data: String::new(),
                succeeded: true,
                heartbeats: 0,
                available_epoch_millis: 14,
                start_epoch_millis: 15,
                complete_epoch_millis: 16,
            },
        ]
    );
}

#[test]
fn exhaust_required() {
    let mut db = Database::local();
    let batch = dispatch_commands::handle(
        &submission("t", vec![command("deploy", "", 1, true), command("after", "", 0, true)], "d1"),
        "alice",
        10,
        &mut db,
    )
    .batch_id;

    let t1 = token_of(start(&mut db, &batch, 0, "n1", 11));
    assert_eq!(complete(&mut db, &batch, &t1, false, 12), complete_command::Output::SameCommand);
    let t2 = token_of(start(&mut db, &batch, 0, "n2", 13));
    assert_eq!(complete(&mut db, &batch, &t2, false, 14), complete_command::Output::Discard);

    assert_eq!(
        describe(&db, &batch),
        describe_commands::Output {
            batch: BatchStatus::Done { succeeded: false },
            commands: vec![CommandStatus::Done { succeeded: false }, CommandStatus::Inactive],
        }
    );
    // Nothing moves a batch that is done.
    assert_eq!(start(&mut db, &batch, 0, "n3", 15), start_command::Output::Discard);
    assert_eq!(start(&mut db, &batch, 1, "n3", 15), start_command::Output::Discard);
    assert_eq!(heartbeat(&mut db, &batch, &t2, 16), heartbeat_command::Output::Discard);
    assert_eq!(complete(&mut db, &batch, &t2, true, 17), complete_command::Output::Discard);
    db.sweep(1_000_000);
    assert_eq!(
        describe(&db, &batch),
        describe_commands::Output {
            batch: BatchStatus::Done { succeeded: false },
            commands: vec![CommandStatus::Done { succeeded: false }, CommandStatus::Inactive],
        }
    );
}

#[test]
fn exhaust_optional() {
    let mut db = Database::local();
    let batch = dispatch_commands::handle(
        &submission("t", vec![command("warm", "", 0, false), command("run", "", 0, true)], "d1"),
        "alice",
        10,
        &mut db,
    )
    .batch_id;

    let t1 = token_of(start(&mut db, &batch, 0, "n1", 11));
    assert_eq!(complete(&mut db, &batch, &t1, false, 12), complete_command::Output::NextCommand);
    let t2 = token_of(start(&mut db, &batch, 1, "n2", 13));
    assert_eq!(complete(&mut db, &batch, &t2, true, 14), complete_command::Output::NextCommand);
    assert_eq!(
        describe(&db, &batch),
        describe_commands::Output {
            batch: BatchStatus::Done { succeeded: true },
            commands: vec![CommandStatus::Done { succeeded: false }, CommandStatus::Done { succeeded: true }],
        }
    );
}

#[test]
fn idempotent_dispatch() {
    let mut db = Database::local();
    let request = submission("t", vec![command("ping", "x", 0, true)], "same-nonce");
    let first = dispatch_commands::handle(&request, "alice", 10, &mut db);
    let second = dispatch_commands::handle(&request, "alice", 20, &mut db);
    assert_eq!(first.batch_id, second.batch_id);

    // Exactly one batch exists: a poll sees one, and it is the first.
    match receive_commands::handle(&poll("t", 0), 30, &mut db) {
        Polled::Ready(output) => {
            assert_eq!(output.command_batches.len(), 1);
            assert_eq!(output.command_batches[0].id, first.batch_id);
        }
        Polled::Parked { .. } => panic!("there is work, the poll must not park"),
    }

    // Another nonce, another caller: other batches.
    let other = dispatch_commands::handle(
        &submission("t", vec![command("ping", "x", 0, true)], "other-nonce"),
        "alice",
        40,
        &mut db,
    );
    assert_ne!(other.batch_id, first.batch_id);
    let bob = dispatch_commands::handle(&request, "bob", 50, &mut db);
    assert_ne!(bob.batch_id, first.batch_id);
}

#[test]
fn dispatch_after_delete_keeps_the_batch_id() {
    let mut db = Database::local();
    let request = submission("t", vec![command("ping", "x", 0, true)], "n");
    let first = dispatch_commands::handle(&request, "alice", 10, &mut db);
    delete_commands::handle(&delete_commands::Input { batch_id: first.batch_id.clone() }, &mut db);
    assert!(describe_commands::handle(
        &describe_commands::Input { batch_id: first.batch_id.clone() },
        &db
    )
    .is_none());
    let again = dispatch_commands::handle(&request, "alice", 20, &mut db);
    assert_eq!(again.batch_id, first.batch_id);
}

#[test]
fn long_poll_wake() {
    let mut db = Database::local();
    let request = poll("T", 10000);
    let (waiter, deadline) = match receive_commands::handle(&request, 1000, &mut db) {
        Polled::Parked { waiter, deadline } => (waiter, deadline),
        Polled::Ready(_) => panic!("there is no work, the poll must park"),
    };
    assert_eq!(deadline, 11000);
    assert_eq!(db.take_woken(), Vec::<u64>::new());

    let batch = dispatch_commands::handle(
        &submission("T", vec![command("ping", "x", 0, true)], "d1"),
        "alice",
        1050,
        &mut db,
    )
    .batch_id;
    assert_eq!(db.take_woken(), vec![waiter]);

    match receive_commands::resume(&request, deadline, 1060, &mut db) {
        Polled::Ready(output) => {
            assert_eq!(output.command_batches.len(), 1);
            assert_eq!(output.command_batches[0].id, batch);
            assert_eq!(output.command_batches[0].commands[0].name, "ping");
        }
        Polled::Parked { .. } => panic!("there is work, the poll must not park"),
    }
    // The waiter left the registry when it was woken.
    assert!(!db.cancel_waiter(waiter));
}

#[test]
fn long_poll_times_out_with_nothing() {
    let mut db = Database::local();
    let request = poll("T", 500);
    let (waiter, deadline) = match receive_commands::handle(&request, 1000, &mut db) {
        Polled::Parked { waiter, deadline } => (waiter, deadline),
        Polled::Ready(_) => panic!("there is no work, the poll must park"),
    };
    assert_eq!(deadline, 1500);
    assert_eq!(db.expire_waiters(1499), Vec::<u64>::new());
    assert_eq!(db.expire_waiters(1500), vec![waiter]);
    match receive_commands::resume(&request, deadline, 1500, &mut db) {
        Polled::Ready(output) => assert!(output.command_batches.is_empty()),
        Polled::Parked { .. } => panic!("the deadline has come, the poll must not park"),
    }
}

#[test]
fn poll_timeout_is_clamped() {
    let mut db = Database::local();
    match receive_commands::handle(&poll("T", 1_000_000), 1000, &mut db) {
        Polled::Parked { deadline, .. } => assert_eq!(deadline, 61000),
        Polled::Ready(_) => panic!("there is no work, the poll must park"),
    }
    match receive_commands::handle(&poll("T", 1), usize::MAX, &mut db) {
        Polled::Ready(output) => assert!(output.command_batches.is_empty()),
        Polled::Parked { .. } => panic!("the deadline cannot be ahead of the end of time"),
    }
}

#[test]
fn stale_attempt() {
    let mut db = Database::local();
    let batch = dispatch_commands::handle(
        &submission("t", vec![command("long", "", 1, true)], "d1"),
        "alice",
        1000,
        &mut db,
    )
    .batch_id;
    let t1 = token_of(start(&mut db, &batch, 0, "n1", 2000));
    assert_eq!(heartbeat(&mut db, &batch, &t1, 3000), heartbeat_command::Output::Continue);

    // The lease is 30 s from the last heartbeat: not yet over at 33 000.
    db.sweep(33000);
    assert_eq!(attempts(&db, &batch, 0).attempts.len(), 1);
    // Over at 33 001: the attempt fails and a retry is put in line.
    db.sweep(33001);
    assert_eq!(
        attempts(&db, &batch, 0).attempts,
        vec![
            describe_command::AttemptStatus::Done {
                data: String::new(),
                succeeded: false,
                heartbeats: 1,
                available_epoch_millis: 1000,
                start_epoch_millis: 2000,
                complete_epoch_millis: 33001,
            },
            describe_command::AttemptStatus::Available { available_epoch_millis: 33001 },
        ]
    );

    let t2 = token_of(start(&mut db, &batch, 0, "n2", 34000));
    assert_ne!(t1, t2);
    assert_eq!(heartbeat(&mut db, &batch, &t1, 34001), heartbeat_command::Output::Discard);
    assert_eq!(complete(&mut db, &batch, &t1, true, 34002), complete_command::Output::Discard);
    assert_eq!(describe(&db, &batch).commands, vec![CommandStatus::Active]);
    assert_eq!(heartbeat(&mut db, &batch, &t2, 34003), heartbeat_command::Output::Continue);
    assert_eq!(complete(&mut db, &batch, &t2, true, 34004), complete_command::Output::NextCommand);
    assert_eq!(describe(&db, &batch).batch, BatchStatus::Done { succeeded: true });
}

#[test]
fn describe_after_dispatch_is_all_inactive() {
    let mut db = Database::local();
    let batch = dispatch_commands::handle(
        &submission("t", vec![command("a", "", 0, true), command("b", "", 3, false), command("c", "", 1, true)], "d1"),
        "alice",
        10,
        &mut db,
    )
    .batch_id;
    assert_eq!(
        describe(&db, &batch),
        describe_commands::Output {
            batch: BatchStatus::Active,
            commands: vec![CommandStatus::Inactive, CommandStatus::Inactive, CommandStatus::Inactive],
        }
    );
    assert_eq!(
        attempts(&db, &batch, 0),
        describe_command::Output {
            command: describe_command::CommandStatus::Inactive,
            attempts: vec![describe_command::AttemptStatus::Available { available_epoch_millis: 10 }],
        }
    );
    assert_eq!(
        attempts(&db, &batch, 1),
        describe_command::Output { command: describe_command::CommandStatus::Inactive, attempts: vec![] }
    );
    assert!(describe_command::handle(
        &describe_command::Input { batch_id: batch.clone(), command_index: 3 },
        &db
    )
    .is_none());
}

#[test]
fn full_successful_run_ends_done() {
    let mut db = Database::local();
    let batch = dispatch_commands::handle(
        &submission("t", vec![command("a", "", 0, true), command("b", "", 3, false), command("c", "", 1, true)], "d1"),
        "alice",
        10,
        &mut db,
    )
    .batch_id;
    for index in 0..3 {
        let token = token_of(start(&mut db, &batch, index, "n", 20 + index));
        assert_eq!(describe(&db, &batch).commands[index], CommandStatus::Active);
        assert_eq!(
            complete(&mut db, &batch, &token, true, 30 + index),
            complete_command::Output::NextCommand
        );
    }
    assert_eq!(
        describe(&db, &batch),
        describe_commands::Output {
            batch: BatchStatus::Done { succeeded: true },
            commands: vec![
                CommandStatus::Done { succeeded: true },
                CommandStatus::Done { succeeded: true },
                CommandStatus::Done { succeeded: true },
            ],
        }
    );
}

#[test]
fn delete_is_idempotent() {
    let mut db = Database::local();
    // Deleting what is not there succeeds.
    assert_eq!(
        delete_commands::handle(&delete_commands::Input { batch_id: "unknown".to_string() }, &mut db),
        delete_commands::Output {}
    );
    let keep = dispatch_commands::handle(
        &submission("t", vec![command("keep", "", 0, true)], "d1"),
        "alice",
        10,
        &mut db,
    )
    .batch_id;
    let gone = dispatch_commands::handle(
        &submission("t", vec![command("gone", "", 0, true)], "d2"),
        "alice",
        11,
        &mut db,
    )
    .batch_id;
    let input = delete_commands::Input { batch_id: gone.clone() };
    delete_commands::handle(&input, &mut db);
    let once = (
        describe_commands::handle(&describe_commands::Input { batch_id: gone.clone() }, &db),
        describe_commands::handle(&describe_commands::Input { batch_id: keep.clone() }, &db),
    );
    delete_commands::handle(&input, &mut db);
    let twice = (
        describe_commands::handle(&describe_commands::Input { batch_id: gone.clone() }, &db),
        describe_commands::handle(&describe_commands::Input { batch_id: keep.clone() }, &db),
    );
    assert_eq!(once, twice);
    assert!(once.0.is_none());
    assert_eq!(once.1.expect("the other batch stays").commands, vec![CommandStatus::Inactive]);
    // The deleted batch is unknown to every operation.
    assert_eq!(start(&mut db, &gone, 0, "n", 20), start_command::Output::Discard);
    assert_eq!(heartbeat(&mut db, &gone, "t", 20), heartbeat_command::Output::Discard);
    assert_eq!(complete(&mut db, &gone, "t", true, 20), complete_command::Output::Discard);
}

#[test]
fn start_is_idempotent_per_nonce_and_exclusive() {
    let mut db = Database::local();
    let batch = dispatch_commands::handle(
        &submission("t", vec![command("a", "", 5, true), command("b", "", 0, true)], "d1"),
        "alice",
        10,
        &mut db,
    )
    .batch_id;
    // Only the current command can be started.
    assert_eq!(start(&mut db, &batch, 1, "n1", 11), start_command::Output::Discard);
    assert_eq!(start(&mut db, &batch, 7, "n1", 11), start_command::Output::Discard);
    assert_eq!(start(&mut db, "no-such-batch", 0, "n1", 11), start_command::Output::Discard);

    let token = token_of(start(&mut db, &batch, 0, "n1", 12));
    // The same nonce gets the same token, and no second attempt.
    assert_eq!(token_of(start(&mut db, &batch, 0, "n1", 13)), token);
    assert_eq!(attempts(&db, &batch, 0).attempts.len(), 1);
    // Another executor is turned away while the attempt runs.
    assert_eq!(start(&mut db, &batch, 0, "n2", 14), start_command::Output::Discard);
    assert_eq!(attempts(&db, &batch, 0).attempts.len(), 1);

    assert_eq!(complete(&mut db, &batch, &token, true, 15), complete_command::Output::NextCommand);
    // The finished command cannot be started again; the next one can.
    assert_eq!(start(&mut db, &batch, 0, "n1", 16), start_command::Output::Discard);
    let next = token_of(start(&mut db, &batch, 1, "n1", 17));
    assert_ne!(next, token);
}

#[test]
fn attempts_never_exceed_the_cap() {
    let mut db = Database::local();
    let batch = dispatch_commands::handle(
        &submission("t", vec![command("flaky", "", 2, false)], "d1"),
        "alice",
        10,
        &mut db,
    )
    .batch_id;
    let mut instructions = vec![];
    for round in 0..10 {
        match start(&mut db, &batch, 0, "n", 20 + round) {
            start_command::Output::Continue { attempt_token } => {
                instructions.push(complete(&mut db, &batch, &attempt_token, false, 30 + round));
            }
            start_command::Output::Discard => {}
        }
        assert!(attempts(&db, &batch, 0).attempts.len() <= 3);
    }
    assert_eq!(
        instructions,
        vec![
            complete_command::Output::SameCommand,
            complete_command::Output::SameCommand,
            complete_command::Output::NextCommand,
        ]
    );
    assert_eq!(attempts(&db, &batch, 0).attempts.len(), 3);
    assert_eq!(describe(&db, &batch).batch, BatchStatus::Done { succeeded: true });
}

#[test]
fn completion_data_is_recorded() {
    let mut db = Database::local();
    let batch = dispatch_commands::handle(
        &submission("t", vec![command("a", "", 0, true)], "d1"),
        "alice",
        10,
        &mut db,
    )
    .batch_id;
    let token = token_of(start(&mut db, &batch, 0, "n", 11));
    assert_eq!(
        complete_command::handle(
            &complete_command::Input {
                batch_id: batch.clone(),
                attempt_token: token,
                success: true,
                data: Some("42 rows".to_string()),
            },
            12,
            &mut db,
        ),
        complete_command::Output::NextCommand
    );
    assert_eq!(
        attempts(&db, &batch, 0).attempts,
        vec![describe_command::AttemptStatus::Done {
            data: "42 rows".to_string(),
            succeeded: true,
            heartbeats: 0,
            available_epoch_millis: 10,
            start_epoch_millis: 11,
            complete_epoch_millis: 12,
        }]
    );
}

#[test]
fn notifications_follow_the_transitions() {
    let mut db = Database::local();
    let available = Channel::SQS { queue_url: "https://queue/available".to_string() };
    let progress = Channel::HTTP {
        endpoint: "https://hook/progress".to_string(),
        additional_headers: Some(vec![("X-Token".to_string(), "s3".to_string())]),
    };
    let done = Channel::SNS { target_arn: "arn:done".to_string() };
    let mut first = command("a", "", 1, true);
    first.command_available_notification = Some(available.clone());
    first.command_progress_notification = Some(progress.clone());
    let mut second = command("b", "", 0, true);
    second.command_available_notification = Some(available.clone());
    let mut request = submission("t", vec![first, second], "d1");
    request.batch_complete_notification = Some(done.clone());

    let batch = dispatch_commands::handle(&request, "alice", 10, &mut db).batch_id;
    let sent: Vec<(Channel, String, Event)> =
        db.take_notifications().into_iter().map(|n| (n.channel, n.batch_id, n.event)).collect();
    assert_eq!(sent, vec![(available.clone(), batch.clone(), Event::CommandAvailable { command_index: 0 })]);
    assert!(db.take_notifications().is_empty());

    let t1 = token_of(start(&mut db, &batch, 0, "n1", 11));
    complete(&mut db, &batch, &t1, false, 12);
    let t2 = token_of(start(&mut db, &batch, 0, "n2", 13));
    // A retried start starts nothing and reports nothing.
    start(&mut db, &batch, 0, "n2", 13);
    complete(&mut db, &batch, &t2, true, 14);
    let t3 = token_of(start(&mut db, &batch, 1, "n3", 15));
    complete(&mut db, &batch, &t3, true, 16);
    let sent: Vec<(Channel, String, Event)> =
        db.take_notifications().into_iter().map(|n| (n.channel, n.batch_id, n.event)).collect();
    assert_eq!(
        sent,
        vec![
            (progress.clone(), batch.clone(), Event::AttemptStarted { command_index: 0 }),
            (progress.clone(), batch.clone(), Event::AttemptCompleted { command_index: 0, succeeded: false }),
            (available.clone(), batch.clone(), Event::CommandAvailable { command_index: 0 }),
            (progress.clone(), batch.clone(), Event::AttemptStarted { command_index: 0 }),
            (progress.clone(), batch.clone(), Event::AttemptCompleted { command_index: 0, succeeded: true }),
            (available.clone(), batch.clone(), Event::CommandAvailable { command_index: 1 }),
            (done.clone(), batch.clone(), Event::BatchCompleted { succeeded: true }),
        ]
    );
}

#[test]
fn polls_see_only_their_target_and_skip_excluded_batches() {
    let mut db = Database::local();
    let a = dispatch_commands::handle(&submission("east", vec![command("a", "1", 0, true)], "d1"), "alice", 10, &mut db).batch_id;
    let b = dispatch_commands::handle(&submission("west", vec![command("b", "2", 0, true)], "d2"), "alice", 11, &mut db).batch_id;
    let c = dispatch_commands::handle(&submission("east", vec![command("c", "3", 0, true)], "d3"), "alice", 12, &mut db).batch_id;
    let empty = dispatch_commands::handle(&submission("east", vec![], "d4"), "alice", 13, &mut db).batch_id;
    assert_eq!(describe(&db, &empty).batch, BatchStatus::Done { succeeded: true });

    let ids = |polled: Polled| -> Vec<String> {
        match polled {
            Polled::Ready(output) => output.command_batches.into_iter().map(|batch| batch.id).collect(),
            Polled::Parked { .. } => panic!("there is work, the poll must not park"),
        }
    };
    assert_eq!(ids(receive_commands::handle(&poll("east", 0), 20, &mut db)), vec![a.clone(), c.clone()]);
    assert_eq!(ids(receive_commands::handle(&poll("west", 0), 20, &mut db)), vec![b.clone()]);
    let mut excluding = poll("east", 0);
    excluding.exclude_batches = vec![a.clone()];
    assert_eq!(ids(receive_commands::handle(&excluding, 20, &mut db)), vec![c.clone()]);

    // A running attempt is not handed out; a retry is, once its time has come.
    let token = token_of(start(&mut db, &a, 0, "n", 21));
    assert_eq!(ids(receive_commands::handle(&poll("east", 0), 22, &mut db)), vec![c.clone()]);
    complete(&mut db, &a, &token, true, 23);
    assert_eq!(ids(receive_commands::handle(&poll("east", 0), 24, &mut db)), vec![c.clone()]);
}

#[test]
fn work_wakes_the_oldest_waiter_that_wants_it() {
    let mut db = Database::local();
    let park = |db: &mut Database, request: &receive_commands::Input, now: usize| -> u64 {
        match receive_commands::handle(request, now, db) {
            Polled::Parked { waiter, .. } => waiter,
            Polled::Ready(_) => panic!("there is no work, the poll must park"),
        }
    };
    let west = park(&mut db, &poll("west", 10000), 100);
    let first = park(&mut db, &poll("east", 10000), 101);
    let second = park(&mut db, &poll("east", 10000), 102);
    assert!(west != first && first != second && west != second);

    dispatch_commands::handle(&submission("east", vec![command("a", "", 1, true)], "d1"), "alice", 200, &mut db);
    assert_eq!(db.take_woken(), vec![first]);
    dispatch_commands::handle(&submission("east", vec![command("b", "", 0, true)], "d2"), "alice", 201, &mut db);
    assert_eq!(db.take_woken(), vec![second]);
    // Nobody is left on that target; an empty batch wakes nobody either.
    dispatch_commands::handle(&submission("east", vec![command("c", "", 0, true)], "d3"), "alice", 202, &mut db);
    dispatch_commands::handle(&submission("west", vec![], "d4"), "alice", 203, &mut db);
    assert_eq!(db.take_woken(), Vec::<u64>::new());
    assert!(db.cancel_waiter(west));
    assert!(!db.cancel_waiter(west));
}

#[test]
fn lease_expiry_puts_the_command_back_in_line_and_wakes_a_poll() {
    let mut db = Database::local();
    let mut flaky = command("long", "", 1, true);
    flaky.command_progress_notification = Some(Channel::SQS { queue_url: "q".to_string() });
    let batch = dispatch_commands::handle(&submission("t", vec![flaky], "d1"), "alice", 1000, &mut db).batch_id;
    let token = token_of(start(&mut db, &batch, 0, "n1", 2000));
    db.take_notifications();

    let request = poll("t", 60000);
    let waiter = match receive_commands::handle(&request, 2500, &mut db) {
        Polled::Parked { waiter, .. } => waiter,
        Polled::Ready(_) => panic!("the only attempt is running, the poll must park"),
    };
    db.sweep(32000);
    assert_eq!(db.take_woken(), Vec::<u64>::new());
    db.sweep(32001);
    assert_eq!(db.take_woken(), vec![waiter]);
    let sent: Vec<Event> = db.take_notifications().into_iter().map(|n| n.event).collect();
    assert_eq!(sent, vec![Event::AttemptCompleted { command_index: 0, succeeded: false }]);
    match receive_commands::resume(&request, 62500, 32002, &mut db) {
        Polled::Ready(output) => assert_eq!(output.command_batches[0].id, batch),
        Polled::Parked { .. } => panic!("the retry is waiting, the poll must not park"),
    }
    // The executor that went silent is told to let go.
    assert_eq!(heartbeat(&mut db, &batch, &token, 32003), heartbeat_command::Output::Discard);

    // The second lease runs out as well: the command had to succeed, so the batch fails.
    let second = token_of(start(&mut db, &batch, 0, "n2", 40000));
    db.sweep(70001);
    assert_eq!(complete(&mut db, &batch, &second, true, 70002), complete_command::Output::Discard);
    assert_eq!(describe(&db, &batch).batch, BatchStatus::Done { succeeded: false });
}
