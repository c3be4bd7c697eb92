use dispatch_service::database::deadline_for;
use dispatch_service::database::Database;
use dispatch_service::database::LocalDatabase;
use dispatch_service::database::HEARTBEAT_INTERVAL_MILLIS;
use dispatch_service::database::LEASE_GRACE_MILLIS;
use dispatch_service::database::MAX_POLL_TIMEOUT_MILLIS;
use dispatch_service::database::SWEEP_PERIOD_MILLIS;
use dispatch_service::fingerprint::fingerprint_dispatch;
use dispatch_service::headers::normalize_headers;
use dispatch_service::headers::place_of;
use dispatch_service::headers::put_header;
use dispatch_service::headers::Place;
use dispatch_service::notifications::after_failure;
use dispatch_service::notifications::enqueue;
use dispatch_service::notifications::Event;
use dispatch_service::notifications::Notification;
use dispatch_service::notifications::Redelivery;
use dispatch_service::operations::complete_command;
use dispatch_service::operations::delete_commands;
use dispatch_service::operations::describe_command;
use dispatch_service::operations::describe_commands;
use dispatch_service::operations::describe_commands::BatchStatus;
use dispatch_service::operations::describe_commands::CommandStatus;
use dispatch_service::operations::dispatch_commands::duplicate_channel;
use dispatch_service::operations::dispatch_commands::duplicate_headers;
use dispatch_service::operations::dispatch_commands::Channel;
use dispatch_service::operations::dispatch_commands::Command;
use dispatch_service::operations::dispatch_commands::Input;
use dispatch_service::operations::heartbeat_command;
use dispatch_service::operations::absent_body;
use dispatch_service::operations::answer_for;
use dispatch_service::operations::invoke;
use dispatch_service::operations::Answer;
use dispatch_service::operations::STATUS_OK;
use dispatch_service::operations::receive_commands;
use dispatch_service::operations::start_command;
use dispatch_service::operations::Operation;
use dispatch_service::operations::Reply;
use dispatch_service::operations::Request;
use dispatch_service::waiters::contains_string;
use dispatch_service::waiters::duplicate_strings;
use dispatch_service::waiters::WaiterRegistry;
use dispatch_service::waiters::MAX_WAITERS_PER_TARGET;

fn strings(items: &[&str]) -> Vec<String> {
    items.iter().map(|s| s.to_string()).collect()
}

fn plain(name: &str, data: &str, max_retries: usize, success_required: bool) -> Command {
    Command {
        name: name.to_string(),
        data: data.to_string(),
        max_retries,
        command_available_notification: None,
        command_progress_notification: None,
        success_required,
    }
}

fn input(target: &str, commands: Vec<Command>, nonce: &str, done: Option<Channel>) -> Input {
    Input {
        target_name: target.to_string(),
        commands,
        nonce: nonce.to_string(),
        batch_complete_notification: done,
    }
}

#[test]
fn waiters_are_woken_oldest_first_per_target() {
    let mut registry = WaiterRegistry::new();
    assert_eq!(registry.park("east".to_string(), vec![], vec![], 500), Some(0));
    assert_eq!(registry.park("west".to_string(), vec![], strings(&["g"]), 600), Some(1));
    assert_eq!(registry.park("east".to_string(), strings(&["b-1"]), vec![], 700), Some(2));
    assert_eq!(registry.park("east".to_string(), vec![], vec![], 800), Some(3));
    assert_eq!(registry.count(&"east".to_string()), 3);
    assert_eq!(registry.count(&"west".to_string()), 1);
    assert_eq!(registry.count(&"north".to_string()), 0);

    assert_eq!(registry.wake(&"north".to_string(), &"b-1".to_string()), None);
    assert_eq!(registry.wake(&"east".to_string(), &"b-1".to_string()), Some(0));
    // The next oldest on that target has excluded the batch and is passed over.
    assert_eq!(registry.wake(&"east".to_string(), &"b-1".to_string()), Some(3));
    assert_eq!(registry.wake(&"east".to_string(), &"b-1".to_string()), None);
    assert_eq!(registry.wake(&"east".to_string(), &"b-2".to_string()), Some(2));
    assert_eq!(registry.wake(&"west".to_string(), &"b-2".to_string()), Some(1));
    assert_eq!(registry.waiters.len(), 0);
    // Ids are not reused.
    assert_eq!(registry.park("east".to_string(), vec![], vec![], 900), Some(4));
}

#[test]
fn waiters_leave_at_their_deadline_or_when_given_up() {
    let mut registry = WaiterRegistry::new();
    for (target, deadline) in [("a", 300), ("b", 100), ("a", 200), ("c", 100), ("a", 101)] {
        registry.park(target.to_string(), vec![], vec![], deadline);
    }
    assert_eq!(registry.expire(99), Vec::<u64>::new());
    assert_eq!(registry.expire(100), vec![1, 3]);
    assert_eq!(registry.waiters.iter().map(|w| w.id).collect::<Vec<u64>>(), vec![0, 2, 4]);
    assert!(registry.cancel(2));
    assert!(!registry.cancel(2));
    assert!(!registry.cancel(77));
    assert_eq!(registry.expire(250), vec![4]);
    assert_eq!(registry.expire(usize::MAX), vec![0]);
    assert_eq!(registry.expire(usize::MAX), Vec::<u64>::new());
}

#[test]
fn registry_takes_a_bounded_number_of_waiters_per_target() {
    let mut registry = WaiterRegistry::new();
    for expected in 0..MAX_WAITERS_PER_TARGET {
        assert_eq!(registry.park("busy".to_string(), vec![], vec![], 1), Some(expected as u64));
    }
    assert_eq!(registry.park("busy".to_string(), vec![], vec![], 1), None);
    assert_eq!(registry.count(&"busy".to_string()), 1024);
    assert_eq!(registry.park("idle".to_string(), vec![], vec![], 1), Some(1024));
    assert!(registry.cancel(5));
    assert_eq!(registry.park("busy".to_string(), vec![], vec![], 1), Some(1025));

    let mut last = WaiterRegistry { waiters: vec![], next_id: u64::MAX };
    assert_eq!(last.park("t".to_string(), vec![], vec![], 1), None);
    let mut almost = WaiterRegistry { waiters: vec![], next_id: u64::MAX - 1 };
    assert_eq!(almost.park("t".to_string(), vec![], vec![], 1), Some(u64::MAX - 1));
    assert_eq!(almost.park("t".to_string(), vec![], vec![], 1), None);
}

#[test]
fn excess_polls_are_answered_with_nothing() {
    let mut db = Database::local();
    let request = receive_commands::Input {
        target_name: "busy".to_string(),
        exclude_batches: vec![],
        group_membership: vec![],
        timeout_millis: 1000,
    };
    for _ in 0..MAX_WAITERS_PER_TARGET {
        assert!(matches!(
            receive_commands::handle(&request, 10, &mut db),
            receive_commands::Polled::Parked { .. }
        ));
    }
    match receive_commands::handle(&request, 10, &mut db) {
        receive_commands::Polled::Ready(output) => assert!(output.command_batches.is_empty()),
        receive_commands::Polled::Parked { .. } => panic!("the target has no room for another waiter"),
    }
}

#[test]
fn string_helpers_copy_and_find() {
    let list = strings(&["a", "bb", "", "a"]);
    assert_eq!(duplicate_strings(&list), list);
    assert!(contains_string(&list, &"bb".to_string()));
    assert!(contains_string(&list, &"".to_string()));
    assert!(!contains_string(&list, &"b".to_string()));
    assert!(!contains_string(&vec![], &"a".to_string()));
    let headers = vec![("X-A".to_string(), "1".to_string()), ("X-B".to_string(), "".to_string())];
    assert_eq!(duplicate_headers(&headers), headers);
    let channel = Channel::HTTP { endpoint: "https://e".to_string(), additional_headers: Some(headers) };
    assert_eq!(channel.duplicate(), channel);
    assert_eq!(duplicate_channel(&Some(channel.clone())), Some(channel));
    assert_eq!(duplicate_channel(&None), None);
    let definition = Command {
        name: "n".to_string(),
        data: "d".to_string(),
        max_retries: 3,
        command_available_notification: Some(Channel::SQS { queue_url: "q".to_string() }),
        command_progress_notification: Some(Channel::SNS { target_arn: "arn".to_string() }),
        success_required: true,
    };
    assert_eq!(definition.duplicate(), definition);
}

#[test]
fn failed_deliveries_back_off_and_are_dropped_in_the_end() {
    assert_eq!(after_failure(0), Redelivery::Retry { delay_millis: 100 });
    assert_eq!(after_failure(1), Redelivery::Retry { delay_millis: 100 });
    assert_eq!(after_failure(2), Redelivery::Retry { delay_millis: 200 });
    assert_eq!(after_failure(3), Redelivery::Retry { delay_millis: 400 });
    assert_eq!(after_failure(4), Redelivery::Retry { delay_millis: 800 });
    assert_eq!(after_failure(5), Redelivery::Drop);
    assert_eq!(after_failure(6), Redelivery::Drop);
    assert_eq!(after_failure(u32::MAX), Redelivery::Drop);
}

#[test]
fn notifications_are_queued_only_for_a_channel() {
    let mut outbox: Vec<Notification> = vec![];
    enqueue(&mut outbox, &None, &"b".to_string(), Event::BatchCompleted { succeeded: true });
    assert!(outbox.is_empty());
    let channel = Channel::SNS { target_arn: "arn".to_string() };
    enqueue(&mut outbox, &Some(channel.clone()), &"b".to_string(), Event::BatchCompleted { succeeded: false });
    enqueue(&mut outbox, &Some(channel.clone()), &"c".to_string(), Event::CommandAvailable { command_index: 4 });
    assert_eq!(outbox.len(), 2);
    assert_eq!(outbox[0].channel, channel);
    assert_eq!(outbox[0].batch_id, "b");
    assert_eq!(outbox[0].event, Event::BatchCompleted { succeeded: false });
    assert_eq!(outbox[1].batch_id, "c");
    assert_eq!(outbox[1].event, Event::CommandAvailable { command_index: 4 });
}

#[test]
fn fingerprints_are_stable() {
    let one = input("t", vec![plain("ping", "x", 0, true)], "n", None);
    assert_eq!(fingerprint_dispatch("alice", &one), 5221730056016503677);
    assert_eq!(fingerprint_dispatch("alice", &one.clone()), 5221730056016503677);
    assert_eq!(fingerprint_dispatch("alice", &input("t", vec![], "n", None)), 8815885896330665426);
    let mut rich = plain("ping", "x", 2, false);
    rich.command_available_notification = Some(Channel::SQS { queue_url: "q".to_string() });
    rich.command_progress_notification = Some(Channel::SNS { target_arn: "arn".to_string() });
    let done = Channel::HTTP {
        endpoint: "http://e".to_string(),
        additional_headers: Some(vec![("a".to_string(), "b".to_string())]),
    };
    assert_eq!(fingerprint_dispatch("alice", &input("t", vec![rich], "n", Some(done))), 9727247029416778457);
}

#[test]
fn fingerprints_tell_requests_apart() {
    let base = input("t", vec![plain("ping", "x", 0, true)], "n", None);
    let f = fingerprint_dispatch("alice", &base);
    let mut others = vec![
        fingerprint_dispatch("bob", &base),
        fingerprint_dispatch("", &base),
        fingerprint_dispatch("alice", &input("u", vec![plain("ping", "x", 0, true)], "n", None)),
        fingerprint_dispatch("alice", &input("t", vec![plain("ping", "x", 0, true)], "m", None)),
        fingerprint_dispatch("alice", &input("t", vec![plain("pong", "x", 0, true)], "n", None)),
        fingerprint_dispatch("alice", &input("t", vec![plain("ping", "y", 0, true)], "n", None)),
        fingerprint_dispatch("alice", &input("t", vec![plain("ping", "x", 1, true)], "n", None)),
        fingerprint_dispatch("alice", &input("t", vec![plain("ping", "x", 0, false)], "n", None)),
        fingerprint_dispatch("alice", &input("t", vec![plain("pingx", "", 0, true)], "n", None)),
        fingerprint_dispatch("alice", &input("t", vec![], "n", None)),
        fingerprint_dispatch(
            "alice",
            &input("t", vec![plain("ping", "x", 0, true), plain("ping", "x", 0, true)], "n", None),
        ),
        fingerprint_dispatch(
            "alice",
            &input("t", vec![plain("ping", "x", 0, true)], "n", Some(Channel::SQS { queue_url: "q".to_string() })),
        ),
        fingerprint_dispatch(
            "alice",
            &input("t", vec![plain("ping", "x", 0, true)], "n", Some(Channel::SNS { target_arn: "q".to_string() })),
        ),
        fingerprint_dispatch(
            "alice",
            &input(
                "t",
                vec![plain("ping", "x", 0, true)],
                "n",
                Some(Channel::HTTP { endpoint: "q".to_string(), additional_headers: None }),
            ),
        ),
        fingerprint_dispatch(
            "alice",
            &input(
                "t",
                vec![plain("ping", "x", 0, true)],
                "n",
                Some(Channel::HTTP { endpoint: "q".to_string(), additional_headers: Some(vec![]) }),
            ),
        ),
    ];
    others.push(f);
    let total = others.len();
    others.sort();
    others.dedup();
    assert_eq!(others.len(), total);
}

#[test]
fn store_settings_are_consistent() {
    assert_eq!(HEARTBEAT_INTERVAL_MILLIS, 10000);
    assert_eq!(LEASE_GRACE_MILLIS, 30000);
    assert_eq!(SWEEP_PERIOD_MILLIS, 2500);
    assert_eq!(MAX_POLL_TIMEOUT_MILLIS, 60000);
    assert_eq!(deadline_for(1000, 0), 1000);
    assert_eq!(deadline_for(1000, 60000), 61000);
    assert_eq!(deadline_for(1000, 60001), 61000);
    assert_eq!(deadline_for(usize::MAX - 5, 5), usize::MAX);
    assert_eq!(deadline_for(usize::MAX - 5, 6), usize::MAX);
}

#[test]
fn connection_records_are_kept_per_account_and_target() {
    let mut db = Database::Local(LocalDatabase::new());
    let key = |a: &str, t: &str| (a.to_string(), t.to_string());
    let (a, t) = key("acct", "east");
    assert_eq!(db.connection(&a, &t), None);
    db.bind_connection("acct".to_string(), "east".to_string(), "node-1".to_string());
    db.bind_connection("acct".to_string(), "west".to_string(), "node-2".to_string());
    db.bind_connection("other".to_string(), "east".to_string(), "node-3".to_string());
    assert_eq!(db.connection(&a, &t), Some("node-1".to_string()));
    let (a2, t2) = key("acct", "west");
    assert_eq!(db.connection(&a2, &t2), Some("node-2".to_string()));
    let (a3, t3) = key("other", "east");
    assert_eq!(db.connection(&a3, &t3), Some("node-3".to_string()));
    let (a4, t4) = key("other", "west");
    assert_eq!(db.connection(&a4, &t4), None);
    // Binding again replaces the record.
    db.bind_connection("acct".to_string(), "east".to_string(), "node-9".to_string());
    assert_eq!(db.connection(&a, &t), Some("node-9".to_string()));
    assert_eq!(db.connection(&a2, &t2), Some("node-2".to_string()));
}

#[test]
fn requests_reach_the_handler_of_their_operation() {
    let mut db = Database::local();
    let request = Request::DispatchCommands(input("t", vec![plain("ping", "x", 0, true)], "n", None));
    assert_eq!(request.operation(), Operation::DispatchCommands);
    let batch = match invoke(request, "alice", 10, &mut db) {
        Reply::DispatchCommands(out) => out.batch_id,
        other => panic!("unexpected reply {:?}", other),
    };
    let poll = Request::ReceiveCommands(receive_commands::Input {
        target_name: "t".to_string(),
        exclude_batches: vec![],
        group_membership: vec![],
        timeout_millis: 0,
    });
    assert_eq!(poll.operation(), Operation::ReceiveCommands);
    match invoke(poll, "exec", 11, &mut db) {
        Reply::ReceiveCommands(receive_commands::Polled::Ready(out)) => {
            assert_eq!(out.command_batches.len(), 1);
            assert_eq!(out.command_batches[0].id, batch);
        }
        other => panic!("unexpected reply {:?}", other),
    }
    let start = Request::StartCommand(start_command::Input {
        batch_id: batch.clone(),
        command_index: 0,
        nonce: "s".to_string(),
    });
    assert_eq!(start.operation(), Operation::StartCommand);
    let token = match invoke(start, "exec", 12, &mut db) {
        Reply::StartCommand(start_command::Output::Continue { attempt_token }) => attempt_token,
        other => panic!("unexpected reply {:?}", other),
    };
    let beat = Request::HeartbeatCommand(heartbeat_command::Input {
        batch_id: batch.clone(),
        attempt_token: token.clone(),
    });
    assert_eq!(beat.operation(), Operation::HeartbeatCommand);
    assert!(matches!(
        invoke(beat, "exec", 13, &mut db),
        Reply::HeartbeatCommand(heartbeat_command::Output::Continue)
    ));
    let one = Request::DescribeCommand(describe_command::Input { batch_id: batch.clone(), command_index: 0 });
    assert_eq!(one.operation(), Operation::DescribeCommand);
    match invoke(one, "anyone", 14, &mut db) {
        Reply::DescribeCommand(Some(out)) => {
            assert_eq!(out.command, describe_command::CommandStatus::Active);
            assert_eq!(
                out.attempts,
                vec![describe_command::AttemptStatus::Started {
                    heartbeats: 1,
                    available_epoch_millis: 10,
                    start_epoch_millis: 12,
                }]
            );
        }
        other => panic!("unexpected reply {:?}", other),
    }
    let done = Request::CompleteCommand(complete_command::Input {
        batch_id: batch.clone(),
        attempt_token: token,
        success: true,
        data: Some("ok".to_string()),
    });
    assert_eq!(done.operation(), Operation::CompleteCommand);
    assert!(matches!(
        invoke(done, "exec", 15, &mut db),
        Reply::CompleteCommand(complete_command::Output::NextCommand)
    ));
    let all = Request::DescribeCommands(describe_commands::Input { batch_id: batch.clone() });
    assert_eq!(all.operation(), Operation::DescribeCommands);
    match invoke(all, "anyone", 16, &mut db) {
        Reply::DescribeCommands(Some(out)) => {
            assert_eq!(out.batch, BatchStatus::Done { succeeded: true });
            assert_eq!(out.commands, vec![CommandStatus::Done { succeeded: true }]);
        }
        other => panic!("unexpected reply {:?}", other),
    }
    let delete = Request::DeleteCommands(delete_commands::Input { batch_id: batch.clone() });
    assert_eq!(delete.operation(), Operation::DeleteCommands);
    assert!(matches!(invoke(delete, "anyone", 17, &mut db), Reply::DeleteCommands(delete_commands::Output {})));
    assert!(matches!(
        invoke(Request::DescribeCommands(describe_commands::Input { batch_id: batch }), "anyone", 18, &mut db),
        Reply::DescribeCommands(None)
    ));
}

#[test]
fn a_description_of_nothing_is_answered_as_absent() {
    let mut db = Database::local();
    let unknown = invoke(
        Request::DescribeCommands(describe_commands::Input { batch_id: "none".to_string() }),
        "anyone",
        1,
        &mut db,
    );
    assert_eq!(answer_for(&unknown), Answer::Absent);
    let batch = match invoke(
        Request::DispatchCommands(input("t", vec![plain("ping", "x", 0, true)], "n", None)),
        "alice",
        2,
        &mut db,
    ) {
        Reply::DispatchCommands(out) => {
            assert_eq!(answer_for(&Reply::DispatchCommands(out.clone())), Answer::Output);
            out.batch_id
        }
        other => panic!("unexpected reply {:?}", other),
    };
    let known = invoke(
        Request::DescribeCommands(describe_commands::Input { batch_id: batch.clone() }),
        "anyone",
        3,
        &mut db,
    );
    assert_eq!(answer_for(&known), Answer::Output);
    let beyond = invoke(
        Request::DescribeCommand(describe_command::Input { batch_id: batch.clone(), command_index: 1 }),
        "anyone",
        4,
        &mut db,
    );
    assert_eq!(answer_for(&beyond), Answer::Absent);
    let within = invoke(
        Request::DescribeCommand(describe_command::Input { batch_id: batch, command_index: 0 }),
        "anyone",
        5,
        &mut db,
    );
    assert_eq!(answer_for(&within), Answer::Output);
    assert_eq!(
        answer_for(&Reply::DeleteCommands(delete_commands::Output {})),
        Answer::Output
    );
    assert_eq!(absent_body(), "null");
    assert_eq!(STATUS_OK, 200);
}

#[test]
fn headers_are_put_into_normal_form() {
    let pair = |name: &str, value: &str| (name.to_string(), value.to_string());
    assert_eq!(normalize_headers(&vec![]), vec![]);
    assert_eq!(
        normalize_headers(&vec![pair("b", "2"), pair("a", "1"), pair("c", "3")]),
        vec![pair("a", "1"), pair("b", "2"), pair("c", "3")]
    );
    // The last entry for a name wins, and the name is kept once.
    assert_eq!(
        normalize_headers(&vec![pair("x", "old"), pair("a", "1"), pair("x", "new"), pair("a", "2")]),
        vec![pair("a", "2"), pair("x", "new")]
    );
    // A name that another one starts with comes first; upper case comes before lower case.
    assert_eq!(
        normalize_headers(&vec![pair("ab", ""), pair("a", ""), pair("", ""), pair("B", ""), pair("é", "")]),
        vec![pair("", ""), pair("B", ""), pair("a", ""), pair("ab", ""), pair("é", "")]
    );
    let mut list = vec![pair("a", "1"), pair("c", "3")];
    put_header(&mut list, "b".to_string(), "2".to_string());
    put_header(&mut list, "c".to_string(), "4".to_string());
    put_header(&mut list, "".to_string(), "0".to_string());
    put_header(&mut list, "d".to_string(), "5".to_string());
    assert_eq!(list, vec![pair("", "0"), pair("a", "1"), pair("b", "2"), pair("c", "4"), pair("d", "5")]);

    // A list in any order is put into normal form first.
    let mut unsorted = vec![pair("z", "1"), pair("a", "2"), pair("z", "3")];
    put_header(&mut unsorted, "m".to_string(), "4".to_string());
    assert_eq!(unsorted, vec![pair("a", "2"), pair("m", "4"), pair("z", "3")]);

    assert_eq!(place_of("abc", "abd"), Place::Before);
    assert_eq!(place_of("abc", "abc"), Place::Same);
    assert_eq!(place_of("abd", "abc"), Place::After);
    assert_eq!(place_of("ab", "abc"), Place::Before);
    assert_eq!(place_of("abc", "ab"), Place::After);
    assert_eq!(place_of("", ""), Place::Same);
    assert_eq!(place_of("", "a"), Place::Before);
    assert_eq!(place_of("z", "é"), Place::Before);
}

#[test]
fn channels_with_the_same_headers_have_the_same_fingerprint() {
    let pair = |name: &str, value: &str| (name.to_string(), value.to_string());
    let one = Channel::http(
        "https://hook".to_string(),
        Some(vec![pair("X-B", "2"), pair("X-A", "0"), pair("X-A", "1")]),
    );
    let other = Channel::http("https://hook".to_string(), Some(vec![pair("X-A", "1"), pair("X-B", "2")]));
    assert_eq!(one, other);
    assert_eq!(
        one,
        Channel::HTTP {
            endpoint: "https://hook".to_string(),
            additional_headers: Some(vec![pair("X-A", "1"), pair("X-B", "2")]),
        }
    );
    assert_eq!(
        Channel::http("e".to_string(), None),
        Channel::HTTP { endpoint: "e".to_string(), additional_headers: None }
    );
    let normal = fingerprint_dispatch("alice", &input("t", vec![], "n", Some(one)));
    assert_eq!(normal, fingerprint_dispatch("alice", &input("t", vec![], "n", Some(other))));
    // The fingerprint is that of the normal form, however the headers are held.
    let by_hand = Channel::HTTP {
        endpoint: "https://hook".to_string(),
        additional_headers: Some(vec![pair("X-B", "2"), pair("X-A", "0"), pair("X-A", "1")]),
    };
    assert_eq!(normal, fingerprint_dispatch("alice", &input("t", vec![], "n", Some(by_hand))));
    let different = Channel::HTTP {
        endpoint: "https://hook".to_string(),
        additional_headers: Some(vec![pair("X-B", "2"), pair("X-A", "0")]),
    };
    assert_ne!(normal, fingerprint_dispatch("alice", &input("t", vec![], "n", Some(different))));
}
