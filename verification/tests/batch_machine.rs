use dispatch_service::batch::lease_has_expired;
use dispatch_service::batch::BatchRecord;
use dispatch_service::batch::Completion;
use dispatch_service::batch::Finished;
use dispatch_service::batch::Progress;
use dispatch_service::operations::complete_command;
use dispatch_service::operations::describe_command;
use dispatch_service::operations::describe_commands::BatchStatus;
use dispatch_service::operations::describe_commands::CommandStatus;
use dispatch_service::operations::dispatch_commands::Command;
use dispatch_service::operations::heartbeat_command;
use dispatch_service::operations::receive_commands;
use dispatch_service::operations::start_command;

fn command(name: &str, max_retries: usize, success_required: bool) -> Command {
    Command {
        name: name.to_string(),
        data: format!("data of {}", name),
        max_retries,
        command_available_notification: None,
        command_progress_notification: None,
        success_required,
    }
}

fn batch(commands: Vec<Command>) -> BatchRecord {
    BatchRecord::new("b-1".to_string(), "t".to_string(), "n".to_string(), &commands, None, 100)
}

fn started(b: &mut BatchRecord, index: usize, nonce: &str, token: &str, now: usize) -> start_command::Output {
    let (out, began) = b.start(index, &nonce.to_string(), token.to_string(), now, 10000);
    assert_eq!(began, out == start_command::Output::Continue { attempt_token: token.to_string() });
    out
}

fn running_count(b: &BatchRecord) -> usize {
    let mut count = 0;
    for index in 0..b.commands.len() {
        for attempt in b.describe_command(index).expect("in range").attempts {
            if matches!(attempt, describe_command::AttemptStatus::Started { .. }) {
                count += 1;
            }
        }
    }
    count
}

#[test]
fn fresh_batch_waits_on_its_first_command() {
    let b = batch(vec![command("a", 0, true), command("b", 1, false)]);
    assert_eq!(b.batch_id, "b-1");
    assert_eq!(b.target_name, "t");
    assert_eq!(b.created_at, 100);
    assert_eq!(b.progress(), Progress::Active { current: 0 });
    assert_eq!(b.status(), BatchStatus::Active);
    assert_eq!(b.command_statuses(), vec![CommandStatus::Inactive, CommandStatus::Inactive]);
    assert_eq!(
        b.pending(0, 2500),
        Some(receive_commands::Command {
            index: 0,
            name: "a".to_string(),
            data: "data of a".to_string(),
            heartbeat_interval_millis: 2500,
        })
    );
    assert_eq!(b.commands[1].attempts.len(), 0);
}

#[test]
fn empty_batch_is_done_at_once() {
    let mut b = batch(vec![]);
    assert_eq!(b.progress(), Progress::Done { succeeded: true });
    assert_eq!(b.status(), BatchStatus::Done { succeeded: true });
    assert_eq!(b.pending(1000, 1), None);
    assert_eq!(started(&mut b, 0, "n", "t", 101), start_command::Output::Discard);
    assert!(b.describe_command(0).is_none());
}

#[test]
fn start_hands_out_the_given_token_once() {
    let mut b = batch(vec![command("a", 1, true)]);
    assert_eq!(
        started(&mut b, 0, "n1", "tok-1", 110),
        start_command::Output::Continue { attempt_token: "tok-1".to_string() }
    );
    assert_eq!(b.command_statuses(), vec![CommandStatus::Active]);
    assert_eq!(b.pending(200, 1), None);
    // A retry of the same request gets the token it was given, not the new one.
    let (out, began) = b.start(0, &"n1".to_string(), "tok-2".to_string(), 120, 10000);
    assert_eq!(out, start_command::Output::Continue { attempt_token: "tok-1".to_string() });
    assert!(!began);
    // Someone else is turned away.
    assert_eq!(started(&mut b, 0, "n2", "tok-3", 130), start_command::Output::Discard);
    assert_eq!(running_count(&b), 1);
    assert_eq!(
        b.describe_command(0).expect("in range").attempts,
        vec![describe_command::AttemptStatus::Started {
            heartbeats: 0,
            available_epoch_millis: 100,
            start_epoch_millis: 110,
        }]
    );
}

#[test]
fn heartbeat_counts_for_the_running_token_only() {
    let mut b = batch(vec![command("a", 0, true)]);
    assert_eq!(b.heartbeat(&"tok".to_string(), 105), heartbeat_command::Output::Discard);
    started(&mut b, 0, "n", "tok", 110);
    assert_eq!(b.heartbeat(&"tok".to_string(), 120), heartbeat_command::Output::Continue);
    assert_eq!(b.heartbeat(&"other".to_string(), 125), heartbeat_command::Output::Discard);
    assert_eq!(b.heartbeat(&"tok".to_string(), 130), heartbeat_command::Output::Continue);
    assert_eq!(
        b.describe_command(0).expect("in range").attempts,
        vec![describe_command::AttemptStatus::Started {
            heartbeats: 2,
            available_epoch_millis: 100,
            start_epoch_millis: 110,
        }]
    );
    // The lease counts from the last accepted heartbeat.
    assert_eq!(
        b.expire(130 + 30000, 30000),
        Completion { instruction: complete_command::Output::Discard, finished: None }
    );
    assert_eq!(b.expire(130 + 30001, 30000).finished.map(|f| f.succeeded), Some(false));
}

#[test]
fn completion_reports_what_changed() {
    let mut b = batch(vec![command("a", 1, false), command("b", 0, true), command("c", 0, true)]);
    assert_eq!(
        b.complete(&"tok".to_string(), true, String::new(), 105),
        Completion { instruction: complete_command::Output::Discard, finished: None }
    );
    started(&mut b, 0, "n", "t1", 110);
    assert_eq!(
        b.complete(&"t1".to_string(), false, "oops".to_string(), 120),
        Completion {
            instruction: complete_command::Output::SameCommand,
            finished: Some(Finished { command_index: 0, succeeded: false, available: Some(0), batch_done: None }),
        }
    );
    assert_eq!(b.command_statuses()[0], CommandStatus::Active);
    // The retry is handed out once its time has come.
    assert_eq!(b.pending(119, 1), None);
    assert_eq!(b.pending(120, 1).map(|c| c.index), Some(0));
    started(&mut b, 0, "n", "t2", 130);
    assert_eq!(
        b.complete(&"t2".to_string(), false, "again".to_string(), 140),
        Completion {
            instruction: complete_command::Output::NextCommand,
            finished: Some(Finished { command_index: 0, succeeded: false, available: Some(1), batch_done: None }),
        }
    );
    assert_eq!(b.progress(), Progress::Active { current: 1 });
    // The first attempt of the next command is handed out at any time.
    assert_eq!(b.pending(0, 1).map(|c| c.index), Some(1));
    started(&mut b, 1, "n", "t3", 150);
    assert_eq!(
        b.complete(&"t3".to_string(), false, String::new(), 160),
        Completion {
            instruction: complete_command::Output::Discard,
            finished: Some(Finished { command_index: 1, succeeded: false, available: None, batch_done: Some(false) }),
        }
    );
    assert_eq!(b.progress(), Progress::Done { succeeded: false });
    assert_eq!(
        b.command_statuses(),
        vec![
            CommandStatus::Done { succeeded: false },
            CommandStatus::Done { succeeded: false },
            CommandStatus::Inactive
        ]
    );
    assert_eq!(b.pending(1000, 1), None);
    assert_eq!(running_count(&b), 0);
}

#[test]
fn last_success_ends_the_batch() {
    let mut b = batch(vec![command("a", 0, true)]);
    started(&mut b, 0, "n", "t1", 110);
    assert_eq!(
        b.complete(&"t1".to_string(), true, "fine".to_string(), 120),
        Completion {
            instruction: complete_command::Output::NextCommand,
            finished: Some(Finished { command_index: 0, succeeded: true, available: None, batch_done: Some(true) }),
        }
    );
    assert_eq!(b.status(), BatchStatus::Done { succeeded: true });
}

#[test]
fn at_most_one_attempt_runs_at_any_time() {
    let mut b = batch(vec![command("a", 2, false), command("b", 1, true), command("c", 0, true)]);
    let mut now = 100;
    let mut token = 0;
    for round in 0..40 {
        now += 1;
        token += 1;
        let name = format!("tok-{}", token);
        for index in 0..4 {
            b.start(index, &format!("n-{}", round), name.clone(), now, 10000);
            assert!(running_count(&b) <= 1);
        }
        if round % 3 == 0 {
            b.heartbeat(&name, now);
        }
        if round % 2 == 1 {
            b.complete(&name, round % 5 == 0, String::new(), now);
        } else {
            b.expire(now + 40000, 30000);
            now += 40000;
        }
        assert!(running_count(&b) <= 1);
        for (index, record) in b.commands.iter().enumerate() {
            assert!(record.attempts.len() <= record.definition.max_retries + 1, "command {}", index);
        }
    }
    assert!(matches!(b.status(), BatchStatus::Done { .. }));
}

#[test]
fn lease_is_three_intervals_or_the_grace_period() {
    // Three intervals of 10 s are 30 s; the grace period is shorter.
    assert!(!lease_has_expired(1000, 10000, 5000, 31000));
    assert!(lease_has_expired(1000, 10000, 5000, 31001));
    // The grace period is longer.
    assert!(!lease_has_expired(1000, 10000, 60000, 61000));
    assert!(lease_has_expired(1000, 10000, 60000, 61001));
    // Nothing overflows at the top of the range.
    assert!(!lease_has_expired(usize::MAX, 1, 1, usize::MAX));
    assert!(!lease_has_expired(5, usize::MAX, 0, usize::MAX));
    assert!(!lease_has_expired(5, usize::MAX / 3 + 1, 0, usize::MAX));
    assert!(!lease_has_expired(1, 1, usize::MAX, usize::MAX));
    assert!(lease_has_expired(0, 0, 0, 1));
    assert!(!lease_has_expired(0, 0, 0, 0));
}

#[test]
fn heartbeat_counter_stays_at_the_top() {
    let mut b = batch(vec![command("a", 0, true)]);
    started(&mut b, 0, "n", "tok", 110);
    if let dispatch_service::batch::Attempt::Started { heartbeats, .. } = &mut b.commands[0].attempts[0] {
        *heartbeats = usize::MAX - 1;
    }
    assert_eq!(b.heartbeat(&"tok".to_string(), 120), heartbeat_command::Output::Continue);
    assert_eq!(b.heartbeat(&"tok".to_string(), 121), heartbeat_command::Output::Continue);
    assert_eq!(
        b.describe_command(0).expect("in range").attempts,
        vec![describe_command::AttemptStatus::Started {
            heartbeats: usize::MAX,
            available_epoch_millis: 100,
            start_epoch_millis: 110,
        }]
    );
}

#[test]
fn unlimited_retries_do_not_overflow() {
    let mut b = batch(vec![command("a", usize::MAX, true)]);
    for round in 0..5 {
        started(&mut b, 0, "n", "tok", 110 + round);
        assert_eq!(
            b.complete(&"tok".to_string(), false, String::new(), 120 + round).instruction,
            complete_command::Output::SameCommand
        );
    }
    assert_eq!(b.commands[0].attempts.len(), 6);
}
