//! Notifications about the progress of a batch, and the policy for
//! delivering them.
//!
//! The service only queues notifications. Delivery happens elsewhere, and
//! asks this module what to do after a failed delivery.

use crate::operations::dispatch_commands::Channel;
use crate::operations::dispatch_commands::ChannelView;
use vstd::prelude::*;

verus! {

/// What a notification reports.
#[derive(Clone, Copy, Debug, PartialEq, Eq, Structural)]
pub enum Event {
    /// An attempt of the command is waiting for an executor.
    CommandAvailable { command_index: usize },
    /// An executor started an attempt of the command.
    AttemptStarted { command_index: usize },
    /// An attempt of the command ended.
    AttemptCompleted { command_index: usize, succeeded: bool },
    /// The batch is done.
    BatchCompleted { succeeded: bool },
}

/// A notification waiting to be delivered.
#[derive(Debug)]
pub struct Notification {
    /// Where it goes.
    pub channel: Channel,
    /// The batch it is about.
    pub batch_id: String,
    /// What it reports.
    pub event: Event,
}

/// A notification as plain data.
pub struct NotificationView {
    pub channel: ChannelView,
    pub batch_id: Seq<char>,
    pub event: Event,
}

impl View for Notification {
    type V = NotificationView;

    open spec fn view(&self) -> NotificationView {
        NotificationView { channel: self.channel@, batch_id: self.batch_id@, event: self.event }
    }
}

/// The views of a list of notifications, in order.
pub open spec fn notification_views(notifications: Seq<Notification>) -> Seq<NotificationView> {
    Seq::new(notifications.len(), |i: int| notifications[i]@)
}

/// `outbox` with a notification about `event` added, if there is a channel
/// to send it on.
pub open spec fn notify(
    outbox: Seq<NotificationView>,
    channel: Option<ChannelView>,
    batch_id: Seq<char>,
    event: Event,
) -> Seq<NotificationView> {
    match channel {
        Some(channel) => outbox.push(NotificationView { channel, batch_id, event }),
        None => outbox,
    }
}

/// Queues a notification about `event`, if there is a channel to send it
/// on.
pub fn enqueue(
    outbox: &mut Vec<Notification>,
    channel: &Option<Channel>,
    batch_id: &String,
    event: Event,
)
    ensures
        notification_views(final(outbox)@) == notify(
            notification_views(old(outbox)@),
            crate::operations::dispatch_commands::channel_view(*channel),
            batch_id@,
            event,
        ),
{
    match channel {
        Some(channel) => {
            outbox.push(
                Notification { channel: channel.duplicate(), batch_id: batch_id.clone(), event },
            );
            assert(notification_views(outbox@) =~= notification_views(old(outbox)@).push(
                NotificationView { channel: channel@, batch_id: batch_id@, event },
            ));
        },
        None => {},
    }
}

/// Deliveries of one notification that are tried before it is dropped.
pub const MAX_DELIVERY_ATTEMPTS: u32 = 5;

/// The wait before the second delivery attempt, in milliseconds. Each
/// further wait is twice as long.
pub const FIRST_RETRY_DELAY_MILLIS: u64 = 100;

/// What to do with a notification whose delivery failed.
#[derive(Clone, Copy, Debug, PartialEq, Eq, Structural)]
pub enum Redelivery {
    /// Try again after `delay_millis`.
    Retry { delay_millis: u64 },
    /// Give the notification up.
    Drop,
}

/// The wait after the given number of failed deliveries: the first delay,
/// doubled with each failure after the first.
pub open spec fn backoff_millis(failures: nat) -> nat
    decreases failures,
{
    if failures <= 1 {
        FIRST_RETRY_DELAY_MILLIS as nat
    } else {
        2 * backoff_millis((failures - 1) as nat)
    }
}

/// What to do after the given number of failed deliveries.
pub open spec fn redelivery_model(failures: u32) -> Redelivery {
    if failures >= MAX_DELIVERY_ATTEMPTS {
        Redelivery::Drop
    } else {
        Redelivery::Retry { delay_millis: backoff_millis(failures as nat) as u64 }
    }
}

/// What to do with a notification after `failures` deliveries of it
/// failed: wait twice as long as last time and try again, or drop it once
/// the attempts are used up.
pub fn after_failure(failures: u32) -> (r: Redelivery)
    ensures
        r == redelivery_model(failures),
{
    if failures >= MAX_DELIVERY_ATTEMPTS {
        return Redelivery::Drop;
    }
    let mut delay: u64 = FIRST_RETRY_DELAY_MILLIS;
    let mut counted: u32 = 1;
    while counted < failures
        invariant
            1 <= counted <= MAX_DELIVERY_ATTEMPTS,
            failures < MAX_DELIVERY_ATTEMPTS,
            counted <= failures || counted == 1,
            delay == backoff_millis(counted as nat),
            delay <= FIRST_RETRY_DELAY_MILLIS * 16,
        decreases failures - counted,
    {
        proof {
            lemma_backoff_values();
        }
        delay = delay * 2;
        counted = counted + 1;
    }
    proof {
        lemma_backoff_values();
    }
    Redelivery::Retry { delay_millis: delay }
}

/// The waits the policy hands out: 100, 200, 400 and 800 milliseconds.
pub proof fn lemma_backoff_values()
    ensures
        backoff_millis(0) == 100,
        backoff_millis(1) == 100,
        backoff_millis(2) == 200,
        backoff_millis(3) == 400,
        backoff_millis(4) == 800,
{
    reveal_with_fuel(backoff_millis, 5);
}

} // verus!
