//! `DispatchCommands`: submit a batch of commands against a target.

use crate::database::dispatch_model;
use crate::database::Database;
use crate::laws::preserves;
use crate::fingerprint::dispatch_fingerprint;
use crate::fingerprint::fingerprint_dispatch;
use crate::ids::random_id;
use crate::ids::ID_LENGTH;
use crate::headers::normal_form;
use crate::headers::header_views;
use crate::headers::normalize_headers;
use crate::headers::normalized;
use vstd::prelude::*;

verus! {

/// Where a notification is sent.
#[derive(Clone, Debug, PartialEq, Eq)]
pub enum Channel {
    /// POST the payload to `endpoint`, with `additional_headers` as extra
    /// request headers, each a name and a value. The headers are meant to
    /// be in normal form, sorted by name with each name once, as
    /// `Channel::http` puts them.
    HTTP { endpoint: String, additional_headers: Option<Vec<(String, String)>> },
    /// Send the payload to the queue at `queue_url`.
    SQS { queue_url: String },
    /// Publish the payload to the topic `target_arn`.
    SNS { target_arn: String },
}

/// A channel as plain data.
pub enum ChannelView {
    HTTP { endpoint: Seq<char>, additional_headers: Option<Seq<(Seq<char>, Seq<char>)>> },
    SQS { queue_url: Seq<char> },
    SNS { target_arn: Seq<char> },
}

impl View for Channel {
    type V = ChannelView;

    open spec fn view(&self) -> ChannelView {
        match self {
            Channel::HTTP { endpoint, additional_headers } => ChannelView::HTTP {
                endpoint: endpoint@,
                additional_headers: match additional_headers {
                    Some(headers) => Some(headers.deep_view()),
                    None => None,
                },
            },
            Channel::SQS { queue_url } => ChannelView::SQS { queue_url: queue_url@ },
            Channel::SNS { target_arn } => ChannelView::SNS { target_arn: target_arn@ },
        }
    }
}

/// The view of an optional channel.
pub open spec fn channel_view(channel: Option<Channel>) -> Option<ChannelView> {
    match channel {
        Some(c) => Some(c@),
        None => None,
    }
}

/// Whether the headers of a channel, if it has any, are in normal form:
/// sorted by name, each name once.
pub open spec fn channel_normal(channel: ChannelView) -> bool {
    match channel {
        ChannelView::HTTP { additional_headers: Some(headers), .. } => normalized(headers),
        _ => true,
    }
}

/// The deep view of a list of headers is the list of their views.
pub proof fn lemma_header_views(headers: Vec<(String, String)>)
    ensures
        headers.deep_view() == header_views(headers@),
{
    assert(headers.deep_view() =~= header_views(headers@));
}

/// Copies a list of headers.
pub fn duplicate_headers(headers: &Vec<(String, String)>) -> (r: Vec<(String, String)>)
    ensures
        r.deep_view() == headers.deep_view(),
{
    let mut r: Vec<(String, String)> = Vec::new();
    let mut i: usize = 0;
    while i < headers.len()
        invariant
            i <= headers.len(),
            r@.len() == i,
            forall|j: int| 0 <= j < i ==> r@[j].deep_view() == headers@[j].deep_view(),
        decreases headers.len() - i,
    {
        let pair = &headers[i];
        r.push((pair.0.clone(), pair.1.clone()));
        i = i + 1;
    }
    assert(r.deep_view() =~= headers.deep_view());
    r
}

impl Channel {
    /// An HTTP channel to `endpoint` whose headers are the normal form of
    /// the given ones: sorted by name, each name once, with the value that
    /// the last given entry for the name has.
    pub fn http(endpoint: String, additional_headers: Option<Vec<(String, String)>>) -> (c: Channel)
        ensures
            channel_normal(c@),
            c@ is HTTP,
            c@->endpoint == endpoint@,
            c@->additional_headers is Some <==> additional_headers is Some,
            additional_headers matches Some(given) ==> c@->additional_headers == Some(
                normal_form(header_views(given@)),
            ),
    {
        match additional_headers {
            Some(given) => {
                let kept = normalize_headers(&given);
                proof {
                    lemma_header_views(kept);
                }
                Channel::HTTP { endpoint, additional_headers: Some(kept) }
            },
            None => Channel::HTTP { endpoint, additional_headers: None },
        }
    }

    /// A copy of this channel.
    pub fn duplicate(&self) -> (r: Channel)
        ensures
            r@ == self@,
    {
        match self {
            Channel::HTTP { endpoint, additional_headers } => Channel::HTTP {
                endpoint: endpoint.clone(),
                additional_headers: match additional_headers {
                    Some(headers) => Some(duplicate_headers(headers)),
                    None => None,
                },
            },
            Channel::SQS { queue_url } => Channel::SQS { queue_url: queue_url.clone() },
            Channel::SNS { target_arn } => Channel::SNS { target_arn: target_arn.clone() },
        }
    }
}

/// A copy of an optional channel.
pub fn duplicate_channel(channel: &Option<Channel>) -> (r: Option<Channel>)
    ensures
        channel_view(r) == channel_view(*channel),
{
    match channel {
        Some(c) => Some(c.duplicate()),
        None => None,
    }
}

/// One command of a batch, as submitted.
#[derive(Clone, Debug, PartialEq, Eq)]
pub struct Command {
    /// Command name.
    pub name: String,
    /// Small per-command data that is passed down to the executor.
    pub data: String,
    /// Retries allowed after the first attempt: the command is attempted at
    /// most `max_retries + 1` times.
    pub max_retries: usize,
    /// Where to announce that the command became available.
    pub command_available_notification: Option<Channel>,
    /// Where to announce that an attempt started or completed.
    pub command_progress_notification: Option<Channel>,
    /// Whether the batch fails when this command runs out of attempts. If
    /// not, the batch moves on to the next command.
    pub success_required: bool,
}

/// A submitted command as plain data.
pub struct CommandView {
    pub name: Seq<char>,
    pub data: Seq<char>,
    pub max_retries: usize,
    pub command_available_notification: Option<ChannelView>,
    pub command_progress_notification: Option<ChannelView>,
    pub success_required: bool,
}

impl View for Command {
    type V = CommandView;

    open spec fn view(&self) -> CommandView {
        CommandView {
            name: self.name@,
            data: self.data@,
            max_retries: self.max_retries,
            command_available_notification: channel_view(self.command_available_notification),
            command_progress_notification: channel_view(self.command_progress_notification),
            success_required: self.success_required,
        }
    }
}

impl Command {
    /// A copy of this command.
    pub fn duplicate(&self) -> (r: Command)
        ensures
            r@ == self@,
    {
        Command {
            name: self.name.clone(),
            data: self.data.clone(),
            max_retries: self.max_retries,
            command_available_notification: duplicate_channel(
                &self.command_available_notification,
            ),
            command_progress_notification: duplicate_channel(&self.command_progress_notification),
            success_required: self.success_required,
        }
    }
}

/// The views of a list of commands, in order.
pub open spec fn command_views(commands: Seq<Command>) -> Seq<CommandView> {
    Seq::new(commands.len(), |i: int| commands[i]@)
}

/// The request.
#[derive(Clone, Debug, PartialEq, Eq)]
pub struct Input {
    /// The target the commands are dispatched against.
    pub target_name: String,
    /// The commands, in the order in which they must be executed.
    pub commands: Vec<Command>,
    /// Retry nonce: a client that retries the request sends the same nonce.
    pub nonce: String,
    /// Where to announce that the batch is complete.
    pub batch_complete_notification: Option<Channel>,
}

/// The request as plain data.
pub struct InputView {
    pub target_name: Seq<char>,
    pub commands: Seq<CommandView>,
    pub nonce: Seq<char>,
    pub batch_complete_notification: Option<ChannelView>,
}

impl View for Input {
    type V = InputView;

    open spec fn view(&self) -> InputView {
        InputView {
            target_name: self.target_name@,
            commands: command_views(self.commands@),
            nonce: self.nonce@,
            batch_complete_notification: channel_view(self.batch_complete_notification),
        }
    }
}

/// The response.
#[derive(Clone, Debug, PartialEq, Eq)]
pub struct Output {
    /// The id of the batch: a fresh one, or the one an earlier request with
    /// the same fingerprint was given.
    pub batch_id: String,
}

/// Handles a `DispatchCommands` request of `caller` at `now`.
///
/// The request's fingerprint decides the batch id. A fresh id is drawn for
/// the case that the fingerprint is new, so the outcome is that of
/// `dispatch_model` for some fresh id.
pub fn handle(req: &Input, caller: &str, now: usize, database: &mut Database) -> (out: Output)
    ensures
        exists|fresh: Seq<char>|
            fresh.len() == ID_LENGTH && (final(database)@, out.batch_id@) == #[trigger] dispatch_model(
                old(database)@,
                dispatch_fingerprint(caller@, req@),
                fresh,
                req@,
                now,
            ),
        preserves(old(database)@, final(database)@),
{
    let fingerprint = fingerprint_dispatch(caller, req);
    let fresh_id = random_id();
    database.dispatch(fingerprint, fresh_id, req, now)
}

} // verus!
