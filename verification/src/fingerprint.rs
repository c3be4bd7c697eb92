//! Fingerprints of requests: a stable 64-bit hash over the operation, the
//! caller and everything the request holds. Requests with equal
//! fingerprints are treated as retries of one another.
//!
//! The hash is FNV-1a. Every variable-length part is preceded by its
//! length, and every optional part by a marker, so that parts cannot run
//! into each other.

use crate::operations::dispatch_commands::Channel;
use crate::operations::dispatch_commands::ChannelView;
use crate::operations::dispatch_commands::Command;
use crate::operations::dispatch_commands::CommandView;
use crate::operations::dispatch_commands::Input;
use crate::operations::dispatch_commands::InputView;
use crate::headers::normal_form;
use crate::headers::normalize_headers;
use crate::operations::dispatch_commands::command_views;
use crate::operations::dispatch_commands::lemma_header_views;
use vstd::prelude::*;
use vstd::string::StringSliceAdditionalSpecFns;
use vstd::utf8::encode_utf8;

verus! {

/// The state a hash starts from.
pub const FNV_OFFSET: u64 = 0xcbf29ce484222325;

/// The multiplier of each step.
pub const FNV_PRIME: u64 = 0x100000001b3;

/// One step of the hash on a whole word.
pub open spec fn mix_word(state: u64, word: u64) -> u64 {
    (state ^ word).wrapping_mul(FNV_PRIME)
}

/// One step of the hash on a byte.
pub open spec fn mix(state: u64, byte: u8) -> u64 {
    mix_word(state, byte as u64)
}

/// The hash state after these bytes.
pub open spec fn mix_bytes(state: u64, bytes: Seq<u8>) -> u64
    decreases bytes.len(),
{
    if bytes.len() == 0 {
        state
    } else {
        mix(mix_bytes(state, bytes.drop_last()), bytes.last())
    }
}

/// The hash state after a number.
pub open spec fn mix_number(state: u64, n: usize) -> u64 {
    mix_word(state, n as u64)
}

/// The hash state after a truth value.
pub open spec fn mix_flag(state: u64, flag: bool) -> u64 {
    mix(
        state,
        if flag {
            1u8
        } else {
            0u8
        },
    )
}

/// The hash state after a text: its length in bytes, then its bytes in
/// UTF-8.
pub open spec fn mix_text(state: u64, text: Seq<char>) -> u64 {
    mix_bytes(mix_number(state, encode_utf8(text).len() as usize), encode_utf8(text))
}

/// The hash state after a list of headers: for each, its name and value.
pub open spec fn mix_headers(state: u64, headers: Seq<(Seq<char>, Seq<char>)>) -> u64
    decreases headers.len(),
{
    if headers.len() == 0 {
        state
    } else {
        mix_text(
            mix_text(mix_headers(state, headers.drop_last()), headers.last().0),
            headers.last().1,
        )
    }
}

/// The hash state after a channel: a marker for its kind, then its fields.
/// Headers go in by their normal form, so that channels whose headers say
/// the same hash the same, in whatever order the headers are held.
pub open spec fn mix_channel(state: u64, channel: ChannelView) -> u64 {
    match channel {
        ChannelView::HTTP { endpoint, additional_headers } => {
            let named = mix_text(mix(state, 1), endpoint);
            match additional_headers {
                Some(headers) => mix_headers(
                    mix_number(mix(named, 1), normal_form(headers).len() as usize),
                    normal_form(headers),
                ),
                None => mix(named, 0),
            }
        },
        ChannelView::SQS { queue_url } => mix_text(mix(state, 2), queue_url),
        ChannelView::SNS { target_arn } => mix_text(mix(state, 3), target_arn),
    }
}

/// The hash state after an optional channel.
pub open spec fn mix_optional_channel(state: u64, channel: Option<ChannelView>) -> u64 {
    match channel {
        Some(channel) => mix_channel(mix(state, 1), channel),
        None => mix(state, 0),
    }
}

/// The hash state after a command.
pub open spec fn mix_command(state: u64, command: CommandView) -> u64 {
    mix_flag(
        mix_optional_channel(
            mix_optional_channel(
                mix_number(mix_text(mix_text(state, command.name), command.data), command.max_retries),
                command.command_available_notification,
            ),
            command.command_progress_notification,
        ),
        command.success_required,
    )
}

/// The hash state after a list of commands, in order.
pub open spec fn mix_commands(state: u64, commands: Seq<CommandView>) -> u64
    decreases commands.len(),
{
    if commands.len() == 0 {
        state
    } else {
        mix_command(mix_commands(state, commands.drop_last()), commands.last())
    }
}

/// The fingerprint of a `DispatchCommands` request: the hash over the
/// operation's name, the caller, the target, the commands with their
/// number, the nonce and the completion channel.
pub open spec fn dispatch_fingerprint(caller: Seq<char>, input: InputView) -> u64 {
    mix_optional_channel(
        mix_text(
            mix_commands(
                mix_number(
                    mix_text(
                        mix_text(mix_text(FNV_OFFSET, "DispatchCommands"@), caller),
                        input.target_name,
                    ),
                    input.commands.len() as usize,
                ),
                input.commands,
            ),
            input.nonce,
        ),
        input.batch_complete_notification,
    )
}

fn feed_word(state: u64, word: u64) -> (r: u64)
    ensures
        r == mix_word(state, word),
{
    (state ^ word).wrapping_mul(FNV_PRIME)
}

fn feed_byte(state: u64, byte: u8) -> (r: u64)
    ensures
        r == mix(state, byte),
{
    feed_word(state, byte as u64)
}

fn feed_number(state: u64, n: usize) -> (r: u64)
    ensures
        r == mix_number(state, n),
{
    feed_word(state, n as u64)
}

fn feed_flag(state: u64, flag: bool) -> (r: u64)
    ensures
        r == mix_flag(state, flag),
{
    feed_byte(
        state,
        if flag {
            1
        } else {
            0
        },
    )
}

fn feed_text(state: u64, text: &str) -> (r: u64)
    ensures
        r == mix_text(state, text@),
{
    let bytes = text.as_bytes();
    let mut r = feed_number(state, bytes.len());
    let mut i: usize = 0;
    while i < bytes.len()
        invariant
            i <= bytes.len(),
            bytes@ == encode_utf8(text@),
            r == mix_bytes(
                mix_number(state, encode_utf8(text@).len() as usize),
                bytes@.subrange(0, i as int),
            ),
        decreases bytes.len() - i,
    {
        assert(bytes@.subrange(0, i + 1).drop_last() =~= bytes@.subrange(0, i as int));
        r = feed_byte(r, bytes[i]);
        i = i + 1;
    }
    assert(bytes@.subrange(0, i as int) =~= bytes@);
    r
}

fn feed_headers(state: u64, headers: &Vec<(String, String)>) -> (r: u64)
    ensures
        r == mix_headers(state, headers.deep_view()),
{
    let ghost views = headers.deep_view();
    let mut r = state;
    let mut i: usize = 0;
    while i < headers.len()
        invariant
            i <= headers.len(),
            views == headers.deep_view(),
            r == mix_headers(state, views.subrange(0, i as int)),
        decreases headers.len() - i,
    {
        assert(views.subrange(0, i + 1).drop_last() =~= views.subrange(0, i as int));
        assert(views.subrange(0, i + 1).last() == (headers@[i as int].0@, headers@[i as int].1@));
        let pair = &headers[i];
        r = feed_text(r, pair.0.as_str());
        r = feed_text(r, pair.1.as_str());
        i = i + 1;
    }
    assert(views.subrange(0, i as int) =~= views);
    r
}

fn feed_channel(state: u64, channel: &Channel) -> (r: u64)
    ensures
        r == mix_channel(state, channel@),
{
    match channel {
        Channel::HTTP { endpoint, additional_headers } => {
            let named = feed_text(feed_byte(state, 1), endpoint.as_str());
            match additional_headers {
                Some(headers) => {
                    let normal = normalize_headers(headers);
                    proof {
                        lemma_header_views(*headers);
                        lemma_header_views(normal);
                    }
                    feed_headers(feed_number(feed_byte(named, 1), normal.len()), &normal)
                },
                None => feed_byte(named, 0),
            }
        },
        Channel::SQS { queue_url } => feed_text(feed_byte(state, 2), queue_url.as_str()),
        Channel::SNS { target_arn } => feed_text(feed_byte(state, 3), target_arn.as_str()),
    }
}

fn feed_optional_channel(state: u64, channel: &Option<Channel>) -> (r: u64)
    ensures
        r == mix_optional_channel(
            state,
            crate::operations::dispatch_commands::channel_view(*channel),
        ),
{
    match channel {
        Some(channel) => feed_channel(feed_byte(state, 1), channel),
        None => feed_byte(state, 0),
    }
}

fn feed_command(state: u64, command: &Command) -> (r: u64)
    ensures
        r == mix_command(state, command@),
{
    let r = feed_text(state, command.name.as_str());
    let r = feed_text(r, command.data.as_str());
    let r = feed_number(r, command.max_retries);
    let r = feed_optional_channel(r, &command.command_available_notification);
    let r = feed_optional_channel(r, &command.command_progress_notification);
    feed_flag(r, command.success_required)
}

fn feed_commands(state: u64, commands: &Vec<Command>) -> (r: u64)
    ensures
        r == mix_commands(state, command_views(commands@)),
{
    let ghost views = command_views(commands@);
    let mut r = state;
    let mut i: usize = 0;
    while i < commands.len()
        invariant
            i <= commands.len(),
            views == command_views(commands@),
            r == mix_commands(state, views.subrange(0, i as int)),
        decreases commands.len() - i,
    {
        assert(views.subrange(0, i + 1).drop_last() =~= views.subrange(0, i as int));
        assert(views.subrange(0, i + 1).last() == commands@[i as int]@);
        r = feed_command(r, &commands[i]);
        i = i + 1;
    }
    assert(views.subrange(0, i as int) =~= views);
    r
}

/// Computes the fingerprint of a `DispatchCommands` request of `caller`.
pub fn fingerprint_dispatch(caller: &str, input: &Input) -> (f: u64)
    ensures
        f == dispatch_fingerprint(caller@, input@),
{
    let r = feed_text(FNV_OFFSET, "DispatchCommands");
    let r = feed_text(r, caller);
    let r = feed_text(r, input.target_name.as_str());
    let r = feed_number(r, input.commands.len());
    let r = feed_commands(r, &input.commands);
    let r = feed_text(r, input.nonce.as_str());
    feed_optional_channel(r, &input.batch_complete_notification)
}

} // verus!
