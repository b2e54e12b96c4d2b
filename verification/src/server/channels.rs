//! Channels that one process signals and others wait for.

use vstd::prelude::*;
use vstd::string::*;
use vstd::utf8::*;

use crate::command;
use crate::command::Command;
use crate::error;
use crate::error::Error;
use crate::error::ErrorKind;
use crate::server::Server;
use crate::server::Timeout;

verus! {

/// What came of waiting on a `wait-for` channel.
///
/// Running out of time is an outcome rather than an error, because a caller
/// retries "nothing signalled it" and "tmux could not be reached" differently.
#[derive(Clone, Copy, Debug, PartialEq, Eq, Structural, Hash)]
pub enum ChannelWait {
    /// Something signalled the channel, or a signal was already waiting.
    Signalled,
    /// The time ran out with the channel unsignalled.
    TimedOut,
}

/// Why an operation that holds a channel failed.
pub enum ScopeError<T, E> {
    /// The channel could not be locked, and nothing was done.
    Creation(Error),
    /// The operation failed.
    Operation(E),
    /// The operation succeeded, and the channel could not be unlocked.
    Cleanup { outcome: T, failure: Error },
}

/// A command on a channel. The channel stands behind `--`, so that its name is
/// never read as a flag.
pub open spec fn channel_command(flag: Option<Seq<char>>, channel: Seq<char>) -> command::CommandV {
    let start = command::called("wait-for"@);
    (match flag {
        Some(flag) => start.with_text(flag),
        None => start,
    }).with_text("--"@).with_text(channel)
}

impl Server {
    /// The command that signals a channel, releasing anything waiting on it.
    pub fn signal_channel(&self, channel: &str) -> (command: Command)
        ensures
            command@ == channel_command(Some("-S"@), channel@),
    {
        Command::new("wait-for").text("-S").text("--").text(channel)
    }

    /// The command that locks a channel, blocking later lock attempts on it.
    pub fn lock_channel(&self, channel: &str) -> (command: Command)
        ensures
            command@ == channel_command(Some("-L"@), channel@),
    {
        Command::new("wait-for").text("-L").text("--").text(channel)
    }

    /// The command that unlocks a channel.
    pub fn unlock_channel(&self, channel: &str) -> (command: Command)
        ensures
            command@ == channel_command(Some("-U"@), channel@),
    {
        Command::new("wait-for").text("-U").text("--").text(channel)
    }

    /// The command that waits for a channel, and how long to wait for it. The
    /// wait is capped at the server's timeout, because a dispatch is bounded.
    pub fn wait_for_channel(&self, channel: &str, within: Timeout) -> (request: (Command, Timeout))
        ensures
            request.0@ == channel_command(None, channel@),
            request.1 == if self@.timeout.shorter(within) {
                self@.timeout
            } else {
                within
            },
            request.1 == within || request.1 == self@.timeout,
            !within.shorter(request.1),
            !self@.timeout.shorter(request.1),
    {
        (Command::new("wait-for").text("--").text(channel), within.min(self.default_timeout()))
    }

    /// Settle an operation that held a channel. Where the operation failed, its
    /// failure is the one that counts.
    ///
    /// # Errors
    ///
    /// [`ScopeError::Operation`] where the operation failed, and
    /// [`ScopeError::Cleanup`] where only the unlocking did.
    pub fn settle_lock<T, E>(outcome: Result<T, E>, unlocked: Result<(), Error>) -> (settled: Result<
        T,
        ScopeError<T, E>,
    >)
        ensures
            settled == match (outcome, unlocked) {
                (Ok(outcome), Ok(())) => Ok(outcome),
                (Ok(outcome), Err(failure)) => Err(ScopeError::Cleanup { outcome, failure }),
                (Err(failure), _) => Err(ScopeError::Operation(failure)),
            },
    {
        match (outcome, unlocked) {
            (Ok(outcome), Ok(())) => Ok(outcome),
            (Ok(outcome), Err(failure)) => Err(ScopeError::Cleanup { outcome, failure }),
            (Err(failure), _) => Err(ScopeError::Operation(failure)),
        }
    }

    /// Settle a wait. A wait that outlasted its budget has no answer, and an
    /// answer that a deadline was reached is the same event.
    ///
    /// # Errors
    ///
    /// Any other failure.
    pub fn settle_wait(waited: Option<Result<(), Error>>) -> (outcome: Result<ChannelWait, Error>)
        ensures
            match waited {
                None => outcome == Ok::<ChannelWait, Error>(ChannelWait::TimedOut),
                Some(Ok(())) => outcome == Ok::<ChannelWait, Error>(ChannelWait::Signalled),
                Some(Err(failure)) => if error::kind_of(failure@) is Timeout {
                    outcome == Ok::<ChannelWait, Error>(ChannelWait::TimedOut)
                } else {
                    outcome == Err::<ChannelWait, Error>(failure)
                },
            },
    {
        match waited {
            None => Ok(ChannelWait::TimedOut),
            Some(Ok(())) => Ok(ChannelWait::Signalled),
            Some(Err(failure)) => match failure.kind() {
                ErrorKind::Timeout => Ok(ChannelWait::TimedOut),
                _ => Err(failure),
            },
        }
    }
}

/// The name of a channel is the last word of a command on it, and two dashes
/// stand in front of it, whatever the name is. In front of those stands the
/// flag, if there is one, and nothing else.
pub proof fn law_channels_stand_behind_dashes(flag: Option<Seq<char>>, channel: Seq<char>)
    ensures
        ({
            let command = channel_command(flag, channel);
            let held = command.arguments;
            let count = held.len() as int;
            &&& command.name == "wait-for"@
            &&& count == if flag is Some { 3int } else { 2 }
            &&& held[count - 1].bytes == encode_utf8(channel)
            &&& held[count - 2].bytes == encode_utf8("--"@)
            &&& flag matches Some(flag) ==> held[0].bytes == encode_utf8(flag)
        }),
{
}

} // verus!
