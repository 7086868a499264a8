//! The handle by which a caller starts and stops the execution of a script.

use crate::error::{Error, RunningError};
use vstd::prelude::*;

verus! {

/// The lifecycle of one execution at a time.
///
/// `Tx` is the sending end of the channel on which the running task
/// receives its messages. The handle holds it while the task runs, and
/// gives it up when it asks the task to stop.
pub struct Execution<Tx> {
    command_sender: Option<Tx>,
}

impl<Tx> Execution<Tx> {
    /// The channel of the running task, if one is running.
    pub closed spec fn channel(&self) -> Option<Tx> {
        self.command_sender
    }

    /// A task is running, as far as the handle knows.
    pub open spec fn is_running(&self) -> bool {
        self.channel() is Some
    }

    /// `after` and `result` are what a request to start with `channel`
    /// makes of this handle: refused while a task is running, with the
    /// handle left as it is; accepted otherwise, and `channel` is then the
    /// handle's.
    pub open spec fn starts(&self, channel: Tx, after: &Self, result: Result<(), Error>) -> bool {
        if self.is_running() {
            &&& result == Err::<(), Error>(Error::RunningError(RunningError::AlreadyRunning))
            &&& after.channel() == self.channel()
        } else {
            &&& result is Ok
            &&& after.channel() == Some(channel)
        }
    }

    /// `after` and `result` are what a request to stop makes of this
    /// handle: the channel on which to tell the task, if one is running,
    /// and a refusal otherwise. Either way the handle holds no channel
    /// afterwards.
    pub open spec fn stops(&self, after: &Self, result: Result<Tx, Error>) -> bool {
        &&& !after.is_running()
        &&& match self.channel() {
            Some(channel) => result == Ok::<Tx, Error>(channel),
            None => result == Err::<Tx, Error>(Error::RunningError(RunningError::NotRunning)),
        }
    }

    /// A handle on which nothing runs.
    pub fn new() -> (handle: Self)
        ensures
            !handle.is_running(),
    {
        Execution { command_sender: None }
    }

    /// Whether a task is running, as far as the handle knows.
    pub fn running(&self) -> (running: bool)
        ensures
            running == self.is_running(),
    {
        self.command_sender.is_some()
    }

    /// Asks to start an execution whose task listens on `channel`.
    ///
    /// On `Ok`, the caller starts the task. On `Err`, a task is running
    /// already: nothing must be started, and the running task is not
    /// disturbed.
    pub fn start(&mut self, channel: Tx) -> (result: Result<(), Error>)
        ensures
            old(self).starts(channel, final(self), result),
    {
        if self.command_sender.is_some() {
            return Err(Error::RunningError(RunningError::AlreadyRunning));
        }
        self.command_sender = Some(channel);
        Ok(())
    }

    /// Asks to stop the running execution.
    ///
    /// On `Ok`, the caller sends the stop request on the channel that is
    /// returned; the task may still be finishing when this returns. The
    /// handle forgets the task at once: a second request, made before the
    /// task has stopped, is refused like any request made while nothing
    /// runs.
    pub fn stop(&mut self) -> (result: Result<Tx, Error>)
        ensures
            old(self).stops(final(self), result),
    {
        match self.command_sender.take() {
            Some(channel) => Ok(channel),
            None => Err(Error::RunningError(RunningError::NotRunning)),
        }
    }

    /// A start requested while an execution runs is refused, and the
    /// execution that runs keeps its channel.
    pub proof fn lemma_second_start_is_refused(
        idle: Self,
        first: Tx,
        running: Self,
        first_result: Result<(), Error>,
        second: Tx,
        after: Self,
        second_result: Result<(), Error>,
    )
        requires
            !idle.is_running(),
            idle.starts(first, &running, first_result),
            running.starts(second, &after, second_result),
        ensures
            first_result is Ok,
            second_result == Err::<(), Error>(Error::RunningError(RunningError::AlreadyRunning)),
            after.channel() == Some(first),
    {
    }

    /// A stop requested on a handle on which nothing was started is
    /// refused.
    pub proof fn lemma_stop_without_start_is_refused(
        idle: Self,
        after: Self,
        result: Result<Tx, Error>,
    )
        requires
            !idle.is_running(),
            idle.stops(&after, result),
        ensures
            result == Err::<Tx, Error>(Error::RunningError(RunningError::NotRunning)),
            !after.is_running(),
    {
    }

    /// Of two stops in a row, the second is refused.
    pub proof fn lemma_second_stop_is_refused(
        before: Self,
        between: Self,
        first_result: Result<Tx, Error>,
        after: Self,
        second_result: Result<Tx, Error>,
    )
        requires
            before.stops(&between, first_result),
            between.stops(&after, second_result),
        ensures
            second_result == Err::<Tx, Error>(Error::RunningError(RunningError::NotRunning)),
    {
    }
}

} // verus!
