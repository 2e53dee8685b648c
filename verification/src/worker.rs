//! The queue in front of the one worker that owns the engine.

use vstd::prelude::*;

use crate::error::{
    invalid_input, malformed, outcome_of, refusal, Refusal, StorageResult, StoreError,
    StoreErrorKind,
};

verus! {

/// What is known of the worker on this side of its queue.
#[derive(Debug, PartialEq, Eq)]
pub struct StoreQueue {
    /// The command to end is in the queue; nothing is sent behind it.
    pub is_closing: bool,
    /// Nobody has waited for the end of the worker yet.
    pub has_worker: bool,
}

/// What is to be done next to end the worker.
#[derive(Debug, PartialEq, Eq)]
pub enum ShutdownStep {
    /// Send the command to end.
    Send,
    /// Wait for the reply to it.
    AwaitReply,
    /// Wait for the end of the worker; what comes of that is the outcome.
    Join,
    /// Wait for the end of the worker; the outcome is this error.
    JoinAndFail(StoreError),
    /// The outcome is this error.
    Fail(StoreError),
}

/// The worker cannot be reached.
pub open spec fn unreachable_worker() -> Refusal {
    refusal(StoreErrorKind::Unavailable, "runtime storage worker is unavailable"@)
}

/// The error for a worker that cannot be reached.
pub fn worker_unavailable() -> (error: StoreError)
    ensures
        error@ == unreachable_worker(),
{
    StoreError::new(StoreErrorKind::Unavailable, "runtime storage worker is unavailable")
}

/// What comes of a request: what the worker replied, if it replied at all.
pub fn reply_of<T>(reply: Option<StorageResult<T>>) -> (result: StorageResult<T>)
    ensures
        match reply {
            Some(reply) => result == reply,
            None => result is Err && result->Err_0@ == unreachable_worker(),
        },
{
    match reply {
        Some(reply) => reply,
        None => Err(worker_unavailable()),
    }
}

/// What comes of something that is done on the worker's account.
pub fn done_or_unavailable(done: bool) -> (result: StorageResult<()>)
    ensures
        outcome_of(result) == if done {
            Ok::<(), Refusal>(())
        } else {
            Err(unreachable_worker())
        },
{
    if done {
        Ok(())
    } else {
        Err(worker_unavailable())
    }
}

/// Whether a command may be sent.
pub open spec fn admission(queue: StoreQueue) -> Result<(), Refusal> {
    if queue.is_closing {
        Err(unreachable_worker())
    } else {
        Ok(())
    }
}

/// What ending the worker starts with.
pub open spec fn opening_step(queue: StoreQueue) -> ShutdownStep {
    if queue.is_closing {
        ShutdownStep::Join
    } else {
        ShutdownStep::Send
    }
}

/// The queue once the command to end was sent, or could not be.
pub open spec fn after_sending(queue: StoreQueue, delivered: bool) -> StoreQueue {
    StoreQueue { is_closing: delivered || queue.is_closing, ..queue }
}

/// The queue once somebody waits for the end of the worker.
pub open spec fn after_taking(queue: StoreQueue) -> StoreQueue {
    StoreQueue { has_worker: false, ..queue }
}

/// What follows once the command to end was sent, or could not be.
pub open spec fn follows_sending(delivered: bool, step: ShutdownStep) -> bool {
    if delivered {
        step is AwaitReply
    } else {
        step is JoinAndFail && step->JoinAndFail_0@ == unreachable_worker()
    }
}

/// What follows the reply to the command to end, or its staying away.
pub open spec fn follows_reply(
    queue: StoreQueue,
    reply: Option<StorageResult<()>>,
    step: ShutdownStep,
) -> bool {
    match reply {
        Some(Ok(_)) => step is Join,
        Some(Err(error)) => step == ShutdownStep::Fail(error),
        None => if queue.is_closing {
            step is Join
        } else {
            step is Fail && step->Fail_0@ == unreachable_worker()
        },
    }
}

/// A command as the worker finds it in its queue.
#[derive(Clone, Copy, Debug, PartialEq, Eq, Structural)]
pub enum QueuedCommand {
    /// Something to be done with the engine.
    Work,
    /// The command to end.
    End,
}

/// What the worker does with what it received.
#[derive(Clone, Copy, Debug, PartialEq, Eq, Structural)]
pub enum WorkerStep {
    /// Carry the command out, and receive the next one.
    CarryOut,
    /// Reply, and end.
    ReplyAndEnd,
    /// End: nobody is left to send a command.
    End,
}

/// What the worker does with what it received.
pub open spec fn step_of_worker(received: Option<QueuedCommand>) -> WorkerStep {
    match received {
        Some(QueuedCommand::Work) => WorkerStep::CarryOut,
        Some(QueuedCommand::End) => WorkerStep::ReplyAndEnd,
        None => WorkerStep::End,
    }
}

/// What the worker does with what it received.
pub fn worker_step(received: Option<QueuedCommand>) -> (step: WorkerStep)
    ensures
        step == step_of_worker(received),
{
    match received {
        Some(QueuedCommand::Work) => WorkerStep::CarryOut,
        Some(QueuedCommand::End) => WorkerStep::ReplyAndEnd,
        None => WorkerStep::End,
    }
}

/// What comes of waiting for the end of the worker. `taken` says that it was waited for here, and
/// `ended` that it ended as it should.
pub open spec fn joining(taken: bool, ended: bool) -> Result<(), Refusal> {
    if !taken || ended {
        Ok(())
    } else {
        Err(unreachable_worker())
    }
}

/// What comes of waiting for the end of the worker.
pub fn joined_worker(taken: bool, ended: bool) -> (result: StorageResult<()>)
    ensures
        outcome_of(result) == joining(taken, ended),
{
    done_or_unavailable(!taken || ended)
}

/// What comes of ending the worker, by the last step and by what came of waiting for its end.
pub open spec fn ending(step: ShutdownStep, joined: Result<(), Refusal>) -> Result<(), Refusal> {
    match step {
        ShutdownStep::Join => joined,
        ShutdownStep::JoinAndFail(error) => Err(error@),
        ShutdownStep::Fail(error) => Err(error@),
        _ => Err(unreachable_worker()),
    }
}

/// What comes of ending the worker.
pub fn shutdown_result(step: ShutdownStep, joined: StorageResult<()>) -> (result: StorageResult<()>)
    ensures
        outcome_of(result) == ending(step, outcome_of(joined)),
{
    match step {
        ShutdownStep::Join => joined,
        ShutdownStep::JoinAndFail(error) => Err(error),
        ShutdownStep::Fail(error) => Err(error),
        _ => Err(worker_unavailable()),
    }
}

impl StoreQueue {
    /// Whether a queue can be made that holds `capacity` commands.
    pub fn check_capacity(capacity: usize) -> (result: StorageResult<()>)
        ensures
            outcome_of(result) == if capacity == 0 {
                Err(malformed("runtime storage queue capacity must be greater than zero"@))
            } else {
                Ok::<(), Refusal>(())
            },
    {
        if capacity == 0 {
            return Err(invalid_input("runtime storage queue capacity must be greater than zero"));
        }
        Ok(())
    }

    /// The queue in front of a worker that said whether it is ready.
    pub fn open(ready: Option<StorageResult<()>>) -> (result: StorageResult<StoreQueue>)
        ensures
            match ready {
                Some(Ok(_)) => result is Ok && result->Ok_0 == (StoreQueue {
                    is_closing: false,
                    has_worker: true,
                }),
                Some(Err(error)) => result is Err && result->Err_0 == error,
                None => result is Err && result->Err_0@ == unreachable_worker(),
            },
    {
        match reply_of(ready) {
            Ok(()) => Ok(StoreQueue { is_closing: false, has_worker: true }),
            Err(error) => Err(error),
        }
    }

    /// Whether a command may be sent.
    pub fn enqueue(&self) -> (result: StorageResult<()>)
        ensures
            outcome_of(result) == admission(*self),
    {
        done_or_unavailable(!self.is_closing)
    }

    /// What ending the worker starts with.
    pub fn begin_shutdown(&self) -> (step: ShutdownStep)
        ensures
            step == opening_step(*self),
    {
        if self.is_closing {
            ShutdownStep::Join
        } else {
            ShutdownStep::Send
        }
    }

    /// The command to end was sent, or could not be. Only once it is in the queue is the queue
    /// closed: a call that was given up before can be made again.
    pub fn shutdown_sent(&mut self, delivered: bool) -> (step: ShutdownStep)
        ensures
            *final(self) == after_sending(*old(self), delivered),
            follows_sending(delivered, step),
    {
        if delivered {
            self.is_closing = true;
            ShutdownStep::AwaitReply
        } else {
            ShutdownStep::JoinAndFail(worker_unavailable())
        }
    }

    /// The worker replied to the command to end, or will not any more.
    pub fn shutdown_replied(&self, reply: Option<StorageResult<()>>) -> (step: ShutdownStep)
        ensures
            follows_reply(*self, reply, step),
    {
        match reply {
            Some(Ok(())) => ShutdownStep::Join,
            Some(Err(error)) => ShutdownStep::Fail(error),
            None => if self.is_closing {
                ShutdownStep::Join
            } else {
                ShutdownStep::Fail(worker_unavailable())
            },
        }
    }

    /// Whether there is a worker to wait for. It is waited for once.
    pub fn take_worker(&mut self) -> (taken: bool)
        ensures
            taken == old(self).has_worker,
            *final(self) == after_taking(*old(self)),
    {
        let taken = self.has_worker;
        self.has_worker = false;
        taken
    }
}

} // verus!
