//! What becomes of commands in the queue, and of the worker that ends.

use vstd::prelude::*;

use crate::error::{Refusal, StorageResult};
use crate::worker::{
    admission, after_sending, after_taking, ending, follows_reply, follows_sending, joining,
    opening_step, step_of_worker, unreachable_worker, QueuedCommand, ShutdownStep, StoreQueue,
    WorkerStep,
};

verus! {

/// What callers do with the queue. `delivered` says whether what is sent gets into the queue.
pub enum QueueEvent {
    /// Somebody has a command for the worker.
    Request { delivered: bool },
    /// Somebody ends the worker.
    Shutdown { delivered: bool },
}

/// What is in the queue after an event that was not there before.
pub open spec fn entered(queue: StoreQueue, event: QueueEvent) -> Seq<QueuedCommand> {
    match event {
        QueueEvent::Request { delivered } => if admission(queue) is Ok && delivered {
            seq![QueuedCommand::Work]
        } else {
            Seq::empty()
        },
        QueueEvent::Shutdown { delivered } => if opening_step(queue) is Send && delivered {
            seq![QueuedCommand::End]
        } else {
            Seq::empty()
        },
    }
}

/// The queue after an event.
pub open spec fn queue_after(queue: StoreQueue, event: QueueEvent) -> StoreQueue {
    match event {
        QueueEvent::Request { delivered } => queue,
        QueueEvent::Shutdown { delivered } => if opening_step(queue) is Send {
            after_sending(queue, delivered)
        } else {
            queue
        },
    }
}

/// The queue after events, one behind the other.
pub open spec fn queue_through(queue: StoreQueue, events: Seq<QueueEvent>) -> StoreQueue
    decreases events.len(),
{
    if events.len() == 0 {
        queue
    } else {
        queue_after(queue_through(queue, events.drop_last()), events.last())
    }
}

/// All that got into the queue, in the order in which it did.
pub open spec fn contents(queue: StoreQueue, events: Seq<QueueEvent>) -> Seq<QueuedCommand>
    decreases events.len(),
{
    if events.len() == 0 {
        Seq::empty()
    } else {
        contents(queue, events.drop_last()) + entered(
            queue_through(queue, events.drop_last()),
            events.last(),
        )
    }
}

/// How many commands a worker carries out that receives these, one behind the other.
pub open spec fn carried_out(commands: Seq<QueuedCommand>) -> nat
    decreases commands.len(),
{
    if commands.len() == 0 {
        0
    } else {
        match step_of_worker(Some(commands[0])) {
            WorkerStep::CarryOut => 1 + carried_out(commands.drop_first()),
            _ => 0,
        }
    }
}

/// A worker that receives these commands, one behind the other, ends.
pub open spec fn ends(commands: Seq<QueuedCommand>) -> bool
    decreases commands.len(),
{
    if commands.len() == 0 {
        false
    } else {
        match step_of_worker(Some(commands[0])) {
            WorkerStep::CarryOut => ends(commands.drop_first()),
            _ => true,
        }
    }
}

/// `n` commands to be carried out.
pub open spec fn works(n: nat) -> Seq<QueuedCommand> {
    Seq::new(n, |i: int| QueuedCommand::Work)
}

proof fn works_are_carried_out(n: nat, tail: Seq<QueuedCommand>)
    requires
        tail.len() == 0 || tail == seq![QueuedCommand::End],
    ensures
        carried_out(works(n) + tail) == n,
        ends(works(n) + tail) == (tail.len() > 0),
    decreases n,
{
    let all = works(n) + tail;
    if n > 0 {
        assert(all[0] == QueuedCommand::Work);
        assert(all.drop_first() =~= works((n - 1) as nat) + tail);
        works_are_carried_out((n - 1) as nat, tail);
    } else {
        assert(all =~= tail);
        if tail.len() > 0 {
            assert(all[0] == QueuedCommand::End);
        }
    }
}

proof fn contents_are_works(queue: StoreQueue, events: Seq<QueueEvent>) -> (n: nat)
    requires
        !queue.is_closing,
    ensures
        contents(queue, events) == works(n) + (if queue_through(queue, events).is_closing {
            seq![QueuedCommand::End]
        } else {
            Seq::empty()
        }),
    decreases events.len(),
{
    if events.len() == 0 {
        assert(contents(queue, events) =~= works(0) + Seq::<QueuedCommand>::empty());
        0
    } else {
        let earlier = events.drop_last();
        let n = contents_are_works(queue, earlier);
        let before = queue_through(queue, earlier);
        let added = entered(before, events.last());
        let found = contents(queue, events);
        if before.is_closing {
            assert(found =~= contents(queue, earlier));
            n
        } else if queue_through(queue, events).is_closing {
            assert(found =~= works(n) + seq![QueuedCommand::End]);
            n
        } else if added.len() > 0 {
            assert(found =~= works(n + 1) + Seq::<QueuedCommand>::empty());
            n + 1
        } else {
            assert(found =~= works(n) + Seq::<QueuedCommand>::empty());
            n
        }
    }
}

/// Whatever callers do, a worker that receives what got into its queue in the order in which it did
/// carries out every command but the one to end; and once somebody could send that one, it ends.
pub proof fn worker_carries_out_all_and_ends(queue: StoreQueue, events: Seq<QueueEvent>)
    requires
        !queue.is_closing,
    ensures
        ({
            let commands = contents(queue, events);
            let closed = queue_through(queue, events).is_closing;
            &&& ends(commands) == closed
            &&& carried_out(commands) == if closed {
                commands.len() - 1
            } else {
                commands.len() as int
            }
            &&& forall|i: int|
                0 <= i < carried_out(commands) ==> #[trigger] commands[i] is Work
        }),
{
    let n = contents_are_works(queue, events);
    let closed = queue_through(queue, events).is_closing;
    let tail = if closed {
        seq![QueuedCommand::End]
    } else {
        Seq::<QueuedCommand>::empty()
    };
    works_are_carried_out(n, tail);
}

/// Nothing gets into a queue that is closed, and it stays closed; every request is refused, as for
/// a worker that cannot be reached, and whoever ends the worker only waits for its end.
pub proof fn closed_queue_stays_closed(queue: StoreQueue, events: Seq<QueueEvent>)
    requires
        queue.is_closing,
    ensures
        contents(queue, events).len() == 0,
        queue_through(queue, events) == queue,
        admission(queue_through(queue, events)) == Err::<(), _>(unreachable_worker()),
        opening_step(queue_through(queue, events)) is Join,
    decreases events.len(),
{
    if events.len() > 0 {
        closed_queue_stays_closed(queue, events.drop_last());
    }
}

/// Once the command to end is in the queue nothing is sent behind it, whoever else ends the worker
/// only waits for its end, and it is waited for once.
pub proof fn worker_ends_once(queue: StoreQueue)
    ensures
        ({
            let closed = after_sending(queue, true);
            let joined = after_taking(closed);
            &&& admission(closed) == Err::<(), _>(unreachable_worker())
            &&& admission(joined) == Err::<(), _>(unreachable_worker())
            &&& opening_step(closed) is Join
            &&& opening_step(joined) is Join
            &&& !joined.has_worker
        }),
{
}

/// Where the command to end could not be sent the queue is as it was, and ending the worker can be
/// tried again.
pub proof fn failed_ending_can_be_repeated(queue: StoreQueue)
    ensures
        after_sending(queue, false) == queue,
        opening_step(after_sending(queue, false)) == opening_step(queue),
{
}

/// The last step of ending a worker: nothing is to be sent any more, or sending failed, or there is
/// a reply, or there will be none.
pub open spec fn is_last_step(
    queue: StoreQueue,
    delivered: bool,
    reply: Option<StorageResult<()>>,
    step: ShutdownStep,
) -> bool {
    if opening_step(queue) is Join {
        step is Join
    } else if !delivered {
        follows_sending(delivered, step)
    } else {
        follows_reply(after_sending(queue, delivered), reply, step)
    }
}

/// What comes of ending a worker. A live worker replies and ends: all is well, and it stays so for
/// whoever ends it again. A worker that broke down leaves no reply and does not end as it should, or
/// its queue takes nothing any more: whoever waits for it first is told that it cannot be reached.
pub proof fn worker_ends_as_told(
    queue: StoreQueue,
    delivered: bool,
    reply: Option<StorageResult<()>>,
    step: ShutdownStep,
    ended: bool,
)
    requires
        is_last_step(queue, delivered, reply, step),
    ensures
        ({
            let outcome = ending(step, joining(queue.has_worker, ended));
            &&& reply is Some && reply->0 is Ok && delivered && ended ==> outcome == Ok::<
                (),
                Refusal,
            >(())
            &&& queue.is_closing && !queue.has_worker ==> outcome == Ok::<(), Refusal>(())
            &&& !queue.is_closing && !delivered ==> outcome == Err::<(), _>(unreachable_worker())
            &&& !queue.is_closing && delivered && reply is None && queue.has_worker && !ended
                ==> outcome == Err::<(), _>(unreachable_worker())
        }),
{
}

} // verus!
