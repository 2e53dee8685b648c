//! How a tool exchange is begun, carried on and brought to an end.

use vstd::prelude::*;

use std::sync::Arc;

use crate::append_effect::{AppendPurpose, ConversationStorageTarget, StagedAppend};
use crate::conversation::RecordedMessage;
use crate::emptying_laws::{appending_session, exchanging_session};
use crate::engine::{is_child, is_run, StorageEngine};
use crate::error::Refusal;
use crate::exchange_recovery::{exchange_in_scope, exchange_keys, exchanges_in_turn};
use crate::message::{distinct, held, tool_calls, AssistantPart, ConversationMessage, ToolCall};
use crate::order::key_before;
use crate::recovery::{
    append_keys, appends, completes_in_turn, in_scope, AppendTable, CommittedBatch,
};
use crate::relations::{
    kept_is_filtered, leader_is_found, leads, run_at, run_is_found, task_at, task_is_found,
};
use crate::report_laws::was_started;
use crate::table::{first, kept, some_row};
use crate::text::text_before;
use crate::tool_exchange::{
    calls_of, conversation_target, exchange_batch, exchange_begun, exchange_completed,
    exchange_completion_refusal, exchange_purpose, exchange_refusal, exchanges, execution_started,
    ids_of, is_exchange, is_start, is_stray_start, loaded, pending_table, starts, CompletedExchange,
    ExecutionStart, NewExchange, PendingExchange, PendingTable, PendingTarget, ReadyExchange,
};

verus! {

/// The exchanges of the kind that a table holds.
pub open spec fn pending_in(engine: StorageEngine, table: PendingTable) -> Seq<
    Arc<PendingExchange>,
> {
    match table {
        PendingTable::Run => engine.pending_exchanges@,
        PendingTable::ChildTask => engine.child_pending_exchanges@,
    }
}

/// The row of a pending exchange.
pub open spec fn exchange_at(
    rows: Seq<Arc<PendingExchange>>,
    e: int,
    receipt_id: Seq<char>,
) -> bool {
    leads(rows, e, |row: Arc<PendingExchange>| held(row).receipt_id@ == receipt_id)
}

proof fn exchange_is_found(rows: Seq<Arc<PendingExchange>>, receipt_id: Seq<char>)
    ensures
        forall|e: int| #[trigger]
            exchange_at(rows, e, receipt_id) ==> first(rows, is_exchange(receipt_id)) == Some(e),
        first(rows, is_exchange(receipt_id)) is Some ==> exchange_at(
            rows,
            first(rows, is_exchange(receipt_id))->0,
            receipt_id,
        ),
        some_row(rows, is_exchange(receipt_id)) == (first(rows, is_exchange(receipt_id)) is Some),
{
    let plain = |row: Arc<PendingExchange>| held(row).receipt_id@ == receipt_id;
    leader_is_found(rows, is_exchange(receipt_id), plain);
    assert forall|e: int| #[trigger] exchange_at(rows, e, receipt_id) implies first(
        rows,
        is_exchange(receipt_id),
    ) == Some(e) by {
        assert(leads(rows, e, plain));
    }
}

/// A message makes a call.
pub open spec fn makes_call(message: ConversationMessage, call_id: Seq<char>) -> bool {
    match message {
        ConversationMessage::Assistant(answer) => exists|p: int|
            0 <= p < answer.parts@.len() && is_call(#[trigger] answer.parts@[p], call_id),
        _ => false,
    }
}

/// A part that is a call.
pub open spec fn is_call(part: AssistantPart, call_id: Seq<char>) -> bool {
    match part {
        AssistantPart::ToolCall(call) => call.id@ == call_id,
        _ => false,
    }
}

proof fn calls_are_the_parts_that_call(parts: Seq<AssistantPart>, call_id: Seq<char>)
    ensures
        (exists|i: int|
            0 <= i < tool_calls(parts).len() && (#[trigger] tool_calls(parts)[i]).id@ == call_id)
            <==> exists|p: int| 0 <= p < parts.len() && is_call(#[trigger] parts[p], call_id),
    decreases parts.len(),
{
    if parts.len() > 0 {
        let shorter = parts.drop_last();
        calls_are_the_parts_that_call(shorter, call_id);
        let earlier = tool_calls(shorter);
        let all = tool_calls(parts);
        assert(parts.last() == parts[parts.len() - 1]);
        if exists|i: int| 0 <= i < all.len() && (#[trigger] all[i]).id@ == call_id {
            let i = choose|i: int| 0 <= i < all.len() && (#[trigger] all[i]).id@ == call_id;
            if i < earlier.len() {
                assert(earlier[i].id@ == call_id);
                let p = choose|p: int| 0 <= p < shorter.len() && is_call(#[trigger] shorter[p], call_id);
                assert(is_call(parts[p], call_id));
            } else {
                assert(is_call(parts[parts.len() - 1], call_id));
            }
        }
        if exists|p: int| 0 <= p < parts.len() && is_call(#[trigger] parts[p], call_id) {
            let p = choose|p: int| 0 <= p < parts.len() && is_call(#[trigger] parts[p], call_id);
            if p < shorter.len() {
                assert(is_call(shorter[p], call_id));
                let i = choose|i: int| 0 <= i < earlier.len() && (#[trigger] earlier[i]).id@ == call_id;
                assert(all[i].id@ == call_id);
            } else {
                assert(all[earlier.len() as int].id@ == call_id);
            }
        }
    }
}

/// The identifiers of a message's calls are those that its parts have.
pub proof fn ids_are_those_of_the_calls(message: ConversationMessage, call_id: Seq<char>)
    ensures
        ids_of(message).contains(call_id) == makes_call(message, call_id),
{
    let ids = ids_of(message);
    let calls = calls_of(message);
    match message {
        ConversationMessage::Assistant(answer) => {
            calls_are_the_parts_that_call(answer.parts@, call_id);
            if ids.contains(call_id) {
                let i = ids.index_of(call_id);
                assert(tool_calls(answer.parts@)[i].id@ == call_id);
            }
            if makes_call(message, call_id) {
                let i = choose|i: int| 0 <= i < calls.len() && (#[trigger] calls[i]).id@ == call_id;
                assert(ids[i] == call_id);
            }
        },
        _ => {},
    }
}

/// What an exchange is for is under way: the run, or the task.
pub open spec fn is_under_way(engine: StorageEngine, target: PendingTarget) -> bool {
    match target {
        PendingTarget::Run { session_id, run_id } => exists|i: int| #[trigger]
            run_at(engine.runs@, i, session_id@, run_id@) && engine.runs@[i].status is Running,
        PendingTarget::ChildTask { session_id, child_task_id } => exists|t: int| #[trigger]
            task_at(engine.child_tasks@, t, session_id@, child_task_id@)
                && engine.child_tasks@[t].status is Running,
    }
}

/// The table that holds the exchanges of a target.
pub open spec fn is_table_of(table: PendingTable, target: PendingTarget) -> bool {
    (table is Run) == (target is Run)
}

/// An exchange is begun exactly where its message makes calls, no two under one identifier, its run
/// or task is running, and its receipt is new. It is then pending, behind the others, as it was
/// given, with no results. Nothing else changes.
pub proof fn exchanges_are_begun_while_running(
    before: StorageEngine,
    after: StorageEngine,
    new: NewExchange,
    outcome: Result<(), Refusal>,
    table: PendingTable,
    other: PendingTable,
)
    requires
        exchange_begun(before, after, new, outcome),
        is_table_of(table, new.target),
        other != table,
    ensures
        outcome is Err ==> after == before,
        outcome is Ok <==> {
            &&& calls_of(held(held(new.assistant).message)).len() > 0
            &&& forall|i: int, j: int|
                0 <= i < j < calls_of(held(held(new.assistant).message)).len() ==> (
                #[trigger] calls_of(held(held(new.assistant).message))[i]).id@ != (
                #[trigger] calls_of(held(held(new.assistant).message))[j]).id@
            &&& is_under_way(before, new.target)
            &&& forall|e: int|
                0 <= e < pending_in(before, table).len() ==> held(
                    #[trigger] pending_in(before, table)[e],
                ).receipt_id@ != new.receipt_id@
        },
        outcome is Ok ==> {
            &&& pending_in(after, other) == pending_in(before, other)
            &&& pending_in(after, table).len() == pending_in(before, table).len() + 1
            &&& pending_in(after, table).drop_last() == pending_in(before, table)
            &&& after == (StorageEngine {
                pending_exchanges: after.pending_exchanges,
                child_pending_exchanges: after.child_pending_exchanges,
                ..before
            })
            &&& {
                let row = held(pending_in(after, table).last());
                &&& row.receipt_id == new.receipt_id
                &&& row.target == new.target
                &&& row.assistant == new.assistant
                &&& row.ready is None
                &&& row.state is Begun
                &&& row.step == new.step
                &&& row.created_at_ms == new.created_at_ms
            }
        },
{
    let message = held(held(new.assistant).message);
    let calls = calls_of(message);
    let ids = ids_of(message);
    assert(table == pending_table(new.target));
    exchange_is_found(pending_in(before, table), new.receipt_id@);
    let rows = pending_in(before, table);
    if first(rows, is_exchange(new.receipt_id@)) is Some {
        let e = first(rows, is_exchange(new.receipt_id@))->0;
        assert(exchange_at(rows, e, new.receipt_id@));
        assert(held(rows[e]).receipt_id@ == new.receipt_id@);
    } else {
        assert forall|e: int| 0 <= e < rows.len() implies held(#[trigger] rows[e]).receipt_id@
            != new.receipt_id@ by {
            assert(!is_exchange(new.receipt_id@)(rows[e]));
        }
    }
    if distinct(ids) {
        assert forall|i: int, j: int| 0 <= i < j < calls.len() implies (#[trigger] calls[i]).id@ != (
        #[trigger] calls[j]).id@ by {
            assert(ids[i] != ids[j]);
        }
    }
    if forall|i: int, j: int|
        0 <= i < j < calls.len() ==> (#[trigger] calls[i]).id@ != (#[trigger] calls[j]).id@ {
        assert forall|i: int, j: int| 0 <= i < j < ids.len() implies #[trigger] ids[i]
            != #[trigger] ids[j] by {
            assert(calls[i].id@ != calls[j].id@);
        }
    }
    match new.target {
        PendingTarget::Run { session_id, run_id } => {
            run_is_found(before.runs@, session_id@, run_id@);
            if first(before.runs@, is_run(session_id@, run_id@)) is Some {
                assert(run_at(
                    before.runs@,
                    first(before.runs@, is_run(session_id@, run_id@))->0,
                    session_id@,
                    run_id@,
                ));
            }
        },
        PendingTarget::ChildTask { session_id, child_task_id } => {
            task_is_found(before.child_tasks@, session_id@, child_task_id@);
            if first(before.child_tasks@, is_child(session_id@, child_task_id@)) is Some {
                assert(task_at(
                    before.child_tasks@,
                    first(before.child_tasks@, is_child(session_id@, child_task_id@))->0,
                    session_id@,
                    child_task_id@,
                ));
            }
        },
    }
}

/// Two targets are one: the same run of the same session, or the same task of the same session.
pub open spec fn is_same_target(left: PendingTarget, right: PendingTarget) -> bool {
    match (left, right) {
        (
            PendingTarget::Run { session_id: a, run_id: b },
            PendingTarget::Run { session_id: c, run_id: d },
        ) => a@ == c@ && b@ == d@,
        (
            PendingTarget::ChildTask { session_id: a, child_task_id: b },
            PendingTarget::ChildTask { session_id: c, child_task_id: d },
        ) => a@ == c@ && b@ == d@,
        _ => false,
    }
}

/// The calls of an exchange that were started are calls of its message.
pub open spec fn starts_belong(engine: StorageEngine, table: PendingTable, row: PendingExchange) -> bool {
    match table {
        PendingTable::Run => forall|k: int|
            0 <= k < engine.pending_starts@.len() && engine.pending_starts@[k].receipt_id@
                == row.receipt_id@ ==> makes_call(
                held(held(row.assistant).message),
                (#[trigger] engine.pending_starts@[k]).call_id@,
            ),
        PendingTable::ChildTask => forall|k: int|
            0 <= k < engine.child_pending_starts@.len()
                && engine.child_pending_starts@[k].receipt_id@ == row.receipt_id@ ==> makes_call(
                held(held(row.assistant).message),
                (#[trigger] engine.child_pending_starts@[k]).call_id@,
            ),
    }
}

/// A pending exchange is read exactly where it is there and the calls that were started are its own.
pub proof fn pending_exchanges_are_read(
    engine: StorageEngine,
    receipt_id: Seq<char>,
    table: PendingTable,
)
    ensures
        loaded(engine, receipt_id, table) is Ok <==> exists|e: int|
            {
                &&& #[trigger] exchange_at(pending_in(engine, table), e, receipt_id)
                &&& starts_belong(engine, table, held(pending_in(engine, table)[e]))
            },
        loaded(engine, receipt_id, table) is Ok ==> forall|e: int| #[trigger]
            exchange_at(pending_in(engine, table), e, receipt_id) ==> loaded(
                engine,
                receipt_id,
                table,
            )->Ok_0 == held(pending_in(engine, table)[e]),
{
    let rows = pending_in(engine, table);
    exchange_is_found(rows, receipt_id);
    match first(rows, is_exchange(receipt_id)) {
        Some(e) => {
            assert(exchange_at(rows, e, receipt_id));
            let row = held(rows[e]);
            assert(row.receipt_id@ == receipt_id);
            let message = held(held(row.assistant).message);
            let stray = is_stray_start(receipt_id, ids_of(message));
            let begun = starts(engine, table);
            assert forall|k: int| 0 <= k < begun.len() implies stray(#[trigger] begun[k]) == (
            begun[k].receipt_id@ == receipt_id && !makes_call(message, begun[k].call_id@)) by {
                ids_are_those_of_the_calls(message, begun[k].call_id@);
            }
            if some_row(begun, stray) {
                let k = choose|k: int| 0 <= k < begun.len() && stray(#[trigger] begun[k]);
                assert(!makes_call(message, begun[k].call_id@));
                assert(!starts_belong(engine, table, row));
            } else {
                assert forall|k: int|
                    0 <= k < begun.len() && begun[k].receipt_id@ == receipt_id implies makes_call(
                    message,
                    (#[trigger] begun[k]).call_id@,
                ) by {
                    assert(!stray(begun[k]));
                }
                assert(starts_belong(engine, table, row));
            }
        },
        None => {},
    }
}

/// A call is started exactly where its exchange is pending without results, of the owner that says
/// so, and makes the call, which has not been started. The start is noted behind the others, with its
/// time. Nothing else changes.
pub proof fn calls_are_started_once_while_pending(
    before: StorageEngine,
    after: StorageEngine,
    start: ExecutionStart,
    table: PendingTable,
    other: PendingTable,
    outcome: Result<(), Refusal>,
)
    requires
        execution_started(before, after, start, table, outcome),
        other != table,
    ensures
        outcome is Err ==> after == before,
        outcome is Ok <==> exists|e: int|
            {
                let row = held(pending_in(before, table)[e]);
                &&& #[trigger] exchange_at(pending_in(before, table), e, start.receipt_id@)
                &&& starts_belong(before, table, row)
                &&& is_same_target(row.target, start.target)
                &&& row.state is Begun
                &&& makes_call(held(held(row.assistant).message), start.call_id@)
                &&& !was_started(before, table, start.receipt_id@, start.call_id@)
            },
        outcome is Ok ==> {
            &&& after == (StorageEngine {
                pending_starts: after.pending_starts,
                child_pending_starts: after.child_pending_starts,
                ..before
            })
            &&& starts(after, other) == starts(before, other)
            &&& starts(after, table).len() == starts(before, table).len() + 1
            &&& starts(after, table).drop_last() == starts(before, table)
            &&& starts(after, table).last().receipt_id == start.receipt_id
            &&& starts(after, table).last().call_id == start.call_id
            &&& starts(after, table).last().started_at_ms == start.started_at_ms
        },
{
    let rows = pending_in(before, table);
    pending_exchanges_are_read(before, start.receipt_id@, table);
    exchange_is_found(rows, start.receipt_id@);
    started_is_noted(before, table, start.receipt_id@, start.call_id@);
    if loaded(before, start.receipt_id@, table) is Ok {
        let e = choose|e: int|
            {
                &&& #[trigger] exchange_at(rows, e, start.receipt_id@)
                &&& starts_belong(before, table, held(rows[e]))
            };
        let row = held(rows[e]);
        assert(loaded(before, start.receipt_id@, table)->Ok_0 == row);
        ids_are_those_of_the_calls(held(held(row.assistant).message), start.call_id@);
    }
    if outcome is Ok {
        assert(starts(after, table).drop_last() =~= starts(before, table));
    }
}

proof fn started_is_noted(
    engine: StorageEngine,
    table: PendingTable,
    receipt_id: Seq<char>,
    call_id: Seq<char>,
)
    ensures
        some_row(starts(engine, table), is_start(receipt_id, call_id)) == was_started(
            engine,
            table,
            receipt_id,
            call_id,
        ),
{
    let rows = starts(engine, table);
    if some_row(rows, is_start(receipt_id, call_id)) {
        let k = choose|k: int|
            0 <= k < rows.len() && is_start(receipt_id, call_id)(#[trigger] rows[k]);
        assert(rows[k].receipt_id@ == receipt_id);
    }
    if was_started(engine, table, receipt_id, call_id) {
        let k = choose|k: int|
            0 <= k < rows.len() && (#[trigger] rows[k]).receipt_id@ == receipt_id
                && rows[k].call_id@ == call_id;
        assert(is_start(receipt_id, call_id)(rows[k]));
    }
}

/// An exchange is completed only while it is pending without results, by its owner, with a result for
/// each call and nothing but results, and with no message of skills but a user's.
pub proof fn exchanges_are_completed_by_their_owner(
    before: StorageEngine,
    after: StorageEngine,
    completed: CompletedExchange,
    table: PendingTable,
    outcome: Result<CommittedBatch, Refusal>,
)
    requires
        exchange_completed(before, after, completed, table, outcome),
    ensures
        exchange_completion_refusal(before, completed, table) is None <==> exists|e: int|
            {
                let row = held(pending_in(before, table)[e]);
                let results = held(completed.ready).results@;
                let message = held(completed.ready).activation_message;
                &&& #[trigger] exchange_at(pending_in(before, table), e, completed.receipt_id@)
                &&& starts_belong(before, table, row)
                &&& is_same_target(row.target, completed.target)
                &&& is_table_of(table, row.target)
                &&& row.state is Begun
                &&& exchange_refusal(row.assistant, results) is None
                &&& message is Some ==> held(held(message->0).message) is User
            },
        outcome is Ok ==> exchange_completion_refusal(before, completed, table) is None,
        exchange_completion_refusal(before, completed, table) is Some ==> after == before,
{
    let rows = pending_in(before, table);
    pending_exchanges_are_read(before, completed.receipt_id@, table);
    exchange_is_found(rows, completed.receipt_id@);
    if loaded(before, completed.receipt_id@, table) is Ok {
        let e = choose|e: int|
            {
                &&& #[trigger] exchange_at(rows, e, completed.receipt_id@)
                &&& starts_belong(before, table, held(rows[e]))
            };
        assert(loaded(before, completed.receipt_id@, table)->Ok_0 == held(rows[e]));
        assert(first(rows, is_exchange(completed.receipt_id@)) == Some(e));
    }
}

/// What a completed exchange brings into the conversation: the message with the calls, the results in
/// their order, then the message of skills, if there is one.
pub proof fn exchanges_bring_calls_then_results(
    assistant: Arc<RecordedMessage>,
    ready: ReadyExchange,
)
    ensures
        ({
            let batch = exchange_batch(assistant, ready);
            let n = ready.results@.len();
            &&& batch.len() == n + 1 + if ready.activation_message is Some {
                1int
            } else {
                0int
            }
            &&& batch[0] == assistant
            &&& forall|i: int| 0 <= i < n ==> batch[i + 1] == #[trigger] ready.results@[i]
            &&& ready.activation_message is Some ==> batch.last() == ready.activation_message->0
        }),
{
    let batch = exchange_batch(assistant, ready);
    assert forall|i: int| 0 <= i < ready.results@.len() implies batch[i + 1]
        == #[trigger] ready.results@[i] by {}
}

/// Where an exchange goes: a run's into the conversation of its session, a task's into that of the
/// task, and each by its receipt.
pub proof fn exchanges_go_to_their_owner(
    target: PendingTarget,
    receipt_id: String,
    ready: ReadyExchange,
)
    ensures
        match target {
            PendingTarget::Run { session_id, run_id } => conversation_target(target) == (
            ConversationStorageTarget::Session { session_id, run_id }) && exchange_purpose(
                target,
                receipt_id,
                ready,
            ) == (AppendPurpose::ToolExchange {
                receipt_id,
                skill_activations: ready.skill_activations,
            }),
            PendingTarget::ChildTask { session_id, child_task_id } => conversation_target(target)
                == (ConversationStorageTarget::ChildTask { session_id, child_task_id })
                && exchange_purpose(target, receipt_id, ready) == (
            AppendPurpose::ChildToolExchange { receipt_id }),
        },
{
}

/// After a restart the pending exchanges of the session asked for, or all, are taken up in the order
/// in which they were begun and, at one time, of their receipts.
pub proof fn pending_exchanges_are_taken_up_in_order<E: Fn(&ConversationMessage) -> Vec<u8>>(
    before: StorageEngine,
    scope: Option<String>,
    table: PendingTable,
    encode: E,
    order: Seq<usize>,
    trace: Seq<StorageEngine>,
    failures: Seq<bool>,
)
    requires
        exchanges_in_turn(
            kept(exchanges(before, table), exchange_in_scope(scope)),
            table,
            encode,
            order,
            trace,
            failures,
        ),
    ensures
        ({
            let rows = pending_in(before, table).filter(is_to_be_taken_up(scope));
            &&& order.len() == rows.len()
            &&& trace.len() == rows.len() + 1
            &&& forall|k: int| 0 <= k < order.len() ==> #[trigger] order[k] < rows.len()
            &&& forall|k: int, l: int|
                0 <= k < l < order.len() ==> {
                    let left = held(rows[#[trigger] order[k] as int]);
                    let right = held(rows[#[trigger] order[l] as int]);
                    &&& order[k] != order[l]
                    &&& left.created_at_ms <= right.created_at_ms
                    &&& left.created_at_ms == right.created_at_ms ==> !text_before(
                        right.receipt_id@,
                        left.receipt_id@,
                    )
                }
        }),
{
    let rows = kept(exchanges(before, table), exchange_in_scope(scope));
    kept_is_filtered(
        exchanges(before, table),
        exchange_in_scope(scope),
        is_to_be_taken_up(scope),
    );
    let keys = exchange_keys(rows);
    assert forall|k: int, l: int| 0 <= k < l < order.len() implies {
        let left = held(rows[#[trigger] order[k] as int]);
        let right = held(rows[#[trigger] order[l] as int]);
        &&& order[k] != order[l]
        &&& left.created_at_ms <= right.created_at_ms
        &&& left.created_at_ms == right.created_at_ms ==> !text_before(
            right.receipt_id@,
            left.receipt_id@,
        )
    } by {
        assert(!key_before(keys[order[l] as int], keys[order[k] as int]));
    }
}

/// The condition of being an exchange of the session asked for.
pub open spec fn is_to_be_taken_up(scope: Option<String>) -> spec_fn(Arc<PendingExchange>) -> bool {
    |row: Arc<PendingExchange>|
        scope is None || exchanging_session(held(row).target) == scope->0@
}

/// After a restart the announced appends of the session asked for, or all, are completed in the order
/// in which they were announced and, at one time, of their operations.
pub proof fn announced_appends_are_completed_in_order(
    before: StorageEngine,
    scope: Option<String>,
    table: AppendTable,
    order: Seq<usize>,
    trace: Seq<StorageEngine>,
)
    requires
        completes_in_turn(
            kept(appends(before, table), in_scope(scope)),
            table,
            order,
            trace,
        ),
    ensures
        ({
            let rows = match table {
                AppendTable::Session => before.body_appends@,
                AppendTable::ChildTask => before.child_body_appends@,
            }.filter(is_to_be_completed(scope));
            &&& order.len() == rows.len()
            &&& trace.len() == rows.len() + 1
            &&& forall|k: int| 0 <= k < order.len() ==> #[trigger] order[k] < rows.len()
            &&& forall|k: int, l: int|
                0 <= k < l < order.len() ==> {
                    let left = held(rows[#[trigger] order[k] as int]);
                    let right = held(rows[#[trigger] order[l] as int]);
                    &&& order[k] != order[l]
                    &&& left.created_at_ms <= right.created_at_ms
                    &&& left.created_at_ms == right.created_at_ms ==> !text_before(
                        right.operation_id@,
                        left.operation_id@,
                    )
                }
        }),
{
    let rows = kept(appends(before, table), in_scope(scope));
    kept_is_filtered(appends(before, table), in_scope(scope), is_to_be_completed(scope));
    let keys = append_keys(rows);
    assert forall|k: int, l: int| 0 <= k < l < order.len() implies {
        let left = held(rows[#[trigger] order[k] as int]);
        let right = held(rows[#[trigger] order[l] as int]);
        &&& order[k] != order[l]
        &&& left.created_at_ms <= right.created_at_ms
        &&& left.created_at_ms == right.created_at_ms ==> !text_before(
            right.operation_id@,
            left.operation_id@,
        )
    } by {
        assert(!key_before(keys[order[l] as int], keys[order[k] as int]));
    }
}

/// The condition of being an append of the session asked for.
pub open spec fn is_to_be_completed(scope: Option<String>) -> spec_fn(Arc<StagedAppend>) -> bool {
    |row: Arc<StagedAppend>| scope is None || appending_session(held(row).target) == scope->0@
}

} // verus!
