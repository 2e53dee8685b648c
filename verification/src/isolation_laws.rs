//! What is mended in one session leaves the conversations of the others alone.

use std::sync::Arc;
use vstd::prelude::*;

use crate::append_effect::{
    has_other_receipt, purpose_tables, session_of, AppendPurpose, ConversationStorageTarget,
};
use crate::append_laws::{
    announced_append_reaches_its_body, appends_stay_in_their_session, older_messages_are_still_read,
    recovery_leaves_other_sessions, sessions_do_not_share_bodies,
};
use crate::conversation::{records_of, RecordedMessage};
use crate::engine::{bodies, current_conversation, generation_of, is_child, path_of, StorageEngine};
use crate::error::{Refusal, StorageResult};
use crate::exchange_recovery::{
    committed_at, exchange_attempted, exchange_in_scope, exchange_recovered, exchange_session,
    exchanges_in_turn, exchanges_recovered, failing_owners, ready_committed, recovered_ready,
};
use crate::history_recovery::{
    all_readable, change_recovered, changes_in_turn, changes_recovered, is_unsettled, FoundFiles,
};
use crate::key_laws::append_recovery_keeps_keys;
use crate::keys::{exchange_name, is_keyed, unique};
use crate::message::{held, ConversationMessage};
use crate::recovery::{
    announced, append_attempted, attempted, finalization_refusal, main_target, staged,
    staging_refusal, table_of, written, AppendTable, CommittedBatch,
};
use crate::run_state::time_told;
use crate::session_history::receipt_of;
use crate::session_loading::{session_mended, tasks_interrupted, MendedSession, MendingSteps};
use crate::startup_laws::{
    exchange_recovery_keeps_keys, history_recovery_keeps_keys, placing_resources_keeps_keys,
};
use crate::table::{first, first_is_found, kept, kept_rows};
use crate::tool_exchange::{
    conversation_target, exchange_batch, exchange_committed, exchange_purpose, exchanges,
    is_exchange, loaded, readied, PendingExchange, PendingTable, ReadyExchange,
};

verus! {

/// Appending to one session leaves the conversations of the others as they are.
pub proof fn appending_leaves_other_sessions(
    before: StorageEngine,
    after: StorageEngine,
    operation_id: String,
    target: ConversationStorageTarget,
    batch: Seq<Arc<RecordedMessage>>,
    message_step: Option<u32>,
    created_at_ms: i64,
    purpose: AppendPurpose,
    outcome: Result<CommittedBatch, Refusal>,
    other: ConversationStorageTarget,
)
    requires
        append_attempted(
            before,
            after,
            operation_id,
            target,
            batch,
            message_step,
            created_at_ms,
            purpose,
            outcome,
        ),
        session_of(target)@ != session_of(other)@,
        current_conversation(before, other) is Ok,
    ensures
        current_conversation(after, other) == current_conversation(before, other),
{
    if staging_refusal(before, operation_id@, target, batch) is None {
        let announcing = choose|announcing: StorageEngine| #[trigger]
            staged(
                before,
                announcing,
                operation_id,
                target,
                batch,
                message_step,
                created_at_ms,
                purpose,
            ) && attempted(announcing, after, operation_id@, table_of(target));
        announced_append_reaches_its_body(
            before,
            announcing,
            operation_id,
            target,
            batch,
            message_step,
            created_at_ms,
            purpose,
        );
        let generation = generation_of(before, other)->Ok_0;
        let path = path_of(before, other, generation)->Ok_0;
        assert(generation_of(announcing, other) == generation_of(before, other));
        assert(path_of(announcing, other, generation) == path_of(before, other, generation));
        older_messages_are_still_read(
            before.known@,
            announcing.known@,
            batch,
            records_of(bodies(before.files@)[path])->0,
        );
        assert(current_conversation(announcing, other) == current_conversation(before, other));
        appends_stay_in_their_session(
            announcing,
            after,
            operation_id@,
            table_of(target),
            other,
        );
    }
}

/// A row has the receipt and the owner of another.
pub open spec fn has_original(rows: Seq<Arc<PendingExchange>>, row: Arc<PendingExchange>) -> bool {
    exists|j: int|
        0 <= j < rows.len() && (#[trigger] rows[j]).receipt_id == row.receipt_id && rows[j].target
            == row.target
}

/// No exchange is new, or has another owner than before.
pub open spec fn comes_from(
    rows: Seq<Arc<PendingExchange>>,
    later: Seq<Arc<PendingExchange>>,
) -> bool {
    forall|i: int| 0 <= i < later.len() ==> has_original(rows, #[trigger] later[i])
}

proof fn exchanges_come_from_themselves(rows: Seq<Arc<PendingExchange>>)
    ensures
        comes_from(rows, rows),
{
    assert forall|i: int| 0 <= i < rows.len() implies has_original(rows, #[trigger] rows[i]) by {
        assert(rows[i].receipt_id == rows[i].receipt_id && rows[i].target == rows[i].target);
    }
}

proof fn kept_exchanges_come_from_all(
    rows: Seq<Arc<PendingExchange>>,
    condition: spec_fn(Arc<PendingExchange>) -> bool,
)
    ensures
        comes_from(rows, kept(rows, condition)),
{
    kept_rows(rows, condition);
    let later = kept(rows, condition);
    assert forall|i: int| 0 <= i < later.len() implies has_original(rows, #[trigger] later[i]) by {
        assert(rows.contains(later[i]));
        let j = rows.index_of(later[i]);
        assert(rows[j].receipt_id == later[i].receipt_id && rows[j].target == later[i].target);
    }
}

proof fn origins_are_passed_on(
    rows: Seq<Arc<PendingExchange>>,
    middle: Seq<Arc<PendingExchange>>,
    later: Seq<Arc<PendingExchange>>,
)
    requires
        comes_from(rows, middle),
        comes_from(middle, later),
    ensures
        comes_from(rows, later),
{
    assert forall|i: int| 0 <= i < later.len() implies has_original(rows, #[trigger] later[i]) by {
        assert(has_original(middle, later[i]));
        let j = choose|j: int|
            0 <= j < middle.len() && (#[trigger] middle[j]).receipt_id == later[i].receipt_id
                && middle[j].target == later[i].target;
        assert(has_original(rows, middle[j]));
    }
}

proof fn appends_begin_no_exchange(
    before: StorageEngine,
    after: StorageEngine,
    operation_id: Seq<char>,
    table: AppendTable,
    pending: PendingTable,
)
    requires
        attempted(before, after, operation_id, table),
    ensures
        comes_from(exchanges(before, pending), exchanges(after, pending)),
{
    exchanges_come_from_themselves(exchanges(before, pending));
    if written(before, operation_id, table) is Ok && finalization_refusal(
        before,
        operation_id,
        table,
    ) is None {
        let row = announced(before, operation_id, table)->Ok_0;
        let reached = StorageEngine { files: after.files, ..before };
        assert(purpose_tables(reached) == purpose_tables(before));
        assert(purpose_tables(after).exchanges == after.pending_exchanges@);
        assert(purpose_tables(after).child_exchanges == after.child_pending_exchanges@);
        match held(row.purpose) {
            AppendPurpose::ToolExchange { receipt_id, skill_activations } => {
                kept_exchanges_come_from_all(
                    before.pending_exchanges@,
                    has_other_receipt(receipt_id@),
                );
            },
            AppendPurpose::ChildToolExchange { receipt_id } => {
                kept_exchanges_come_from_all(
                    before.child_pending_exchanges@,
                    has_other_receipt(receipt_id@),
                );
            },
            _ => {},
        }
    }
}

proof fn appending_begins_no_exchange(
    before: StorageEngine,
    after: StorageEngine,
    operation_id: String,
    target: ConversationStorageTarget,
    batch: Seq<Arc<RecordedMessage>>,
    message_step: Option<u32>,
    created_at_ms: i64,
    purpose: AppendPurpose,
    outcome: Result<CommittedBatch, Refusal>,
    pending: PendingTable,
)
    requires
        append_attempted(
            before,
            after,
            operation_id,
            target,
            batch,
            message_step,
            created_at_ms,
            purpose,
            outcome,
        ),
    ensures
        comes_from(exchanges(before, pending), exchanges(after, pending)),
{
    exchanges_come_from_themselves(exchanges(before, pending));
    if staging_refusal(before, operation_id@, target, batch) is None {
        let announcing = choose|announcing: StorageEngine| #[trigger]
            staged(
                before,
                announcing,
                operation_id,
                target,
                batch,
                message_step,
                created_at_ms,
                purpose,
            ) && attempted(announcing, after, operation_id@, table_of(target));
        assert(exchanges(announcing, pending) == exchanges(before, pending));
        appends_begin_no_exchange(
            announcing,
            after,
            operation_id@,
            table_of(target),
            pending,
        );
    }
}

proof fn ready_results_stay_in_their_session(
    before: StorageEngine,
    after: StorageEngine,
    row: PendingExchange,
    ready: ReadyExchange,
    clock: Result<i64, Refusal>,
    outcome: Result<CommittedBatch, Refusal>,
    pending: PendingTable,
    other: ConversationStorageTarget,
)
    requires
        ready_committed(before, after, row, ready, clock, outcome),
        exchange_session(row.target)@ != session_of(other)@,
        current_conversation(before, other) is Ok,
    ensures
        current_conversation(after, other) == current_conversation(before, other),
        comes_from(exchanges(before, pending), exchanges(after, pending)),
{
    exchanges_come_from_themselves(exchanges(before, pending));
    if after != before {
        let now = clock->Ok_0;
        assert(committed_at(before, after, row, ready, now, outcome));
        let operation_id = choose|operation_id: String|
            operation_id@ == "recover-"@ + row.receipt_id@ && #[trigger] exchange_committed(
                before,
                after,
                operation_id,
                row,
                ready,
                now,
                outcome,
            );
        let target = conversation_target(row.target);
        let batch = exchange_batch(row.assistant, ready);
        let purpose = exchange_purpose(row.target, row.receipt_id, ready);
        appending_leaves_other_sessions(
            before,
            after,
            operation_id,
            target,
            batch,
            row.step,
            now,
            purpose,
            outcome,
            other,
        );
        appending_begins_no_exchange(
            before,
            after,
            operation_id,
            target,
            batch,
            row.step,
            now,
            purpose,
            outcome,
            pending,
        );
    }
}

proof fn readying_changes_no_owner(
    before: StorageEngine,
    after: StorageEngine,
    receipt_id: Seq<char>,
    table: PendingTable,
    ready: Arc<ReadyExchange>,
    pending: PendingTable,
)
    requires
        loaded(before, receipt_id, table) is Ok,
        readied(before, after, receipt_id, table, ready),
    ensures
        comes_from(exchanges(before, pending), exchanges(after, pending)),
{
    let rows = exchanges(before, pending);
    let later = exchanges(after, pending);
    exchanges_come_from_themselves(rows);
    if table == pending {
        first_is_found(rows, is_exchange(receipt_id));
        let place = first(rows, is_exchange(receipt_id))->0;
        assert forall|i: int| 0 <= i < later.len() implies has_original(
            rows,
            #[trigger] later[i],
        ) by {
            assert(rows[i].receipt_id == later[i].receipt_id && rows[i].target
                == later[i].target);
        }
    }
}

proof fn recovered_exchange_stays_in_its_session<E: Fn(&ConversationMessage) -> Vec<u8>>(
    before: StorageEngine,
    after: StorageEngine,
    receipt_id: Seq<char>,
    table: PendingTable,
    clock: Result<i64, Refusal>,
    encode: E,
    outcome: Result<CommittedBatch, Refusal>,
    other: ConversationStorageTarget,
)
    requires
        exchange_recovered(before, after, receipt_id, table, clock, encode, outcome),
        loaded(before, receipt_id, table) is Ok ==> exchange_session(
            loaded(before, receipt_id, table)->Ok_0.target,
        )@ != session_of(other)@,
        current_conversation(before, other) is Ok,
    ensures
        current_conversation(after, other) == current_conversation(before, other),
        comes_from(exchanges(before, table), exchanges(after, table)),
{
    exchanges_come_from_themselves(exchanges(before, table));
    if after != before {
        let row = loaded(before, receipt_id, table)->Ok_0;
        if row.state is Begun {
            let (ready, prepared) = choose|ready: Arc<ReadyExchange>, prepared: StorageEngine|
                #[trigger] readied(before, prepared, receipt_id, table, ready) && recovered_ready(
                    before,
                    row,
                    table,
                    *ready,
                    encode,
                ) && ready_committed(prepared, after, row, *ready, clock, outcome);
            readying_changes_no_owner(before, prepared, receipt_id, table, ready, table);
            assert(current_conversation(prepared, other) == current_conversation(before, other));
            ready_results_stay_in_their_session(
                prepared,
                after,
                row,
                held(ready),
                clock,
                outcome,
                table,
                other,
            );
            origins_are_passed_on(
                exchanges(before, table),
                exchanges(prepared, table),
                exchanges(after, table),
            );
        } else {
            ready_results_stay_in_their_session(
                before,
                after,
                row,
                held(row.ready->0),
                clock,
                outcome,
                table,
                other,
            );
        }
    }
}

proof fn loaded_exchange_has_its_owner(
    all: Seq<Arc<PendingExchange>>,
    engine: StorageEngine,
    row: Arc<PendingExchange>,
    table: PendingTable,
)
    requires
        unique(all, exchange_name()),
        all.contains(row),
        comes_from(all, exchanges(engine, table)),
    ensures
        loaded(engine, row.receipt_id@, table) is Ok ==> loaded(
            engine,
            row.receipt_id@,
            table,
        )->Ok_0.target == row.target,
{
    if loaded(engine, row.receipt_id@, table) is Ok {
        let now = exchanges(engine, table);
        first_is_found(now, is_exchange(row.receipt_id@));
        let place = first(now, is_exchange(row.receipt_id@))->0;
        assert(has_original(all, now[place]));
        let j = choose|j: int|
            0 <= j < all.len() && (#[trigger] all[j]).receipt_id == now[place].receipt_id
                && all[j].target == now[place].target;
        let i = all.index_of(row);
        assert(exchange_name()(all[i]) == exchange_name()(all[j]));
        assert(i == j);
    }
}

proof fn exchange_turns_leave_other_sessions<E: Fn(&ConversationMessage) -> Vec<u8>>(
    before: StorageEngine,
    scope: String,
    table: PendingTable,
    encode: E,
    order: Seq<usize>,
    trace: Seq<StorageEngine>,
    failures: Seq<bool>,
    n: int,
    other: ConversationStorageTarget,
)
    requires
        exchanges_in_turn(
            kept(exchanges(before, table), exchange_in_scope(Some(scope))),
            table,
            encode,
            order,
            trace,
            failures,
        ),
        trace[0] == before,
        0 <= n <= order.len(),
        unique(exchanges(before, table), exchange_name()),
        session_of(other)@ != scope@,
        current_conversation(before, other) is Ok,
    ensures
        current_conversation(trace[n], other) == current_conversation(before, other),
        comes_from(exchanges(before, table), exchanges(trace[n], table)),
    decreases n,
{
    let all = exchanges(before, table);
    exchanges_come_from_themselves(all);
    if n > 0 {
        exchange_turns_leave_other_sessions(
            before,
            scope,
            table,
            encode,
            order,
            trace,
            failures,
            n - 1,
            other,
        );
        let rows = kept(all, exchange_in_scope(Some(scope)));
        let row = rows[order[n - 1] as int];
        let receipt_id = row.receipt_id@;
        let engine = trace[n - 1];
        assert(exchange_attempted(
            trace[n - 1],
            trace[n - 1 + 1],
            receipt_id,
            table,
            encode,
            failures[n - 1],
        ));
        let (elapsed, outcome) = choose|
            elapsed: Option<u128>,
            outcome: Result<CommittedBatch, Refusal>,
        | #[trigger]
            exchange_recovered(
                engine,
                trace[n],
                receipt_id,
                table,
                time_told(elapsed),
                encode,
                outcome,
            ) && failures[n - 1] == (outcome is Err);
        kept_rows(all, exchange_in_scope(Some(scope)));
        assert(order[n - 1] < rows.len());
        assert(all.contains(row));
        assert(exchange_in_scope(Some(scope))(row));
        loaded_exchange_has_its_owner(all, engine, row, table);
        recovered_exchange_stays_in_its_session(
            engine,
            trace[n],
            receipt_id,
            table,
            time_told(elapsed),
            encode,
            outcome,
            other,
        );
        origins_are_passed_on(all, exchanges(engine, table), exchanges(trace[n], table));
    }
}

/// Recovering the exchanges of one session leaves the conversations of the others as they are.
pub proof fn exchange_recovery_leaves_other_sessions<E: Fn(&ConversationMessage) -> Vec<u8>>(
    before: StorageEngine,
    after: StorageEngine,
    scope: String,
    table: PendingTable,
    encode: E,
    unavailable: Seq<String>,
    other: ConversationStorageTarget,
)
    requires
        is_keyed(before),
        exchanges_recovered(before, after, Some(scope), table, encode, unavailable),
        session_of(other)@ != scope@,
        current_conversation(before, other) is Ok,
    ensures
        current_conversation(after, other) == current_conversation(before, other),
{
    let rows = kept(exchanges(before, table), exchange_in_scope(Some(scope)));
    let (order, trace, failures) = choose|
        order: Seq<usize>,
        trace: Seq<StorageEngine>,
        failures: Seq<bool>,
    | #[trigger]
        exchanges_in_turn(rows, table, encode, order, trace, failures) && trace[0] == before
            && trace.last() == after && unavailable == failing_owners(rows, order, failures);
    exchange_turns_leave_other_sessions(
        before,
        scope,
        table,
        encode,
        order,
        trace,
        failures,
        order.len() as int,
        other,
    );
}

proof fn change_turns_leave_other_sessions(
    before: StorageEngine,
    scope: String,
    found: FoundFiles,
    order: Seq<usize>,
    trace: Seq<StorageEngine>,
    open: Seq<bool>,
    n: int,
    other: ConversationStorageTarget,
)
    requires
        changes_in_turn(
            kept(before.history_operations@, is_unsettled(Some(scope))),
            found,
            order,
            trace,
            open,
        ),
        trace[0] == before,
        0 <= n <= open.len(),
        session_of(other)@ != scope@,
        current_conversation(before, other) is Ok,
    ensures
        current_conversation(trace[n], other) == current_conversation(before, other),
    decreases n,
{
    if n > 0 {
        change_turns_leave_other_sessions(
            before,
            scope,
            found,
            order,
            trace,
            open,
            n - 1,
            other,
        );
        let rows = kept(before.history_operations@, is_unsettled(Some(scope)));
        let row = rows[order[n - 1] as int];
        let engine = trace[n - 1];
        assert(change_recovered(
            trace[n - 1],
            trace[n - 1 + 1],
            row,
            found,
            Ok::<_, Refusal>(open[n - 1]),
        ));
        kept_rows(before.history_operations@, is_unsettled(Some(scope)));
        assert(order[n - 1] < rows.len());
        assert(is_unsettled(Some(scope))(row));
        let generation = generation_of(engine, other)->Ok_0;
        assert(generation_of(trace[n], other) == generation_of(engine, other));
        assert(path_of(trace[n], other, generation) == path_of(engine, other, generation));
        if receipt_of(row).result_generation is Some && path_of(
            engine,
            main_target(row.session_id),
            receipt_of(row).result_generation->0,
        ) is Ok {
            sessions_do_not_share_bodies(
                engine,
                main_target(row.session_id),
                receipt_of(row).result_generation->0,
                other,
                generation,
            );
        }
    }
}

/// Bringing the changes of one session's history to an end leaves the conversations of the others
/// as they are.
pub proof fn history_recovery_leaves_other_sessions(
    before: StorageEngine,
    after: StorageEngine,
    scope: String,
    found: FoundFiles,
    outcome: Result<Seq<String>, Refusal>,
    other: ConversationStorageTarget,
)
    requires
        changes_recovered(before, after, Some(scope), found, outcome),
        session_of(other)@ != scope@,
        current_conversation(before, other) is Ok,
    ensures
        current_conversation(after, other) == current_conversation(before, other),
{
    let rows = kept(before.history_operations@, is_unsettled(Some(scope)));
    if all_readable(rows) {
        let (order, trace, open) = choose|
            order: Seq<usize>,
            trace: Seq<StorageEngine>,
            open: Seq<bool>,
        | #[trigger]
            changes_in_turn(rows, found, order, trace, open) && trace[0] == before
                && trace.last() == after;
        change_turns_leave_other_sessions(
            before,
            scope,
            found,
            order,
            trace,
            open,
            open.len() as int,
            other,
        );
    }
}

/// Mending one session leaves the conversations of the others as they are, whatever comes of it:
/// what is wrong with a session stays with it.
pub proof fn mending_leaves_other_sessions<E: Fn(&ConversationMessage) -> Vec<u8>>(
    before: StorageEngine,
    steps: MendingSteps,
    after: StorageEngine,
    session_id: String,
    found: FoundFiles,
    encode: E,
    result: StorageResult<MendedSession>,
    other: ConversationStorageTarget,
)
    requires
        is_keyed(before),
        session_mended(before, steps, after, session_id, found, encode, result),
        session_of(other)@ != session_id@,
        current_conversation(before, other) is Ok,
    ensures
        current_conversation(after, other) == current_conversation(before, other),
{
    let scope = Some(session_id);
    if steps.directories is Ok {
        placing_resources_keeps_keys(
            before,
            steps.repaired,
            scope,
            steps.directory_order,
            steps.directories,
        );
        assert(current_conversation(steps.repaired, other) == current_conversation(before, other));
        match result {
            Err(error) => {
                history_recovery_leaves_other_sessions(
                    steps.repaired,
                    after,
                    session_id,
                    found,
                    Err::<Seq<String>, Refusal>(error@),
                    other,
                );
            },
            Ok(_) => {
                let settled = Ok::<Seq<String>, Refusal>(steps.uncleaned);
                history_recovery_keeps_keys(
                    steps.repaired,
                    steps.settled,
                    scope,
                    found,
                    settled,
                );
                history_recovery_leaves_other_sessions(
                    steps.repaired,
                    steps.settled,
                    session_id,
                    found,
                    settled,
                    other,
                );
                append_recovery_keeps_keys(
                    steps.settled,
                    steps.appended,
                    scope,
                    AppendTable::Session,
                    steps.failed_appends,
                );
                recovery_leaves_other_sessions(
                    steps.settled,
                    steps.appended,
                    session_id,
                    AppendTable::Session,
                    steps.failed_appends,
                    other,
                );
                append_recovery_keeps_keys(
                    steps.appended,
                    steps.tasks_appended,
                    scope,
                    AppendTable::ChildTask,
                    steps.failed_task_appends,
                );
                recovery_leaves_other_sessions(
                    steps.appended,
                    steps.tasks_appended,
                    session_id,
                    AppendTable::ChildTask,
                    steps.failed_task_appends,
                    other,
                );
                exchange_recovery_keeps_keys(
                    steps.tasks_appended,
                    steps.tasks_exchanged,
                    scope,
                    PendingTable::ChildTask,
                    encode,
                    steps.failed_task_exchanges,
                );
                exchange_recovery_leaves_other_sessions(
                    steps.tasks_appended,
                    steps.tasks_exchanged,
                    session_id,
                    PendingTable::ChildTask,
                    encode,
                    steps.failed_task_exchanges,
                    other,
                );
                assert(is_keyed(steps.tasks_ended));
                ended_tasks_keep_their_bodies(steps, session_id, other);
                exchange_recovery_leaves_other_sessions(
                    steps.tasks_ended,
                    steps.exchanged,
                    session_id,
                    PendingTable::Run,
                    encode,
                    steps.failed_exchanges,
                    other,
                );
            },
        }
    }
}

proof fn ended_tasks_keep_their_bodies(
    steps: MendingSteps,
    session_id: String,
    other: ConversationStorageTarget,
)
    requires
        steps.tasks_ended == (StorageEngine {
            child_tasks: steps.tasks_ended.child_tasks,
            unavailable_child_tasks: steps.tasks_ended.unavailable_child_tasks,
            ..steps.tasks_exchanged
        }),
        steps.tasks_ended.child_tasks@ == tasks_interrupted(
            steps.tasks_exchanged.child_tasks@,
            Some(session_id),
        ),
    ensures
        current_conversation(steps.tasks_ended, other) == current_conversation(
            steps.tasks_exchanged,
            other,
        ),
{
    match other {
        ConversationStorageTarget::ChildTask { session_id: session, child_task_id } => {
            let condition = is_child(session@, child_task_id@);
            let rows = steps.tasks_exchanged.child_tasks@;
            let later = steps.tasks_ended.child_tasks@;
            first_is_found(rows, condition);
            first_is_found(later, condition);
            assert forall|i: int| 0 <= i < rows.len() implies condition(#[trigger] later[i])
                == condition(rows[i]) by {}
            match first(rows, condition) {
                Some(place) => {
                    assert(condition(later[place]));
                    let found = first(later, condition)->0;
                    if found < place {
                        assert(condition(rows[found]));
                    }
                    if place < found {
                        assert(!condition(later[place]));
                    }
                },
                None => {
                    if first(later, condition) is Some {
                        let found = first(later, condition)->0;
                        assert(condition(rows[found]));
                    }
                },
            }
        },
        _ => {},
    }
}

} // verus!
