//! What a restart makes of goals and runs.

use std::sync::Arc;
use vstd::prelude::*;

use crate::append_effect::{
    purpose_applied, purpose_tables, session_of, AppendPurpose, ConversationStorageTarget,
    StagedAppend,
};
use crate::append_laws::{attempts_announce_nothing, completed_recovery_leaves_nothing_announced};
use crate::cascade::{append_out, children_of, input_out, inputs_removed, run_out, runs_of};
use crate::conversation::RecordedMessage;
use crate::engine::StorageEngine;
use crate::error::{Refusal, StorageResult};
use crate::exchange_recovery::{
    committed_at, exchange_attempted, exchange_in_scope, exchange_recovered, exchanges_in_turn,
    exchanges_recovered, failing_owners, ready_committed, recovered_ready,
};
use crate::goal::{
    after_restart, is_exhausted, is_stale_continuation, running_goals, runs_in, stale_continuations,
};
use crate::history_recovery::{
    all_readable, change_recovered, changes_in_turn, changes_recovered, is_unsettled, FoundFiles,
};
use crate::key_laws::append_recovery_keeps_keys;
use crate::keys::{append_name, is_keyed, unique};
use crate::message::{held, ConversationMessage};
use crate::recovery::{
    announced, append_attempted, append_owner, appends, appends_recovered, attempted,
    completes_in_turn, failed_owners, finalization_refusal, in_scope, is_append, staged,
    staging_refusal, table_of, written, AppendTable, CommittedBatch,
};
use crate::rows::{HistoryOperationRow, StoredGoal};
use crate::run_state::time_told;
use crate::session_history::is_other_text;
use crate::session_loading::{
    session_mended, session_taken_up, LoadedSession, MendedSession, MendingSteps, TakingUpSteps,
};
use crate::startup_laws::{
    history_recovery_keeps_keys, mending_keeps_keys, placing_resources_keeps_keys,
    taking_up_keeps_keys,
};
use crate::table::{all_rows_kept, first, first_is, first_is_found, kept, kept_rows, some_row};
use crate::text::{lists, with_text, with_texts};
use crate::tool_exchange::{
    conversation_target, exchange_batch, exchange_committed, exchange_purpose, exchanges, loaded,
    readied, PendingExchange, PendingTable, ReadyExchange,
};

verus! {

/// Each append is announced in the table of its target.
pub open spec fn is_filed(engine: StorageEngine) -> bool {
    &&& forall|row: Arc<StagedAppend>| #[trigger]
        engine.body_appends@.contains(row) ==> row.target is Session
    &&& forall|row: Arc<StagedAppend>| #[trigger]
        engine.child_body_appends@.contains(row) ==> row.target is ChildTask
}

/// An append that starts no run and ends none.
pub open spec fn leaves_work(row: StagedAppend) -> bool {
    !(row.target is Session && (*row.purpose is UserMessage || *row.purpose is RunSettlement))
}

/// No append that starts or ends a run of a session is announced.
pub open spec fn is_calm(engine: StorageEngine, scope: Option<String>) -> bool {
    forall|row: Arc<StagedAppend>| #[trigger]
        engine.body_appends@.contains(row) && in_scope(scope)(row) ==> leaves_work(*row)
}

/// Goals, inputs and runs are as they were.
pub open spec fn same_work(before: StorageEngine, after: StorageEngine) -> bool {
    &&& after.goals@ == before.goals@
    &&& after.inputs@ == before.inputs@
    &&& after.runs@ == before.runs@
}

/// What an attempt to complete an append leaves as it was.
proof fn attempt_leaves_work(
    before: StorageEngine,
    after: StorageEngine,
    operation_id: Seq<char>,
    table: AppendTable,
)
    requires
        attempted(before, after, operation_id, table),
        announced(before, operation_id, table) is Ok ==> leaves_work(
            announced(before, operation_id, table)->Ok_0,
        ),
    ensures
        same_work(before, after),
{
    if written(before, operation_id, table) is Ok && finalization_refusal(
        before,
        operation_id,
        table,
    ) is None {
        let row = announced(before, operation_id, table)->Ok_0;
        let reached = StorageEngine { files: after.files, ..before };
        assert(purpose_tables(reached) == purpose_tables(before));
        let purpose = purpose_applied(
            purpose_tables(before),
            row.target,
            held(row.purpose),
            row.created_at_ms,
        );
        assert(purpose.settlement == purpose_tables(before).settlement);
        let tables = purpose_tables(after).settlement;
        assert(tables.goals == after.goals@);
        assert(tables.work.inputs == after.inputs@);
        assert(tables.work.runs == after.runs@);
    }
}

proof fn attempt_keeps_filing(
    before: StorageEngine,
    after: StorageEngine,
    operation_id: Seq<char>,
    table: AppendTable,
)
    requires
        attempted(before, after, operation_id, table),
    ensures
        is_filed(before) ==> is_filed(after),
        forall|scope: Option<String>| #[trigger] is_calm(before, scope) ==> is_calm(after, scope),
{
    attempts_announce_nothing(before, after, operation_id, table);
    match table {
        AppendTable::Session => {
            assert(appends(after, table) == after.body_appends@);
            assert(appends(before, table) == before.body_appends@);
        },
        AppendTable::ChildTask => {
            assert(appends(after, table) == after.child_body_appends@);
            assert(appends(before, table) == before.child_body_appends@);
        },
    }
}

/// An append, whatever comes of it, leaves each in the table of its target.
pub proof fn appending_keeps_filing(
    before: StorageEngine,
    after: StorageEngine,
    operation_id: String,
    target: ConversationStorageTarget,
    batch: Seq<Arc<RecordedMessage>>,
    message_step: Option<u32>,
    created_at_ms: i64,
    purpose: AppendPurpose,
    outcome: Result<CommittedBatch, Refusal>,
)
    requires
        is_filed(before),
        append_attempted(
            before,
            after,
            operation_id,
            target,
            batch,
            message_step,
            created_at_ms,
            purpose,
            outcome,
        ),
    ensures
        is_filed(after),
{
    if staging_refusal(before, operation_id@, target, batch) is None {
        let announcing = choose|announcing: StorageEngine| #[trigger]
            staged(
                before,
                announcing,
                operation_id,
                target,
                batch,
                message_step,
                created_at_ms,
                purpose,
            ) && attempted(announcing, after, operation_id@, table_of(target));
        let table = table_of(target);
        let rows = appends(before, table);
        let longer = appends(announcing, table);
        let added = longer.last();
        assert(longer =~= rows.push(added));
        assert(held(added).target == target);
        assert forall|other: Arc<StagedAppend>| #[trigger] longer.contains(other) implies other
            == added || rows.contains(other) by {
            let i = longer.index_of(other);
            if i < rows.len() {
                assert(rows[i] == other);
            }
        }
        match table {
            AppendTable::Session => {
                assert(longer == announcing.body_appends@);
                assert(rows == before.body_appends@);
            },
            AppendTable::ChildTask => {
                assert(longer == announcing.child_body_appends@);
                assert(rows == before.child_body_appends@);
            },
        }
        assert(is_filed(announcing));
        attempt_keeps_filing(announcing, after, operation_id@, table);
    }
}

/// The append that is found by the operation of a row in scope is that row.
proof fn turn_takes_a_row_in_scope(
    all: Seq<Arc<StagedAppend>>,
    left: Seq<Arc<StagedAppend>>,
    scope: Option<String>,
    place: int,
)
    requires
        unique(all, append_name()),
        0 <= place < kept(all, in_scope(scope)).len(),
        forall|row: Arc<StagedAppend>| #[trigger] left.contains(row) ==> all.contains(row),
    ensures
        ({
            let operation_id = kept(all, in_scope(scope))[place].operation_id@;
            let found = first(left, is_append(operation_id));
            found is Some ==> 0 <= found->0 < left.len() && in_scope(scope)(left[found->0])
        }),
{
    let rows = kept(all, in_scope(scope));
    let expected = rows[place];
    let operation_id = expected.operation_id@;
    first_is_found(left, is_append(operation_id));
    kept_rows(all, in_scope(scope));
    assert(in_scope(scope)(expected));
    assert(rows.contains(expected));
    if first(left, is_append(operation_id)) is Some {
        let row = left[first(left, is_append(operation_id))->0];
        assert(left.contains(row));
        let i = all.index_of(row);
        let k = all.index_of(expected);
        assert(append_name()(all[i]) == append_name()(all[k]));
        if i < k {
            assert(append_name()(all[i]) != append_name()(all[k]));
        }
        if k < i {
            assert(append_name()(all[k]) != append_name()(all[i]));
        }
        assert(row == expected);
    }
}

/// Completing appends in turn, none of which starts or ends a run, leaves work as it was.
proof fn turns_leave_work(
    rows: Seq<Arc<StagedAppend>>,
    scope: Option<String>,
    table: AppendTable,
    order: Seq<usize>,
    trace: Seq<StorageEngine>,
    n: int,
)
    requires
        completes_in_turn(rows, table, order, trace),
        rows == kept(appends(trace[0], table), in_scope(scope)),
        unique(appends(trace[0], table), append_name()),
        is_filed(trace[0]),
        0 <= n <= order.len(),
    ensures
        is_filed(trace[n]),
        is_calm(trace[0], scope) ==> is_calm(trace[n], scope),
        forall|row: Arc<StagedAppend>| #[trigger]
            appends(trace[n], table).contains(row) ==> appends(trace[0], table).contains(row),
        is_calm(trace[0], scope) || table is ChildTask ==> same_work(trace[0], trace[n]),
        table is ChildTask ==> trace[n].body_appends@ == trace[0].body_appends@,
    decreases n,
{
    if n > 0 {
        turns_leave_work(rows, scope, table, order, trace, n - 1);
        let before = trace[n - 1];
        let operation_id = rows[order[n - 1] as int].operation_id@;
        assert(attempted(trace[n - 1], trace[n - 1 + 1], operation_id, table));
        attempt_keeps_filing(before, trace[n], operation_id, table);
        attempts_announce_nothing(before, trace[n], operation_id, table);
        if is_calm(trace[0], scope) || table is ChildTask {
            if announced(before, operation_id, table) is Ok {
                turn_takes_a_row_in_scope(
                    appends(trace[0], table),
                    appends(before, table),
                    scope,
                    order[n - 1] as int,
                );
                let place = first(appends(before, table), is_append(operation_id))->0;
                let row = appends(before, table)[place];
                assert(appends(before, table).contains(row));
                assert(leaves_work(held(row))) by {
                    if table is ChildTask {
                        assert(before.child_body_appends@.contains(row));
                    } else {
                        assert(before.body_appends@.contains(row));
                    }
                }
            }
            attempt_leaves_work(before, trace[n], operation_id, table);
        }
    }
}

/// Recovering appends none of which starts or ends a run leaves work as it was.
pub proof fn append_recovery_leaves_work(
    before: StorageEngine,
    after: StorageEngine,
    scope: Option<String>,
    table: AppendTable,
    unavailable: Seq<String>,
)
    requires
        is_keyed(before),
        is_filed(before),
        appends_recovered(before, after, scope, table, unavailable),
    ensures
        is_filed(after),
        is_calm(before, scope) ==> is_calm(after, scope),
        is_calm(before, scope) || table is ChildTask ==> same_work(before, after),
        table is ChildTask ==> after.body_appends@ == before.body_appends@,
{
    let rows = kept(appends(before, table), in_scope(scope));
    let (order, trace) = choose|order: Seq<usize>, trace: Seq<StorageEngine>| #[trigger]
        completes_in_turn(rows, table, order, trace) && trace[0] == before && trace.last()
            == after && unavailable == failed_owners(
            rows,
            table,
            order,
            trace,
            order.len() as int,
        );
    turns_leave_work(rows, scope, table, order, trace, order.len() as int);
}

proof fn committing_leaves_work(
    before: StorageEngine,
    after: StorageEngine,
    operation_id: String,
    row: PendingExchange,
    ready: ReadyExchange,
    completed_at_ms: i64,
    outcome: Result<CommittedBatch, Refusal>,
)
    requires
        is_filed(before),
        exchange_committed(before, after, operation_id, row, ready, completed_at_ms, outcome),
    ensures
        is_filed(after),
        forall|scope: Option<String>| #[trigger] is_calm(before, scope) ==> is_calm(after, scope),
        same_work(before, after),
{
    let target = conversation_target(row.target);
    let batch = exchange_batch(row.assistant, ready);
    let purpose = exchange_purpose(row.target, row.receipt_id, ready);
    if staging_refusal(before, operation_id@, target, batch) is None {
        let announcing = choose|announcing: StorageEngine| #[trigger]
            staged(
                before,
                announcing,
                operation_id,
                target,
                batch,
                row.step,
                completed_at_ms,
                purpose,
            ) && attempted(announcing, after, operation_id@, table_of(target));
        let table = table_of(target);
        let rows = appends(before, table);
        let longer = appends(announcing, table);
        let added = longer.last();
        assert(longer =~= rows.push(added));
        assert(held(added).target == target);
        assert(held(held(added).purpose) == purpose);
        assert(leaves_work(held(added)));
        assert forall|other: Arc<StagedAppend>| #[trigger] longer.contains(other) implies other
            == added || rows.contains(other) by {
            let i = longer.index_of(other);
            if i < rows.len() {
                assert(rows[i] == other);
            }
        }
        match table {
            AppendTable::Session => {
                assert(longer == announcing.body_appends@);
                assert(rows == before.body_appends@);
            },
            AppendTable::ChildTask => {
                assert(longer == announcing.child_body_appends@);
                assert(rows == before.child_body_appends@);
            },
        }
        assert(is_filed(announcing));
        assert forall|scope: Option<String>| #[trigger] is_calm(before, scope) implies is_calm(
            announcing,
            scope,
        ) by {
            assert forall|other: Arc<StagedAppend>| #[trigger]
                announcing.body_appends@.contains(other) && in_scope(scope)(
                    other,
                ) implies leaves_work(held(other)) by {
                if other != added {
                    assert(before.body_appends@.contains(other));
                }
            }
        }
        let last = rows.len() as int;
        assert forall|i: int| 0 <= i < last implies !is_append(operation_id@)(
            #[trigger] longer[i],
        ) by {
            assert(longer[i] == rows[i]);
            if is_append(operation_id@)(rows[i]) {
                assert(some_row(rows, is_append(operation_id@)));
            }
        }
        first_is(longer, is_append(operation_id@), last);
        attempt_leaves_work(announcing, after, operation_id@, table);
        attempt_keeps_filing(announcing, after, operation_id@, table);
    }
}

proof fn committing_ready_results_leaves_work(
    before: StorageEngine,
    after: StorageEngine,
    row: PendingExchange,
    ready: ReadyExchange,
    clock: Result<i64, Refusal>,
    outcome: Result<CommittedBatch, Refusal>,
)
    requires
        is_filed(before),
        ready_committed(before, after, row, ready, clock, outcome),
    ensures
        is_filed(after),
        forall|scope: Option<String>| #[trigger] is_calm(before, scope) ==> is_calm(after, scope),
        same_work(before, after),
{
    if after != before {
        let now = clock->Ok_0;
        assert(committed_at(before, after, row, ready, now, outcome));
        let operation_id = choose|operation_id: String|
            operation_id@ == "recover-"@ + row.receipt_id@ && #[trigger] exchange_committed(
                before,
                after,
                operation_id,
                row,
                ready,
                now,
                outcome,
            );
        committing_leaves_work(before, after, operation_id, row, ready, now, outcome);
    }
}

proof fn recovering_an_exchange_leaves_work<E: Fn(&ConversationMessage) -> Vec<u8>>(
    before: StorageEngine,
    after: StorageEngine,
    receipt_id: Seq<char>,
    table: PendingTable,
    clock: Result<i64, Refusal>,
    encode: E,
    outcome: Result<CommittedBatch, Refusal>,
)
    requires
        is_filed(before),
        exchange_recovered(before, after, receipt_id, table, clock, encode, outcome),
    ensures
        is_filed(after),
        forall|scope: Option<String>| #[trigger] is_calm(before, scope) ==> is_calm(after, scope),
        same_work(before, after),
{
    if after != before {
        let row = loaded(before, receipt_id, table)->Ok_0;
        if row.state is Begun {
            let (ready, prepared) = choose|ready: Arc<ReadyExchange>, prepared: StorageEngine|
                #[trigger] readied(before, prepared, receipt_id, table, ready) && recovered_ready(
                    before,
                    row,
                    table,
                    *ready,
                    encode,
                ) && ready_committed(prepared, after, row, *ready, clock, outcome);
            assert forall|scope: Option<String>| #[trigger] is_calm(before, scope) implies is_calm(
                after,
                scope,
            ) by {
                assert(is_calm(prepared, scope));
                committing_ready_results_leaves_work(
                    prepared,
                    after,
                    row,
                    held(ready),
                    clock,
                    outcome,
                );
            }
            committing_ready_results_leaves_work(
                prepared,
                after,
                row,
                held(ready),
                clock,
                outcome,
            );
        } else {
            committing_ready_results_leaves_work(
                before,
                after,
                row,
                held(row.ready->0),
                clock,
                outcome,
            );
        }
    }
}

proof fn exchange_turns_leave_work<E: Fn(&ConversationMessage) -> Vec<u8>>(
    rows: Seq<Arc<PendingExchange>>,
    table: PendingTable,
    encode: E,
    order: Seq<usize>,
    trace: Seq<StorageEngine>,
    failures: Seq<bool>,
    scope: Option<String>,
    n: int,
)
    requires
        exchanges_in_turn(rows, table, encode, order, trace, failures),
        is_filed(trace[0]),
        0 <= n <= order.len(),
    ensures
        is_filed(trace[n]),
        is_calm(trace[0], scope) ==> is_calm(trace[n], scope),
        same_work(trace[0], trace[n]),
    decreases n,
{
    if n > 0 {
        exchange_turns_leave_work(rows, table, encode, order, trace, failures, scope, n - 1);
        let receipt_id = rows[order[n - 1] as int].receipt_id@;
        assert(exchange_attempted(
            trace[n - 1],
            trace[n - 1 + 1],
            receipt_id,
            table,
            encode,
            failures[n - 1],
        ));
        let (elapsed, outcome) = choose|
            elapsed: Option<u128>,
            outcome: Result<CommittedBatch, Refusal>,
        | #[trigger]
            exchange_recovered(
                trace[n - 1],
                trace[n],
                receipt_id,
                table,
                time_told(elapsed),
                encode,
                outcome,
            ) && failures[n - 1] == (outcome is Err);
        recovering_an_exchange_leaves_work(
            trace[n - 1],
            trace[n],
            receipt_id,
            table,
            time_told(elapsed),
            encode,
            outcome,
        );
    }
}

/// Recovering exchanges leaves work as it was.
pub proof fn exchange_recovery_leaves_work<E: Fn(&ConversationMessage) -> Vec<u8>>(
    before: StorageEngine,
    after: StorageEngine,
    scope: Option<String>,
    table: PendingTable,
    encode: E,
    unavailable: Seq<String>,
)
    requires
        is_filed(before),
        exchanges_recovered(before, after, scope, table, encode, unavailable),
    ensures
        is_filed(after),
        is_calm(before, scope) ==> is_calm(after, scope),
        same_work(before, after),
{
    let rows = kept(exchanges(before, table), exchange_in_scope(scope));
    let (order, trace, failures) = choose|
        order: Seq<usize>,
        trace: Seq<StorageEngine>,
        failures: Seq<bool>,
    | #[trigger]
        exchanges_in_turn(rows, table, encode, order, trace, failures) && trace[0] == before
            && trace.last() == after && unavailable == failing_owners(rows, order, failures);
    exchange_turns_leave_work(
        rows,
        table,
        encode,
        order,
        trace,
        failures,
        scope,
        order.len() as int,
    );
}

proof fn change_turns_leave_work(
    rows: Seq<HistoryOperationRow>,
    found: FoundFiles,
    order: Seq<usize>,
    trace: Seq<StorageEngine>,
    open: Seq<bool>,
    n: int,
)
    requires
        changes_in_turn(rows, found, order, trace, open),
        0 <= n <= open.len(),
    ensures
        trace[n].body_appends == trace[0].body_appends,
        trace[n].child_body_appends == trace[0].child_body_appends,
        trace[n].pending_exchanges == trace[0].pending_exchanges,
        trace[n].child_pending_exchanges == trace[0].child_pending_exchanges,
        same_work(trace[0], trace[n]),
    decreases n,
{
    if n > 0 {
        change_turns_leave_work(rows, found, order, trace, open, n - 1);
        assert(change_recovered(
            trace[n - 1],
            trace[n - 1 + 1],
            rows[order[n - 1] as int],
            found,
            Ok::<_, Refusal>(open[n - 1]),
        ));
    }
}

/// Bringing changes of histories to an end leaves work, and what is announced and pending, as it
/// was.
pub proof fn history_recovery_leaves_work(
    before: StorageEngine,
    after: StorageEngine,
    scope: Option<String>,
    found: FoundFiles,
    outcome: Result<Seq<String>, Refusal>,
)
    requires
        changes_recovered(before, after, scope, found, outcome),
    ensures
        after.body_appends == before.body_appends,
        after.child_body_appends == before.child_body_appends,
        after.pending_exchanges == before.pending_exchanges,
        after.child_pending_exchanges == before.child_pending_exchanges,
        same_work(before, after),
{
    let rows = kept(before.history_operations@, is_unsettled(scope));
    if all_readable(rows) {
        let (order, trace, open) = choose|
            order: Seq<usize>,
            trace: Seq<StorageEngine>,
            open: Seq<bool>,
        | #[trigger]
            changes_in_turn(rows, found, order, trace, open) && trace[0] == before
                && trace.last() == after;
        change_turns_leave_work(rows, found, order, trace, open, open.len() as int);
    }
}

/// Texts that are added to a list are in it.
pub proof fn added_texts_are_listed(list: Seq<String>, more: Seq<String>, text: Seq<char>)
    ensures
        lists(list, text) || lists(more, text) ==> lists(with_texts(list, more), text),
    decreases more.len(),
{
    if more.len() > 0 {
        let fewer = more.drop_last();
        let earlier = with_texts(list, fewer);
        added_texts_are_listed(list, fewer, text);
        let all = with_text(earlier, more.last());
        if lists(earlier, text) {
            let i = choose|i: int| 0 <= i < earlier.len() && (#[trigger] earlier[i])@ == text;
            assert(all[i]@ == text);
        }
        if lists(more, text) && !lists(fewer, text) {
            let i = choose|i: int| 0 <= i < more.len() && (#[trigger] more[i])@ == text;
            if i < fewer.len() {
                assert(fewer[i]@ == text);
            }
            if !lists(earlier, text) {
                assert(all[earlier.len() as int]@ == text);
            }
        }
    }
}

/// Appends that failed have their session listed.
proof fn failures_name_the_session(
    rows: Seq<Arc<StagedAppend>>,
    order: Seq<usize>,
    trace: Seq<StorageEngine>,
    session_id: Seq<char>,
    n: int,
)
    requires
        0 <= n <= order.len(),
        forall|k: int|
            0 <= k < order.len() ==> {
                let row = rows[#[trigger] order[k] as int];
                row.target is Session && session_of(row.target)@ == session_id
            },
    ensures
        ({
            let owners = failed_owners(rows, AppendTable::Session, order, trace, n);
            forall|i: int| 0 <= i < owners.len() ==> (#[trigger] owners[i])@ == session_id
        }),
    decreases n,
{
    if n > 0 {
        failures_name_the_session(rows, order, trace, session_id, n - 1);
        let row = rows[order[n - 1] as int];
        let earlier = failed_owners(rows, AppendTable::Session, order, trace, n - 1);
        let owners = failed_owners(rows, AppendTable::Session, order, trace, n);
        let owner = append_owner(held(row).target);
        assert(owner@ == session_id);
        assert(owners == earlier || owners == earlier.push(owner));
        assert forall|i: int| 0 <= i < owners.len() implies (#[trigger] owners[i])@ == session_id by {
            if i < earlier.len() {
                assert(owners[i] == earlier[i]);
            }
        }
    }
}

/// Where no append of a session failed, none is announced any more.
pub proof fn available_session_is_calm(
    before: StorageEngine,
    after: StorageEngine,
    session_id: String,
    unavailable: Seq<String>,
)
    requires
        is_filed(before),
        appends_recovered(before, after, Some(session_id), AppendTable::Session, unavailable),
        !lists(unavailable, session_id@),
    ensures
        is_calm(after, Some(session_id)),
        !some_row(after.body_appends@, in_scope(Some(session_id))),
{
    let scope = Some(session_id);
    let table = AppendTable::Session;
    let rows = kept(appends(before, table), in_scope(scope));
    let (order, trace) = choose|order: Seq<usize>, trace: Seq<StorageEngine>| #[trigger]
        completes_in_turn(rows, table, order, trace) && trace[0] == before && trace.last()
            == after && unavailable == failed_owners(
            rows,
            table,
            order,
            trace,
            order.len() as int,
        );
    kept_rows(appends(before, table), in_scope(scope));
    assert forall|k: int| 0 <= k < order.len() implies {
        let row = rows[#[trigger] order[k] as int];
        row.target is Session && session_of(row.target)@ == session_id@
    } by {
        let row = rows[order[k] as int];
        assert(in_scope(scope)(row));
        assert(rows.contains(row));
        assert(before.body_appends@.contains(row));
    }
    failures_name_the_session(rows, order, trace, session_id@, order.len() as int);
    if unavailable.len() > 0 {
        assert(unavailable[0]@ == session_id@);
    }
    assert(unavailable =~= Seq::empty());
    completed_recovery_leaves_nothing_announced(before, after, scope, table);
    assert forall|row: Arc<StagedAppend>| #[trigger]
        after.body_appends@.contains(row) && in_scope(scope)(row) implies leaves_work(
        held(row),
    ) by {
        let i = after.body_appends@.index_of(row);
        assert(in_scope(scope)(appends(after, table)[i]));
    }
}

/// Mending a session leaves goals, inputs and runs as they were where no start or end of a run was
/// interrupted; and where the session is available afterwards, none is interrupted any more.
pub proof fn mending_leaves_work<E: Fn(&ConversationMessage) -> Vec<u8>>(
    before: StorageEngine,
    steps: MendingSteps,
    after: StorageEngine,
    session_id: String,
    found: FoundFiles,
    encode: E,
    result: StorageResult<MendedSession>,
)
    requires
        is_keyed(before),
        is_filed(before),
        session_mended(before, steps, after, session_id, found, encode, result),
        steps.directories is Ok,
        result is Ok,
    ensures
        is_filed(after),
        is_calm(before, Some(session_id)) ==> same_work(before, after),
        is_calm(before, Some(session_id)) || !lists(after.unavailable_sessions@, session_id@)
            ==> is_calm(after, Some(session_id)),
{
    let scope = Some(session_id);
    placing_resources_keeps_keys(
            before,
            steps.repaired,
            scope,
            steps.directory_order,
            steps.directories,
        );
    history_recovery_keeps_keys(
        steps.repaired,
        steps.settled,
        scope,
        found,
        Ok::<Seq<String>, Refusal>(steps.uncleaned),
    );
    history_recovery_leaves_work(
        steps.repaired,
        steps.settled,
        scope,
        found,
        Ok::<Seq<String>, Refusal>(steps.uncleaned),
    );
    assert(is_filed(steps.settled));
    assert(is_calm(before, scope) ==> is_calm(steps.settled, scope));
    append_recovery_leaves_work(
        steps.settled,
        steps.appended,
        scope,
        AppendTable::Session,
        steps.failed_appends,
    );
    append_recovery_keeps_keys(
        steps.settled,
        steps.appended,
        scope,
        AppendTable::Session,
        steps.failed_appends,
    );
    if !lists(after.unavailable_sessions@, session_id@) {
        let open = kept(steps.exchanged.unavailable_sessions@, is_other_text(session_id@));
        added_texts_are_listed(open, steps.failed_appends, session_id@);
        added_texts_are_listed(
            with_texts(open, steps.failed_appends),
            steps.failed_exchanges,
            session_id@,
        );
        available_session_is_calm(
            steps.settled,
            steps.appended,
            session_id,
            steps.failed_appends,
        );
    }
    append_recovery_leaves_work(
        steps.appended,
        steps.tasks_appended,
        scope,
        AppendTable::ChildTask,
        steps.failed_task_appends,
    );
    assert(is_calm(steps.appended, scope) ==> is_calm(steps.tasks_appended, scope));
    exchange_recovery_leaves_work(
        steps.tasks_appended,
        steps.tasks_exchanged,
        scope,
        PendingTable::ChildTask,
        encode,
        steps.failed_task_exchanges,
    );
    assert(is_filed(steps.tasks_ended));
    assert(is_calm(steps.tasks_exchanged, scope) ==> is_calm(steps.tasks_ended, scope));
    exchange_recovery_leaves_work(
        steps.tasks_ended,
        steps.exchanged,
        scope,
        PendingTable::Run,
        encode,
        steps.failed_exchanges,
    );
    assert(is_calm(steps.exchanged, scope) ==> is_calm(after, scope));
}

/// Where a session is available and can go on, its goals wait for their users once it is taken up,
/// and no run is there that was not there before.
proof fn taking_up_pauses_goals(
    before: StorageEngine,
    steps: TakingUpSteps,
    after: StorageEngine,
    session_id: String,
    mended: MendedSession,
    diagnostic: bool,
    result: StorageResult<LoadedSession>,
)
    requires
        session_taken_up(before, steps, after, session_id, mended, diagnostic, result),
        !lists(steps.judged.unavailable_sessions@, session_id@),
        !some_row(before.goals@, is_exhausted(Some(session_id))),
    ensures
        after.goals@ == before.goals@.map_values(
            |goal: StoredGoal| after_restart(Some(session_id), goal),
        ),
        forall|i: int|
            0 <= i < after.runs@.len() ==> before.runs@.contains(#[trigger] after.runs@[i]),
        is_filed(before) ==> is_filed(after),
        is_calm(before, Some(session_id)) ==> is_calm(after, Some(session_id)),
        !some_row(before.goals@, runs_in(Some(session_id))) ==> same_work(before, after),
{
    let scope = Some(session_id);
    let judged = steps.judged;
    let paused = steps.paused;
    let goals = running_goals(judged.goals@, scope);
    let gone = stale_continuations(judged.inputs@, goals);
    let cut = choose|cut: StorageEngine| #[trigger]
        inputs_removed(judged, cut, gone) && paused == (StorageEngine {
            goals: paused.goals,
            ..cut
        }) && paused.goals@ == judged.goals@.map_values(
            |goal: StoredGoal| after_restart(scope, goal),
        );
    kept_rows(judged.runs@, run_out(gone));
    assert forall|i: int| 0 <= i < after.runs@.len() implies before.runs@.contains(
        #[trigger] after.runs@[i],
    ) by {
        assert(kept(judged.runs@, run_out(gone)).contains(after.runs@[i]));
    }
    let runs = runs_of(judged.runs@, gone);
    kept_rows(judged.body_appends@, append_out(runs));
    kept_rows(
        judged.child_body_appends@,
        append_out(children_of(judged.child_tasks@, runs)),
    );
    if !some_row(before.goals@, runs_in(scope)) {
        kept_rows(judged.goals@, runs_in(scope));
        let running = kept(judged.goals@, runs_in(scope));
        if running.len() > 0 {
            assert(running.contains(running[0]));
            let i = judged.goals@.index_of(running[0]);
            assert(runs_in(scope)(judged.goals@[i]));
        }
        assert(goals =~= Seq::empty());
        kept_rows(judged.inputs@, is_stale_continuation(goals));
        let stale = kept(judged.inputs@, is_stale_continuation(goals));
        if stale.len() > 0 {
            assert(is_stale_continuation(goals)(stale[0]));
        }
        assert(gone =~= Seq::empty());
        all_rows_kept(judged.inputs@, input_out(gone));
        all_rows_kept(judged.runs@, run_out(gone));
        assert(after.goals@ =~= before.goals@) by {
            assert forall|i: int| 0 <= i < before.goals@.len() implies #[trigger] after.goals@[i]
                == before.goals@[i] by {
                assert(!runs_in(scope)(before.goals@[i]));
            }
        }
    }
}

/// Once a session is mended and taken up after a restart, each of its goals that ran waits for its
/// user, at the next generation, and the other goals are as they were. No run is there that was
/// not there before.
pub proof fn goals_wait_after_a_restart<E: Fn(&ConversationMessage) -> Vec<u8>>(
    before: StorageEngine,
    mending: MendingSteps,
    repaired: StorageEngine,
    steps: TakingUpSteps,
    after: StorageEngine,
    session_id: String,
    found: FoundFiles,
    encode: E,
    mended: MendedSession,
    diagnostic: bool,
    result: StorageResult<LoadedSession>,
)
    requires
        is_keyed(before),
        is_filed(before),
        is_calm(before, Some(session_id)),
        mending.directories is Ok,
        session_mended(before, mending, repaired, session_id, found, encode, Ok(mended)),
        session_taken_up(repaired, steps, after, session_id, mended, diagnostic, result),
        !lists(steps.judged.unavailable_sessions@, session_id@),
        !some_row(before.goals@, is_exhausted(Some(session_id))),
    ensures
        after.goals@ == before.goals@.map_values(
            |goal: StoredGoal| after_restart(Some(session_id), goal),
        ),
        forall|i: int|
            0 <= i < after.runs@.len() ==> before.runs@.contains(#[trigger] after.runs@[i]),
{
    mending_leaves_work(before, mending, repaired, session_id, found, encode, Ok(mended));
    taking_up_pauses_goals(repaired, steps, after, session_id, mended, diagnostic, result);
}

/// A session that is mended and taken up again is left as it was: its goals wait at the generation
/// that they had reached, and no input is queued and no run started or ended.
pub proof fn goals_wait_only_once<E: Fn(&ConversationMessage) -> Vec<u8>>(
    before: StorageEngine,
    mending: MendingSteps,
    repaired: StorageEngine,
    steps: TakingUpSteps,
    taken_up: StorageEngine,
    again: MendingSteps,
    repaired_again: StorageEngine,
    steps_again: TakingUpSteps,
    after: StorageEngine,
    session_id: String,
    found: FoundFiles,
    encode: E,
    mended: MendedSession,
    mended_again: MendedSession,
    diagnostic: bool,
    result: StorageResult<LoadedSession>,
    result_again: StorageResult<LoadedSession>,
)
    requires
        is_keyed(before),
        is_filed(before),
        mending.directories is Ok,
        again.directories is Ok,
        session_mended(before, mending, repaired, session_id, found, encode, Ok(mended)),
        session_taken_up(repaired, steps, taken_up, session_id, mended, diagnostic, result),
        !lists(repaired.unavailable_sessions@, session_id@),
        !lists(steps.judged.unavailable_sessions@, session_id@),
        !some_row(repaired.goals@, is_exhausted(Some(session_id))),
        session_mended(
            taken_up,
            again,
            repaired_again,
            session_id,
            found,
            encode,
            Ok(mended_again),
        ),
        session_taken_up(
            repaired_again,
            steps_again,
            after,
            session_id,
            mended_again,
            diagnostic,
            result_again,
        ),
        !lists(steps_again.judged.unavailable_sessions@, session_id@),
    ensures
        same_work(taken_up, after),
{
    let scope = Some(session_id);
    mending_leaves_work(before, mending, repaired, session_id, found, encode, Ok(mended));
    mending_keeps_keys(before, mending, repaired, session_id, found, encode, Ok(mended));
    taking_up_pauses_goals(repaired, steps, taken_up, session_id, mended, diagnostic, result);
    taking_up_keeps_keys(repaired, steps, taken_up, session_id, mended, diagnostic, result);
    mending_leaves_work(
        taken_up,
        again,
        repaired_again,
        session_id,
        found,
        encode,
        Ok(mended_again),
    );
    assert(!some_row(taken_up.goals@, runs_in(scope))) by {
        assert forall|i: int| 0 <= i < taken_up.goals@.len() implies !runs_in(scope)(
            #[trigger] taken_up.goals@[i],
        ) by {
            assert(taken_up.goals@[i] == after_restart(scope, repaired.goals@[i]));
        }
    }
    assert(!some_row(repaired_again.goals@, is_exhausted(scope))) by {
        assert forall|i: int| 0 <= i < repaired_again.goals@.len() implies !is_exhausted(scope)(
            #[trigger] repaired_again.goals@[i],
        ) by {
            assert(!runs_in(scope)(taken_up.goals@[i]));
        }
    }
    taking_up_pauses_goals(
        repaired_again,
        steps_again,
        after,
        session_id,
        mended_again,
        diagnostic,
        result_again,
    );
}

} // verus!
