//! A session that was mended has nothing left to mend.

use std::sync::Arc;
use vstd::prelude::*;

use crate::append_effect::{
    has_other_receipt, purpose_applied, purpose_tables, AppendPurpose, ConversationStorageTarget,
    StagedAppend,
};
use crate::cascade::{append_out, children_of, exchange_out, inputs_removed, runs_of};
use crate::engine::StorageEngine;
use crate::error::{Refusal, StorageResult};
use crate::exchange_recovery::{
    committed_at, exchange_attempted, exchange_in_scope, exchange_keys, exchange_owner,
    exchange_recovered, exchange_session, exchanges_in_turn, exchanges_recovered, failing_owners,
    ready_committed, recovered_ready,
};
use crate::goal::{goals_paused, running_goals, stale_continuations};
use crate::history_recovery::FoundFiles;
use crate::key_laws::append_recovery_keeps_keys;
use crate::keys::is_keyed;
use crate::message::{held, ConversationMessage};
use crate::order::{every_place_has_its_turn, is_order};
use crate::recovery::{
    announced, appends, appends_recovered, attempted, completes_in_turn, completion_refusal,
    failed_owners, finalization_refusal, in_scope, is_append, is_other_append, staged,
    staging_refusal, table_of, written, AppendTable, CommittedBatch,
};
use crate::restart_laws::{
    added_texts_are_listed, append_recovery_leaves_work, available_session_is_calm,
    history_recovery_leaves_work, is_filed, mending_leaves_work,
};
use crate::run_state::time_told;
use crate::session_history::is_other_text;
use crate::session_loading::{
    session_mended, session_taken_up, LoadedSession, MendedSession, MendingSteps, TakingUpSteps,
};
use crate::startup_laws::{
    history_recovery_keeps_keys, mending_keeps_keys, placing_resources_keeps_keys,
    taking_up_keeps_keys,
};
use crate::table::{first, first_is, first_is_found, kept, kept_rows, some_row};
use crate::text::{lists, with_texts};
use crate::tool_exchange::{
    begin_refusal, conversation_target, exchange_batch, exchange_begun, exchange_committed,
    exchange_purpose, exchange_refusal, exchanges, is_exchange, loaded, pending_table, readied,
    NewExchange, PendingExchange, PendingTable, PendingTarget, ReadyExchange,
};

verus! {

/// All exchanges have receipts and targets of a kind.
pub open spec fn all_of(
    rows: Seq<Arc<PendingExchange>>,
    condition: spec_fn(Seq<char>, PendingTarget) -> bool,
) -> bool {
    forall|row: Arc<PendingExchange>| #[trigger]
        rows.contains(row) ==> condition(row.receipt_id@, row.target)
}

/// The condition of an exchange's being that of a run.
pub open spec fn is_of_run() -> spec_fn(Seq<char>, PendingTarget) -> bool {
    |receipt: Seq<char>, target: PendingTarget| target is Run
}

/// The condition of an exchange's being that of a delegated task.
pub open spec fn is_of_task() -> spec_fn(Seq<char>, PendingTarget) -> bool {
    |receipt: Seq<char>, target: PendingTarget| target is ChildTask
}

/// The condition of an exchange's having another receipt.
pub open spec fn differs_from(receipt_id: Seq<char>) -> spec_fn(Seq<char>, PendingTarget) -> bool {
    |receipt: Seq<char>, target: PendingTarget| receipt != receipt_id
}

/// Whatever holds of all exchanges still holds of them.
pub open spec fn adds_no_exchange(
    before: Seq<Arc<PendingExchange>>,
    after: Seq<Arc<PendingExchange>>,
) -> bool {
    forall|condition: spec_fn(Seq<char>, PendingTarget) -> bool| #[trigger]
        all_of(before, condition) ==> all_of(after, condition)
}

/// No append is announced that was not announced before.
pub open spec fn announces_nothing(before: StorageEngine, after: StorageEngine) -> bool {
    forall|row: Arc<StagedAppend>| #[trigger]
        after.body_appends@.contains(row) ==> before.body_appends@.contains(row)
}

proof fn fewer_exchanges(
    rows: Seq<Arc<PendingExchange>>,
    condition: spec_fn(Arc<PendingExchange>) -> bool,
)
    ensures
        adds_no_exchange(rows, kept(rows, condition)),
{
    kept_rows(rows, condition);
}

proof fn attempt_adds_no_exchange(
    before: StorageEngine,
    after: StorageEngine,
    operation_id: Seq<char>,
    table: AppendTable,
)
    requires
        attempted(before, after, operation_id, table),
    ensures
        adds_no_exchange(before.pending_exchanges@, after.pending_exchanges@),
        adds_no_exchange(before.child_pending_exchanges@, after.child_pending_exchanges@),
{
    if written(before, operation_id, table) is Ok && finalization_refusal(
        before,
        operation_id,
        table,
    ) is None {
        let row = announced(before, operation_id, table)->Ok_0;
        let reached = StorageEngine { files: after.files, ..before };
        assert(purpose_tables(reached) == purpose_tables(before));
        let purpose = purpose_applied(
            purpose_tables(before),
            row.target,
            held(row.purpose),
            row.created_at_ms,
        );
        assert(purpose_tables(after).exchanges == purpose.exchanges);
        assert(purpose_tables(after).child_exchanges == purpose.child_exchanges);
        match (row.target, held(row.purpose)) {
            (
                ConversationStorageTarget::Session { session_id, run_id },
                AppendPurpose::ToolExchange { receipt_id, skill_activations },
            ) => {
                fewer_exchanges(before.pending_exchanges@, has_other_receipt(receipt_id@));
            },
            (
                ConversationStorageTarget::ChildTask { session_id, child_task_id },
                AppendPurpose::ChildToolExchange { receipt_id },
            ) => {
                fewer_exchanges(before.child_pending_exchanges@, has_other_receipt(receipt_id@));
            },
            _ => {},
        }
    }
}

proof fn readying_adds_no_exchange(
    before: StorageEngine,
    after: StorageEngine,
    receipt_id: Seq<char>,
    table: PendingTable,
    ready: Arc<ReadyExchange>,
)
    requires
        loaded(before, receipt_id, table) is Ok,
        readied(before, after, receipt_id, table, ready),
    ensures
        adds_no_exchange(before.pending_exchanges@, after.pending_exchanges@),
        adds_no_exchange(before.child_pending_exchanges@, after.child_pending_exchanges@),
{
    let rows = exchanges(before, table);
    let next = exchanges(after, table);
    first_is_found(rows, is_exchange(receipt_id));
    let place = first(rows, is_exchange(receipt_id))->0;
    assert(rows.contains(rows[place]));
    assert forall|condition: spec_fn(Seq<char>, PendingTarget) -> bool| #[trigger]
        all_of(rows, condition) implies all_of(next, condition) by {
        assert forall|row: Arc<PendingExchange>| #[trigger] next.contains(row) implies condition(
            held(row).receipt_id@,
            held(row).target,
        ) by {
            let i = next.index_of(row);
            assert(rows.contains(rows[i]));
            if i == place {
                assert(held(next[place]).receipt_id == held(rows[place]).receipt_id);
                assert(held(next[place]).target == held(rows[place]).target);
            } else {
                assert(next[i] == rows[i]);
            }
        }
    }
    assert(adds_no_exchange(rows, next));
}

/// Handing the messages of an exchange to the conversation: what becomes of what is announced and
/// pending.
proof fn committing_leaves_nothing(
    before: StorageEngine,
    after: StorageEngine,
    operation_id: String,
    row: PendingExchange,
    ready: ReadyExchange,
    completed_at_ms: i64,
    outcome: Result<CommittedBatch, Refusal>,
)
    requires
        exchange_committed(before, after, operation_id, row, ready, completed_at_ms, outcome),
    ensures
        adds_no_exchange(before.pending_exchanges@, after.pending_exchanges@),
        adds_no_exchange(before.child_pending_exchanges@, after.child_pending_exchanges@),
        row.target is ChildTask || outcome is Ok ==> announces_nothing(before, after),
        row.target is Run && outcome is Ok ==> all_of(
            after.pending_exchanges@,
            differs_from(row.receipt_id@),
        ),
{
    let target = conversation_target(row.target);
    let batch = exchange_batch(row.assistant, ready);
    let purpose = exchange_purpose(row.target, row.receipt_id, ready);
    let table = table_of(target);
    if staging_refusal(before, operation_id@, target, batch) is None {
        let announcing = choose|announcing: StorageEngine| #[trigger]
            staged(
                before,
                announcing,
                operation_id,
                target,
                batch,
                row.step,
                completed_at_ms,
                purpose,
            ) && attempted(announcing, after, operation_id@, table_of(target)) && (outcome is Ok
                ==> completion_refusal(announcing, operation_id@, table_of(target)) is None);
        attempt_adds_no_exchange(announcing, after, operation_id@, table);
        let rows = appends(before, table);
        let longer = appends(announcing, table);
        let added = longer.last();
        assert(longer =~= rows.push(added));
        assert(held(added).operation_id@ == operation_id@);
        assert(held(added).target == target);
        assert(held(held(added).purpose) == purpose);
        if outcome is Ok {
            let last = rows.len() as int;
            assert forall|i: int| 0 <= i < last implies !is_append(operation_id@)(
                #[trigger] longer[i],
            ) by {
                assert(longer[i] == rows[i]);
                if is_append(operation_id@)(rows[i]) {
                    assert(some_row(rows, is_append(operation_id@)));
                }
            }
            first_is(longer, is_append(operation_id@), last);
            kept_rows(longer, is_other_append(operation_id@));
            let left = kept(longer, is_other_append(operation_id@));
            assert(appends(after, table) == left);
            assert forall|other: Arc<StagedAppend>| #[trigger] left.contains(
                other,
            ) implies rows.contains(other) by {
                let k = left.index_of(other);
                assert(is_other_append(operation_id@)(left[k]));
                assert(longer.contains(other));
                let i = longer.index_of(other);
                assert(i < last);
                assert(rows[i] == other);
            }
            if row.target is Run {
                let reached = StorageEngine { files: after.files, ..announcing };
                assert(purpose_tables(reached) == purpose_tables(announcing));
                let others = has_other_receipt(row.receipt_id@);
                assert(purpose_tables(after).exchanges == kept(
                    announcing.pending_exchanges@,
                    others,
                ));
                kept_rows(announcing.pending_exchanges@, others);
                assert forall|other: Arc<PendingExchange>| #[trigger]
                    after.pending_exchanges@.contains(other) implies held(other).receipt_id@
                    != row.receipt_id@ by {
                    let k = after.pending_exchanges@.index_of(other);
                    assert(others(kept(announcing.pending_exchanges@, others)[k]));
                }
            }
        }
    }
}

proof fn committing_ready_results_leaves_nothing(
    before: StorageEngine,
    after: StorageEngine,
    row: PendingExchange,
    ready: ReadyExchange,
    clock: Result<i64, Refusal>,
    outcome: Result<CommittedBatch, Refusal>,
)
    requires
        ready_committed(before, after, row, ready, clock, outcome),
    ensures
        adds_no_exchange(before.pending_exchanges@, after.pending_exchanges@),
        adds_no_exchange(before.child_pending_exchanges@, after.child_pending_exchanges@),
        row.target is ChildTask || outcome is Ok ==> announces_nothing(before, after),
        row.target is Run && outcome is Ok ==> all_of(
            after.pending_exchanges@,
            differs_from(row.receipt_id@),
        ),
{
    if exchange_refusal(row.assistant, ready.results@) is None && clock is Ok {
        let now = clock->Ok_0;
        assert(committed_at(before, after, row, ready, now, outcome));
        let operation_id = choose|operation_id: String|
            operation_id@ == "recover-"@ + row.receipt_id@ && #[trigger] exchange_committed(
                before,
                after,
                operation_id,
                row,
                ready,
                now,
                outcome,
            );
        committing_leaves_nothing(before, after, operation_id, row, ready, now, outcome);
    }
}

/// Recovering an exchange: what becomes of what is announced and pending.
proof fn recovering_an_exchange_leaves_nothing<E: Fn(&ConversationMessage) -> Vec<u8>>(
    before: StorageEngine,
    after: StorageEngine,
    receipt_id: Seq<char>,
    table: PendingTable,
    clock: Result<i64, Refusal>,
    encode: E,
    outcome: Result<CommittedBatch, Refusal>,
)
    requires
        exchange_recovered(before, after, receipt_id, table, clock, encode, outcome),
        table is Run ==> all_of(
            before.pending_exchanges@,
            is_of_run(),
        ),
        table is ChildTask ==> all_of(
            before.child_pending_exchanges@,
            is_of_task(),
        ),
    ensures
        adds_no_exchange(before.pending_exchanges@, after.pending_exchanges@),
        adds_no_exchange(before.child_pending_exchanges@, after.child_pending_exchanges@),
        table is ChildTask || outcome is Ok ==> announces_nothing(before, after),
        table is Run && outcome is Ok ==> all_of(
            after.pending_exchanges@,
            differs_from(receipt_id),
        ),
{
    if loaded(before, receipt_id, table) is Ok {
        let row = loaded(before, receipt_id, table)->Ok_0;
        let rows = exchanges(before, table);
        first_is_found(rows, is_exchange(receipt_id));
        let place = first(rows, is_exchange(receipt_id))->0;
        assert(rows.contains(rows[place]));
        assert(row.receipt_id@ == receipt_id);
        if row.state is Begun {
            if exists|ready: Arc<ReadyExchange>, prepared: StorageEngine|
                #[trigger] readied(before, prepared, receipt_id, table, ready) && recovered_ready(
                    before,
                    row,
                    table,
                    *ready,
                    encode,
                ) && ready_committed(prepared, after, row, *ready, clock, outcome) {
                let (ready, prepared) = choose|ready: Arc<ReadyExchange>, prepared: StorageEngine|
                    #[trigger] readied(before, prepared, receipt_id, table, ready)
                        && recovered_ready(
                        before,
                        row,
                        table,
                        *ready,
                        encode,
                    ) && ready_committed(prepared, after, row, *ready, clock, outcome);
                readying_adds_no_exchange(before, prepared, receipt_id, table, ready);
                committing_ready_results_leaves_nothing(
                    prepared,
                    after,
                    row,
                    held(ready),
                    clock,
                    outcome,
                );
            }
        } else if row.ready is Some {
            committing_ready_results_leaves_nothing(
                before,
                after,
                row,
                held(row.ready->0),
                clock,
                outcome,
            );
        }
    }
}

proof fn nobody_failed(
    rows: Seq<Arc<PendingExchange>>,
    order: Seq<usize>,
    failures: Seq<bool>,
    session_id: Seq<char>,
)
    requires
        failures.len() <= order.len(),
        forall|k: int|
            0 <= k < order.len() ==> exchange_owner(
                rows[#[trigger] order[k] as int].target,
            )@ == session_id,
        !lists(failing_owners(rows, order, failures), session_id),
    ensures
        forall|k: int| 0 <= k < failures.len() ==> !#[trigger] failures[k],
    decreases failures.len(),
{
    if failures.len() > 0 {
        let n = failures.len() - 1;
        let earlier = failing_owners(rows, order, failures.drop_last());
        let owners = failing_owners(rows, order, failures);
        if lists(earlier, session_id) {
            let i = choose|i: int| 0 <= i < earlier.len() && (#[trigger] earlier[i])@ == session_id;
            assert(owners[i]@ == session_id);
        }
        assert(!failures[n]) by {
            if failures[n] {
                assert(exchange_owner(rows[order[n] as int].target)@ == session_id);
                assert(owners[earlier.len() as int]@ == session_id);
            }
        }
        nobody_failed(rows, order, failures.drop_last(), session_id);
        assert forall|k: int| 0 <= k < failures.len() implies !#[trigger] failures[k] by {
            if k < n {
                assert(failures[k] == failures.drop_last()[k]);
            }
        }
    }
}

/// An attempt that leaves nothing behind: no exchange and no append is added, and where the
/// exchange is that of a run it is gone.
spec fn leaves_nothing(
    before: StorageEngine,
    after: StorageEngine,
    receipt_id: Seq<char>,
    table: PendingTable,
) -> bool {
    &&& adds_no_exchange(before.pending_exchanges@, after.pending_exchanges@)
    &&& adds_no_exchange(before.child_pending_exchanges@, after.child_pending_exchanges@)
    &&& announces_nothing(before, after)
    &&& table is Run ==> all_of(after.pending_exchanges@, differs_from(receipt_id))
}

proof fn exchange_attempt_leaves_nothing<E: Fn(&ConversationMessage) -> Vec<u8>>(
    before: StorageEngine,
    after: StorageEngine,
    receipt_id: Seq<char>,
    table: PendingTable,
    encode: E,
    failed: bool,
)
    requires
        exchange_attempted(before, after, receipt_id, table, encode, failed),
        table is Run ==> !failed,
        table is Run ==> all_of(before.pending_exchanges@, is_of_run()),
        table is ChildTask ==> all_of(before.child_pending_exchanges@, is_of_task()),
    ensures
        leaves_nothing(before, after, receipt_id, table),
{
    let (elapsed, outcome) = choose|
        elapsed: Option<u128>,
        outcome: Result<CommittedBatch, Refusal>,
    | #[trigger]
        exchange_recovered(
            before,
            after,
            receipt_id,
            table,
            time_told(elapsed),
            encode,
            outcome,
        ) && failed == (outcome is Err);
    recovering_an_exchange_leaves_nothing(
        before,
        after,
        receipt_id,
        table,
        time_told(elapsed),
        encode,
        outcome,
    );
}

#[verifier::spinoff_prover]
proof fn exchange_turns_leave_nothing<E: Fn(&ConversationMessage) -> Vec<u8>>(
    rows: Seq<Arc<PendingExchange>>,
    table: PendingTable,
    encode: E,
    order: Seq<usize>,
    trace: Seq<StorageEngine>,
    failures: Seq<bool>,
    n: int,
)
    requires
        exchanges_in_turn(rows, table, encode, order, trace, failures),
        table is Run ==> forall|k: int| 0 <= k < failures.len() ==> !#[trigger] failures[k],
        table is Run ==> all_of(
            trace[0].pending_exchanges@,
            is_of_run(),
        ),
        table is ChildTask ==> all_of(
            trace[0].child_pending_exchanges@,
            is_of_task(),
        ),
        0 <= n <= order.len(),
    ensures
        adds_no_exchange(trace[0].pending_exchanges@, trace[n].pending_exchanges@),
        adds_no_exchange(trace[0].child_pending_exchanges@, trace[n].child_pending_exchanges@),
        announces_nothing(trace[0], trace[n]),
        table is Run ==> forall|t: int|
            0 <= t < n ==> all_of(
                trace[n].pending_exchanges@,
                differs_from(rows[#[trigger] order[t] as int].receipt_id@),
            ),
    decreases n,
{
    if n > 0 {
        exchange_turns_leave_nothing(rows, table, encode, order, trace, failures, n - 1);
        let receipt_id = rows[order[n - 1] as int].receipt_id@;
        let before = trace[n - 1];
        let after = trace[n];
        assert(leaves_nothing(before, after, receipt_id, table)) by {
            assert(exchange_attempted(
                trace[n - 1],
                trace[n - 1 + 1],
                receipt_id,
                table,
                encode,
                failures[n - 1],
            ));
            exchange_attempt_leaves_nothing(
                before,
                after,
                receipt_id,
                table,
                encode,
                failures[n - 1],
            );
        }
        assert forall|t: int| table is Run && 0 <= t < n implies all_of(
            after.pending_exchanges@,
            differs_from(rows[#[trigger] order[t] as int].receipt_id@),
        ) by {
            if t < n - 1 {
                assert(all_of(
                    before.pending_exchanges@,
                    differs_from(rows[order[t] as int].receipt_id@),
                ));
            }
        }
    }
}

/// Recovering the exchanges of delegated tasks announces nothing in the conversation of a session.
proof fn task_recovery_announces_nothing<E: Fn(&ConversationMessage) -> Vec<u8>>(
    before: StorageEngine,
    after: StorageEngine,
    scope: Option<String>,
    encode: E,
    unavailable: Seq<String>,
)
    requires
        exchanges_recovered(before, after, scope, PendingTable::ChildTask, encode, unavailable),
        all_of(
            before.child_pending_exchanges@,
            is_of_task(),
        ),
    ensures
        adds_no_exchange(before.pending_exchanges@, after.pending_exchanges@),
        adds_no_exchange(before.child_pending_exchanges@, after.child_pending_exchanges@),
        announces_nothing(before, after),
{
    let table = PendingTable::ChildTask;
    let rows = kept(exchanges(before, table), exchange_in_scope(scope));
    let (order, trace, failures) = choose|
        order: Seq<usize>,
        trace: Seq<StorageEngine>,
        failures: Seq<bool>,
    | #[trigger]
        exchanges_in_turn(rows, table, encode, order, trace, failures) && trace[0] == before
            && trace.last() == after && unavailable == failing_owners(rows, order, failures);
    exchange_turns_leave_nothing(
        rows,
        table,
        encode,
        order,
        trace,
        failures,
        order.len() as int,
    );
}

/// Where no exchange of a session failed, none is pending any more, and nothing is announced that
/// was not announced before.
proof fn completed_exchanges_are_gone<E: Fn(&ConversationMessage) -> Vec<u8>>(
    before: StorageEngine,
    after: StorageEngine,
    session_id: String,
    encode: E,
    unavailable: Seq<String>,
)
    requires
        exchanges_recovered(
            before,
            after,
            Some(session_id),
            PendingTable::Run,
            encode,
            unavailable,
        ),
        all_of(
            before.pending_exchanges@,
            is_of_run(),
        ),
        !lists(unavailable, session_id@),
    ensures
        adds_no_exchange(before.pending_exchanges@, after.pending_exchanges@),
        adds_no_exchange(before.child_pending_exchanges@, after.child_pending_exchanges@),
        announces_nothing(before, after),
        !some_row(after.pending_exchanges@, exchange_in_scope(Some(session_id))),
{
    let scope = Some(session_id);
    let table = PendingTable::Run;
    let all = before.pending_exchanges@;
    let rows = kept(exchanges(before, table), exchange_in_scope(scope));
    let (order, trace, failures) = choose|
        order: Seq<usize>,
        trace: Seq<StorageEngine>,
        failures: Seq<bool>,
    | #[trigger]
        exchanges_in_turn(rows, table, encode, order, trace, failures) && trace[0] == before
            && trace.last() == after && unavailable == failing_owners(rows, order, failures);
    kept_rows(all, exchange_in_scope(scope));
    assert forall|k: int| 0 <= k < order.len() implies exchange_owner(
        held(rows[#[trigger] order[k] as int]).target,
    )@ == session_id@ by {
        let row = rows[order[k] as int];
        assert(rows.contains(row));
        assert(all.contains(row));
        assert(exchange_in_scope(scope)(row));
    }
    nobody_failed(rows, order, failures, session_id@);
    exchange_turns_leave_nothing(
        rows,
        table,
        encode,
        order,
        trace,
        failures,
        order.len() as int,
    );
    let left = after.pending_exchanges@;
    assert forall|i: int| 0 <= i < left.len() implies !exchange_in_scope(scope)(
        #[trigger] left[i],
    ) by {
        no_exchange_is_left(all, rows, order, left, scope, i);
    }
}

/// Where each exchange in scope had its turn, none is left over.
proof fn no_exchange_is_left(
    all: Seq<Arc<PendingExchange>>,
    rows: Seq<Arc<PendingExchange>>,
    order: Seq<usize>,
    left: Seq<Arc<PendingExchange>>,
    scope: Option<String>,
    i: int,
)
    requires
        rows == kept(all, exchange_in_scope(scope)),
        is_order(exchange_keys(rows), order),
        adds_no_exchange(all, left),
        0 <= i < left.len(),
        forall|t: int|
            0 <= t < order.len() ==> all_of(
                left,
                differs_from(rows[#[trigger] order[t] as int].receipt_id@),
            ),
    ensures
        !exchange_in_scope(scope)(left[i]),
{
    if exchange_in_scope(scope)(left[i]) {
        let row = left[i];
        assert(left.contains(row));
        let id = held(row).receipt_id@;
        let aim = held(row).target;
        let other = |receipt: Seq<char>, target: PendingTarget| !(receipt == id && target == aim);
        assert(!all_of(left, other)) by {
            assert(!other(held(row).receipt_id@, held(row).target));
        }
        assert(!all_of(all, other));
        let source = choose|source: Arc<PendingExchange>| #[trigger]
            all.contains(source) && !other(source.receipt_id@, source.target);
        assert(exchange_in_scope(scope)(source));
        kept_rows(all, exchange_in_scope(scope));
        assert(rows.contains(source));
        let place = rows.index_of(source);
        let turn = every_place_has_its_turn(exchange_keys(rows), order, place);
        let gone = differs_from(rows[order[turn] as int].receipt_id@);
        assert(all_of(left, gone));
        assert(gone(held(row).receipt_id@, held(row).target));
    }
}

/// Each exchange is pending in the table of its target.
pub open spec fn exchanges_are_filed(engine: StorageEngine) -> bool {
    &&& all_of(
        engine.pending_exchanges@,
        is_of_run(),
    )
    &&& all_of(
        engine.child_pending_exchanges@,
        is_of_task(),
    )
}

/// Beginning an exchange, whatever comes of it, leaves each in the table of its target.
pub proof fn beginning_an_exchange_keeps_filing(
    before: StorageEngine,
    after: StorageEngine,
    new: NewExchange,
    outcome: Result<(), Refusal>,
)
    requires
        exchanges_are_filed(before),
        exchange_begun(before, after, new, outcome),
    ensures
        exchanges_are_filed(after),
{
    if begin_refusal(before, new) is None {
        let table = pending_table(new.target);
        let rows = exchanges(before, table);
        let longer = exchanges(after, table);
        let added = longer.last();
        assert(longer =~= rows.push(added));
        assert(held(added).target == new.target);
        assert forall|other: Arc<PendingExchange>| #[trigger] longer.contains(other) implies other
            == added || rows.contains(other) by {
            let i = longer.index_of(other);
            if i < rows.len() {
                assert(rows[i] == other);
            }
        }
    }
}

/// Completing an append, whatever comes of it, leaves each exchange in the table of its target.
pub proof fn completing_keeps_exchanges_filed(
    before: StorageEngine,
    after: StorageEngine,
    operation_id: Seq<char>,
    table: AppendTable,
)
    requires
        exchanges_are_filed(before),
        attempted(before, after, operation_id, table),
    ensures
        exchanges_are_filed(after),
{
    attempt_adds_no_exchange(before, after, operation_id, table);
}

/// The condition of an exchange's being that of another session.
pub open spec fn is_elsewhere(session_id: Seq<char>) -> spec_fn(Seq<char>, PendingTarget) -> bool {
    |receipt: Seq<char>, target: PendingTarget| exchange_session(target)@ != session_id
}

/// Nothing of a session's own conversation is announced or pending.
pub open spec fn is_settled(engine: StorageEngine, session_id: String) -> bool {
    &&& !some_row(engine.body_appends@, in_scope(Some(session_id)))
    &&& all_of(engine.pending_exchanges@, is_elsewhere(session_id@))
}

proof fn append_turns_add_no_exchange(
    rows: Seq<Arc<StagedAppend>>,
    table: AppendTable,
    order: Seq<usize>,
    trace: Seq<StorageEngine>,
    n: int,
)
    requires
        completes_in_turn(rows, table, order, trace),
        0 <= n <= order.len(),
    ensures
        adds_no_exchange(trace[0].pending_exchanges@, trace[n].pending_exchanges@),
        adds_no_exchange(trace[0].child_pending_exchanges@, trace[n].child_pending_exchanges@),
    decreases n,
{
    if n > 0 {
        append_turns_add_no_exchange(rows, table, order, trace, n - 1);
        let operation_id = rows[order[n - 1] as int].operation_id@;
        assert(attempted(trace[n - 1], trace[n - 1 + 1], operation_id, table));
        attempt_adds_no_exchange(trace[n - 1], trace[n], operation_id, table);
    }
}

proof fn append_recovery_adds_no_exchange(
    before: StorageEngine,
    after: StorageEngine,
    scope: Option<String>,
    table: AppendTable,
    unavailable: Seq<String>,
)
    requires
        appends_recovered(before, after, scope, table, unavailable),
    ensures
        adds_no_exchange(before.pending_exchanges@, after.pending_exchanges@),
        adds_no_exchange(before.child_pending_exchanges@, after.child_pending_exchanges@),
        !some_row(appends(before, table), in_scope(scope)) ==> after == before,
{
    let rows = kept(appends(before, table), in_scope(scope));
    let (order, trace) = choose|order: Seq<usize>, trace: Seq<StorageEngine>| #[trigger]
        completes_in_turn(rows, table, order, trace) && trace[0] == before && trace.last()
            == after && unavailable == failed_owners(
            rows,
            table,
            order,
            trace,
            order.len() as int,
        );
    append_turns_add_no_exchange(rows, table, order, trace, order.len() as int);
    if !some_row(appends(before, table), in_scope(scope)) {
        kept_rows(appends(before, table), in_scope(scope));
        if rows.len() > 0 {
            assert(rows.contains(rows[0]));
            let i = appends(before, table).index_of(rows[0]);
            assert(in_scope(scope)(appends(before, table)[i]));
        }
        assert(order.len() == 0);
    }
}

/// Where no exchange of a session is pending, recovering its exchanges changes nothing.
proof fn nothing_is_recovered<E: Fn(&ConversationMessage) -> Vec<u8>>(
    before: StorageEngine,
    after: StorageEngine,
    session_id: String,
    encode: E,
    unavailable: Seq<String>,
)
    requires
        exchanges_recovered(
            before,
            after,
            Some(session_id),
            PendingTable::Run,
            encode,
            unavailable,
        ),
        all_of(before.pending_exchanges@, is_elsewhere(session_id@)),
    ensures
        after == before,
{
    let scope = Some(session_id);
    let table = PendingTable::Run;
    let rows = kept(exchanges(before, table), exchange_in_scope(scope));
    let (order, trace, failures) = choose|
        order: Seq<usize>,
        trace: Seq<StorageEngine>,
        failures: Seq<bool>,
    | #[trigger]
        exchanges_in_turn(rows, table, encode, order, trace, failures) && trace[0] == before
            && trace.last() == after && unavailable == failing_owners(rows, order, failures);
    kept_rows(before.pending_exchanges@, exchange_in_scope(scope));
    if rows.len() > 0 {
        let row = rows[0];
        assert(rows.contains(row));
        assert(before.pending_exchanges@.contains(row));
        assert(exchange_in_scope(scope)(row));
        assert(is_elsewhere(session_id@)(held(row).receipt_id@, held(row).target));
    }
    assert(order.len() == 0);
}

/// Once a session was mended and is available, nothing of its conversation is announced or pending
/// any more. A session of which nothing was announced or pending is mended without an append to
/// its conversation.
pub proof fn mended_session_is_settled<E: Fn(&ConversationMessage) -> Vec<u8>>(
    before: StorageEngine,
    steps: MendingSteps,
    after: StorageEngine,
    session_id: String,
    found: FoundFiles,
    encode: E,
    result: StorageResult<MendedSession>,
)
    requires
        is_keyed(before),
        is_filed(before),
        exchanges_are_filed(before),
        session_mended(before, steps, after, session_id, found, encode, result),
        steps.directories is Ok,
        result is Ok,
    ensures
        exchanges_are_filed(after) || lists(after.unavailable_sessions@, session_id@),
        is_settled(after, session_id) || lists(after.unavailable_sessions@, session_id@),
        is_settled(before, session_id) ==> steps.appended == steps.settled && steps.exchanged
            == steps.tasks_ended,
{
    let scope = Some(session_id);
    placing_resources_keeps_keys(
        before,
        steps.repaired,
        scope,
        steps.directory_order,
        steps.directories,
    );
    history_recovery_keeps_keys(
        steps.repaired,
        steps.settled,
        scope,
        found,
        Ok::<Seq<String>, Refusal>(steps.uncleaned),
    );
    history_recovery_leaves_work(
        steps.repaired,
        steps.settled,
        scope,
        found,
        Ok::<Seq<String>, Refusal>(steps.uncleaned),
    );
    assert(is_filed(steps.settled));
    append_recovery_leaves_work(
        steps.settled,
        steps.appended,
        scope,
        AppendTable::Session,
        steps.failed_appends,
    );
    append_recovery_keeps_keys(
        steps.settled,
        steps.appended,
        scope,
        AppendTable::Session,
        steps.failed_appends,
    );
    append_recovery_adds_no_exchange(
        steps.settled,
        steps.appended,
        scope,
        AppendTable::Session,
        steps.failed_appends,
    );
    append_recovery_leaves_work(
        steps.appended,
        steps.tasks_appended,
        scope,
        AppendTable::ChildTask,
        steps.failed_task_appends,
    );
    append_recovery_adds_no_exchange(
        steps.appended,
        steps.tasks_appended,
        scope,
        AppendTable::ChildTask,
        steps.failed_task_appends,
    );
    task_recovery_announces_nothing(
        steps.tasks_appended,
        steps.tasks_exchanged,
        scope,
        encode,
        steps.failed_task_exchanges,
    );
    if is_settled(before, session_id) {
        nothing_is_recovered(
            steps.tasks_ended,
            steps.exchanged,
            session_id,
            encode,
            steps.failed_exchanges,
        );
    }
    if !lists(after.unavailable_sessions@, session_id@) {
        let open = kept(steps.exchanged.unavailable_sessions@, is_other_text(session_id@));
        added_texts_are_listed(open, steps.failed_appends, session_id@);
        added_texts_are_listed(
            with_texts(open, steps.failed_appends),
            steps.failed_exchanges,
            session_id@,
        );
        available_session_is_calm(
            steps.settled,
            steps.appended,
            session_id,
            steps.failed_appends,
        );
        completed_exchanges_are_gone(
            steps.tasks_ended,
            steps.exchanged,
            session_id,
            encode,
            steps.failed_exchanges,
        );
        assert forall|i: int| 0 <= i < after.body_appends@.len() implies !in_scope(scope)(
            #[trigger] after.body_appends@[i],
        ) by {
            let row = after.body_appends@[i];
            assert(steps.exchanged.body_appends@.contains(row));
            assert(steps.tasks_ended.body_appends@.contains(row));
            assert(steps.tasks_appended.body_appends@.contains(row));
            let k = steps.appended.body_appends@.index_of(row);
            assert(!in_scope(scope)(steps.appended.body_appends@[k]));
        }
        assert forall|row: Arc<PendingExchange>| #[trigger]
            after.pending_exchanges@.contains(row) implies is_elsewhere(session_id@)(
            held(row).receipt_id@,
            held(row).target,
        ) by {
            let k = after.pending_exchanges@.index_of(row);
            assert(!exchange_in_scope(scope)(steps.exchanged.pending_exchanges@[k]));
        }
    }
}

/// A session that nothing is announced or pending of stays so when it is taken up.
proof fn taking_up_stays_settled(
    before: StorageEngine,
    steps: TakingUpSteps,
    after: StorageEngine,
    session_id: String,
    mended: MendedSession,
    diagnostic: bool,
    result: StorageResult<LoadedSession>,
)
    requires
        is_settled(before, session_id),
        is_filed(before),
        exchanges_are_filed(before),
        session_taken_up(before, steps, after, session_id, mended, diagnostic, result),
    ensures
        is_settled(after, session_id),
        is_filed(after),
        exchanges_are_filed(after),
{
    let scope = Some(session_id);
    let judged = steps.judged;
    assert(is_settled(judged, session_id));
    if goals_paused(judged, steps.paused, scope) {
        let gone = stale_continuations(judged.inputs@, running_goals(judged.goals@, scope));
        let cut = choose|cut: StorageEngine| #[trigger]
            inputs_removed(judged, cut, gone) && steps.paused == (StorageEngine {
                goals: steps.paused.goals,
                ..cut
            });
        let runs = runs_of(judged.runs@, gone);
        let children = children_of(judged.child_tasks@, runs);
        kept_rows(judged.body_appends@, append_out(runs));
        kept_rows(judged.child_body_appends@, append_out(children));
        fewer_exchanges(judged.pending_exchanges@, exchange_out(runs));
        fewer_exchanges(judged.child_pending_exchanges@, exchange_out(children));
        assert(is_filed(steps.paused));
        assert forall|i: int| 0 <= i < cut.body_appends@.len() implies !in_scope(scope)(
            #[trigger] cut.body_appends@[i],
        ) by {
            let row = cut.body_appends@[i];
            assert(kept(judged.body_appends@, append_out(runs)).contains(row));
            let k = judged.body_appends@.index_of(row);
            assert(!in_scope(scope)(judged.body_appends@[k]));
        }
        assert(is_settled(steps.paused, session_id));
        assert(exchanges_are_filed(steps.paused));
    }
}

/// A session that was mended and taken up, and is mended again, has nothing more appended to its
/// conversation: no announced append and no interrupted exchange is left to be completed.
pub proof fn nothing_is_appended_again<E: Fn(&ConversationMessage) -> Vec<u8>>(
    before: StorageEngine,
    mending: MendingSteps,
    repaired: StorageEngine,
    steps: TakingUpSteps,
    taken_up: StorageEngine,
    again: MendingSteps,
    after: StorageEngine,
    session_id: String,
    found: FoundFiles,
    encode: E,
    mended: MendedSession,
    mended_again: MendedSession,
    diagnostic: bool,
    result: StorageResult<LoadedSession>,
)
    requires
        is_keyed(before),
        is_filed(before),
        exchanges_are_filed(before),
        mending.directories is Ok,
        again.directories is Ok,
        session_mended(before, mending, repaired, session_id, found, encode, Ok(mended)),
        !lists(repaired.unavailable_sessions@, session_id@),
        session_taken_up(repaired, steps, taken_up, session_id, mended, diagnostic, result),
        session_mended(
            taken_up,
            again,
            after,
            session_id,
            found,
            encode,
            Ok(mended_again),
        ),
    ensures
        again.appended == again.settled,
        again.exchanged == again.tasks_ended,
{
    mended_session_is_settled(before, mending, repaired, session_id, found, encode, Ok(mended));
    mending_leaves_work(before, mending, repaired, session_id, found, encode, Ok(mended));
    mending_keeps_keys(before, mending, repaired, session_id, found, encode, Ok(mended));
    taking_up_stays_settled(repaired, steps, taken_up, session_id, mended, diagnostic, result);
    taking_up_keeps_keys(repaired, steps, taken_up, session_id, mended, diagnostic, result);
    mended_session_is_settled(
        taken_up,
        again,
        after,
        session_id,
        found,
        encode,
        Ok(mended_again),
    );
}

} // verus!
