//! Tool exchanges, changes of histories and the start of a runtime keep keys apart.

use std::sync::Arc;
use vstd::prelude::*;

use crate::cascade::{
    append_out, children_of, exchange_out, input_out, inputs_removed, run_out, runs_of,
};
use crate::conversation::RecordedMessage;
use crate::engine::{
    bodies, conversation_at, current_conversation, has_input_id, has_run_id, is_session,
    StorageEngine,
};
use crate::error::{failed, Refusal, StorageResult};
use crate::exchange_recovery::{
    committed_at, exchange_attempted, exchange_in_scope, exchange_recovered, exchanges_in_turn,
    exchanges_recovered, failing_owners, ready_committed, recovered_ready,
};
use crate::goal::{goals_paused, running_goals, stale_continuations};
use crate::history_recovery::{
    all_readable, change_recovered, changes_in_turn, changes_recovered, is_unsettled, FoundFiles,
};
use crate::key_laws::{accounting_keeps_keys, append_recovery_keeps_keys, appending_keeps_keys};
use crate::keys::{
    append_name, attachment_name, exchange_name, feedback_name, has_one_of_each, head_name,
    input_name, is_keyed, operation_name, plan_name, resources_name, run_name, session_name, unique,
    unique_after_keeping, unique_after_push, unique_after_update, usage_name,
};
use crate::message::{held, ConversationMessage};
use crate::recall::{heads_after_switch, is_head_of};
use crate::recovery::{
    main_target, switch_refusal, switched, usage_tables, AppendTable, CommittedBatch,
    ReplacementPlan,
};
use crate::rows::{
    ConversationOwner, HistoryOperationRow, HistoryState, RecallHeadRow, SessionRow,
    SessionUsageRow,
};
use crate::run_state::time_told;
use crate::session_directories::{is_astray, resources_recovered, SessionDirectories};
use crate::session_fork::{
    forked, forked_attachments, has_attachment_id, new_session_row, storing_refusal, SessionFork,
};
use crate::session_history::{
    clear_announced, clear_attempted, clear_begun, clear_opened, clear_path, clear_receipt,
    clear_refusal, clear_settled, compaction_attempted, compaction_begun, compaction_receipt,
    compaction_refusal, conversation_emptied, emptied, feedback_elsewhere, head_elsewhere,
    history_dropped, inputs_of, is_operation, is_other_operation, receipt_dropped, receipt_stays,
    state_moved, usage_elsewhere, ClearProgress, CompactionPreparation, CompactionPreparationResult,
    SessionHistoryClear,
};
use crate::session_loading::{
    session_mended, session_taken_up, LoadedSession, MendedSession, MendingSteps, TakingUpSteps,
};
use crate::session_management::{place_of_session, session_changed};
use crate::session_resources::is_resources_of;
use crate::session_rewrite::{
    rewrite_refusal, rewritten, taken_back, tasks_of, went_on, ConversationRewrite,
};
use crate::session_transfer::{
    attachment_elsewhere, operation_elsewhere, resources_elsewhere, session_deleted,
    session_elsewhere, session_forgotten,
};
use crate::table::{first, first_is_found, kept, kept_rows, some_row};
use crate::text::lists;
use crate::tool_exchange::{
    begin_refusal, conversation_target, exchange_batch, exchange_begun, exchange_committed,
    exchange_completed, exchange_completion_refusal, exchange_purpose, exchanges, is_exchange,
    loaded, pending_table, readied, CompletedExchange, NewExchange, PendingExchange, PendingTable,
    ReadyExchange,
};
use crate::usage::{
    completed_upto, is_incomplete, is_usage_of, requests_of, usages_completed, with_completed,
    with_requests,
};
use crate::work_plan::{is_plan_of, is_plan_of_other, StoredWorkPlan};

verus! {

/// Beginning an exchange keeps keys apart, whatever comes of it.
pub proof fn beginning_an_exchange_keeps_keys(
    before: StorageEngine,
    after: StorageEngine,
    new: NewExchange,
    outcome: Result<(), Refusal>,
)
    requires
        is_keyed(before),
        exchange_begun(before, after, new, outcome),
    ensures
        is_keyed(after),
{
    if begin_refusal(before, new) is None {
        let table = pending_table(new.target);
        let rows = exchanges(before, table);
        let longer = exchanges(after, table);
        assert(longer =~= rows.push(longer.last()));
        assert forall|i: int| 0 <= i < rows.len() implies exchange_name()(#[trigger] rows[i])
            != exchange_name()(longer.last()) by {
            assert(!is_exchange(new.receipt_id@)(rows[i]));
        }
        unique_after_push(rows, exchange_name(), longer.last());
    }
}

proof fn readying_keeps_keys(
    before: StorageEngine,
    after: StorageEngine,
    receipt_id: Seq<char>,
    table: PendingTable,
    ready: Arc<ReadyExchange>,
)
    requires
        is_keyed(before),
        loaded(before, receipt_id, table) is Ok,
        readied(before, after, receipt_id, table, ready),
    ensures
        is_keyed(after),
{
    let rows = exchanges(before, table);
    first_is_found(rows, is_exchange(receipt_id));
    let place = first(rows, is_exchange(receipt_id))->0;
    unique_after_update(rows, exchange_name(), place, exchanges(after, table)[place]);
}

/// Completing an exchange keeps keys apart, whatever comes of it.
pub proof fn completing_an_exchange_keeps_keys(
    before: StorageEngine,
    after: StorageEngine,
    completed: CompletedExchange,
    table: PendingTable,
    outcome: Result<CommittedBatch, Refusal>,
)
    requires
        is_keyed(before),
        exchange_completed(before, after, completed, table, outcome),
    ensures
        is_keyed(after),
{
    if exchange_completion_refusal(before, completed, table) is None {
        let row = PendingExchange {
            step: completed.step,
            ..loaded(before, completed.receipt_id@, table)->Ok_0
        };
        let prepared = choose|prepared: StorageEngine| #[trigger]
            readied(before, prepared, completed.receipt_id@, table, completed.ready)
                && exchange_committed(
                prepared,
                after,
                completed.operation_id,
                row,
                held(completed.ready),
                completed.completed_at_ms,
                outcome,
            );
        readying_keeps_keys(before, prepared, completed.receipt_id@, table, completed.ready);
        committing_keeps_keys(
            prepared,
            after,
            completed.operation_id,
            row,
            held(completed.ready),
            completed.completed_at_ms,
            outcome,
        );
    }
}

proof fn committing_keeps_keys(
    before: StorageEngine,
    after: StorageEngine,
    operation_id: String,
    row: PendingExchange,
    ready: ReadyExchange,
    completed_at_ms: i64,
    outcome: Result<CommittedBatch, Refusal>,
)
    requires
        is_keyed(before),
        exchange_committed(before, after, operation_id, row, ready, completed_at_ms, outcome),
    ensures
        is_keyed(after),
{
    appending_keeps_keys(
        before,
        after,
        operation_id,
        conversation_target(row.target),
        exchange_batch(row.assistant, ready),
        row.step,
        completed_at_ms,
        exchange_purpose(row.target, row.receipt_id, ready),
        outcome,
    );
}

proof fn committing_ready_results_keeps_keys(
    before: StorageEngine,
    after: StorageEngine,
    row: PendingExchange,
    ready: ReadyExchange,
    clock: Result<i64, Refusal>,
    outcome: Result<CommittedBatch, Refusal>,
)
    requires
        is_keyed(before),
        ready_committed(before, after, row, ready, clock, outcome),
    ensures
        is_keyed(after),
{
    if after != before {
        let now = clock->Ok_0;
        assert(committed_at(before, after, row, ready, now, outcome));
        let operation_id = choose|operation_id: String|
            operation_id@ == "recover-"@ + row.receipt_id@ && #[trigger] exchange_committed(
                before,
                after,
                operation_id,
                row,
                ready,
                now,
                outcome,
            );
        committing_keeps_keys(before, after, operation_id, row, ready, now, outcome);
    }
}

proof fn recovering_an_exchange_keeps_keys<E: Fn(&ConversationMessage) -> Vec<u8>>(
    before: StorageEngine,
    after: StorageEngine,
    receipt_id: Seq<char>,
    table: PendingTable,
    clock: Result<i64, Refusal>,
    encode: E,
    outcome: Result<CommittedBatch, Refusal>,
)
    requires
        is_keyed(before),
        exchange_recovered(before, after, receipt_id, table, clock, encode, outcome),
    ensures
        is_keyed(after),
{
    if after != before {
        let row = loaded(before, receipt_id, table)->Ok_0;
        if row.state is Begun {
            let (ready, prepared) = choose|ready: Arc<ReadyExchange>, prepared: StorageEngine|
                #[trigger] readied(before, prepared, receipt_id, table, ready) && recovered_ready(
                    before,
                    row,
                    table,
                    *ready,
                    encode,
                ) && ready_committed(prepared, after, row, *ready, clock, outcome);
            readying_keeps_keys(before, prepared, receipt_id, table, ready);
            committing_ready_results_keeps_keys(
                prepared,
                after,
                row,
                held(ready),
                clock,
                outcome,
            );
        } else {
            committing_ready_results_keeps_keys(
                before,
                after,
                row,
                held(row.ready->0),
                clock,
                outcome,
            );
        }
    }
}

proof fn exchange_turns_keep_keys<E: Fn(&ConversationMessage) -> Vec<u8>>(
    rows: Seq<Arc<PendingExchange>>,
    table: PendingTable,
    encode: E,
    order: Seq<usize>,
    trace: Seq<StorageEngine>,
    failures: Seq<bool>,
    n: int,
)
    requires
        exchanges_in_turn(rows, table, encode, order, trace, failures),
        is_keyed(trace[0]),
        0 <= n <= order.len(),
    ensures
        is_keyed(trace[n]),
    decreases n,
{
    if n > 0 {
        exchange_turns_keep_keys(rows, table, encode, order, trace, failures, n - 1);
        let receipt_id = rows[order[n - 1] as int].receipt_id@;
        assert(exchange_attempted(
            trace[n - 1],
            trace[n - 1 + 1],
            receipt_id,
            table,
            encode,
            failures[n - 1],
        ));
        let (elapsed, outcome) = choose|
            elapsed: Option<u128>,
            outcome: Result<CommittedBatch, Refusal>,
        | #[trigger]
            exchange_recovered(
                trace[n - 1],
                trace[n],
                receipt_id,
                table,
                time_told(elapsed),
                encode,
                outcome,
            ) && failures[n - 1] == (outcome is Err);
        recovering_an_exchange_keeps_keys(
            trace[n - 1],
            trace[n],
            receipt_id,
            table,
            time_told(elapsed),
            encode,
            outcome,
        );
    }
}

/// Recovering exchanges keeps keys apart.
pub proof fn exchange_recovery_keeps_keys<E: Fn(&ConversationMessage) -> Vec<u8>>(
    before: StorageEngine,
    after: StorageEngine,
    scope: Option<String>,
    table: PendingTable,
    encode: E,
    unavailable: Seq<String>,
)
    requires
        is_keyed(before),
        exchanges_recovered(before, after, scope, table, encode, unavailable),
    ensures
        is_keyed(after),
{
    let rows = kept(exchanges(before, table), exchange_in_scope(scope));
    let (order, trace, failures) = choose|
        order: Seq<usize>,
        trace: Seq<StorageEngine>,
        failures: Seq<bool>,
    | #[trigger]
        exchanges_in_turn(rows, table, encode, order, trace, failures) && trace[0] == before
            && trace.last() == after && unavailable == failing_owners(rows, order, failures);
    exchange_turns_keep_keys(rows, table, encode, order, trace, failures, order.len() as int);
}

proof fn moving_a_receipt_keeps_keys(
    rows: Seq<HistoryOperationRow>,
    operation_id: Seq<char>,
    from: HistoryState,
    to: HistoryState,
    finished_at_ms: Option<i64>,
)
    requires
        unique(rows, operation_name()),
    ensures
        unique(state_moved(rows, operation_id, from, to, finished_at_ms), operation_name()),
{
    first_is_found(rows, is_operation(operation_id));
    match first(rows, is_operation(operation_id)) {
        Some(i) => {
            unique_after_update(
                rows,
                operation_name(),
                i,
                HistoryOperationRow { state: to, finished_at_ms, ..rows[i] },
            );
        },
        None => {},
    }
}

proof fn adding_a_receipt_keeps_keys(rows: Seq<HistoryOperationRow>, row: HistoryOperationRow)
    requires
        unique(rows, operation_name()),
        !some_row(rows, is_operation(row.operation_id@)),
    ensures
        unique(rows.push(row), operation_name()),
{
    assert forall|i: int| 0 <= i < rows.len() implies operation_name()(#[trigger] rows[i])
        != operation_name()(row) by {
        assert(!is_operation(row.operation_id@)(rows[i]));
    }
    unique_after_push(rows, operation_name(), row);
}

proof fn removing_inputs_keeps_keys(before: StorageEngine, cut: StorageEngine, gone: Seq<String>)
    requires
        is_keyed(before),
        inputs_removed(before, cut, gone),
    ensures
        is_keyed(cut),
{
    let runs = runs_of(before.runs@, gone);
    let children = children_of(before.child_tasks@, runs);
    unique_after_keeping(before.inputs@, input_name(), input_out(gone));
    unique_after_keeping(before.runs@, run_name(), run_out(gone));
    unique_after_keeping(before.body_appends@, append_name(), append_out(runs));
    unique_after_keeping(before.child_body_appends@, append_name(), append_out(children));
    unique_after_keeping(before.pending_exchanges@, exchange_name(), exchange_out(runs));
    unique_after_keeping(
        before.child_pending_exchanges@,
        exchange_name(),
        exchange_out(children),
    );
}

/// Dropping what belongs to the history of a session keeps keys apart.
proof fn dropping_a_history_keeps_keys(
    cut: StorageEngine,
    after: StorageEngine,
    session_id: Seq<char>,
)
    requires
        is_keyed(cut),
        history_dropped(cut, after, session_id),
    ensures
        unique(after.feedback@, feedback_name()),
        unique(after.work_plans@, plan_name()),
        unique(after.recall_heads@, head_name()),
{
    reveal(has_one_of_each);
    unique_after_keeping(cut.feedback@, feedback_name(), feedback_elsewhere(session_id));
    unique_after_keeping(cut.work_plans@, plan_name(), is_plan_of_other(session_id));
    unique_after_keeping(cut.recall_heads@, head_name(), head_elsewhere(session_id));
}

/// Having nothing of a body indexed keeps the heads of conversations apart.
proof fn marking_a_head_keeps_keys(
    heads: Seq<RecallHeadRow>,
    owner: ConversationOwner,
    generation: u64,
)
    requires
        unique(heads, head_name()),
    ensures
        unique(heads_after_switch(heads, owner, generation), head_name()),
{
    let after = heads_after_switch(heads, owner, generation);
    first_is_found(heads, is_head_of(owner));
    match first(heads, is_head_of(owner)) {
        Some(place) => {
            unique_after_update(heads, head_name(), place, after[place]);
        },
        None => {
            assert forall|i: int| 0 <= i < heads.len() implies head_name()(#[trigger] heads[i])
                != head_name()(after.last()) by {
                assert(!is_head_of(owner)(heads[i]));
            }
            unique_after_push(heads, head_name(), after.last());
        },
    }
}

/// A replacement that counts keeps keys apart.
pub proof fn switching_keeps_keys(
    before: StorageEngine,
    after: StorageEngine,
    plan: ReplacementPlan,
)
    requires
        is_keyed(before),
        switch_refusal(before, plan) is None,
        switched(before, after, plan),
    ensures
        is_keyed(after),
{
    reveal(has_one_of_each);
    first_is_found(before.sessions@, is_session(plan.session_id@));
    let place = first(before.sessions@, is_session(plan.session_id@))->0;
    unique_after_update(before.sessions@, session_name(), place, after.sessions@[place]);
    let owner = ConversationOwner::MainSession { session_id: plan.session_id };
    marking_a_head_keeps_keys(before.recall_heads@, owner, plan.new_generation);
    accounting_keeps_keys(
        usage_tables(before),
        requests_of(
            owner,
            None,
            conversation_at(before, main_target(plan.session_id), plan.new_generation)->Ok_0,
            plan.changed_at_ms,
            false,
        ),
    );
}

proof fn emptying_keeps_keys(
    opened: StorageEngine,
    after: StorageEngine,
    clear: SessionHistoryClear,
)
    requires
        is_keyed(opened),
        some_row(opened.sessions@, is_session(clear.session_id@)),
        conversation_emptied(opened, after, clear),
    ensures
        is_keyed(after),
{
    let gone = inputs_of(opened.inputs@, clear.session_id@);
    let cut = choose|cut: StorageEngine| #[trigger]
        inputs_removed(opened, cut, gone) && emptied(cut, after, clear);
    removing_inputs_keeps_keys(opened, cut, gone);
    first_is_found(cut.sessions@, is_session(clear.session_id@));
    let place = place_of_session(cut, clear.session_id@);
    unique_after_update(cut.sessions@, session_name(), place, after.sessions@[place]);
    let stays = receipt_stays(clear.session_id@, clear.operation_id@);
    unique_after_keeping(cut.history_operations@, operation_name(), stays);
    moving_a_receipt_keeps_keys(
        kept(cut.history_operations@, stays),
        clear.operation_id@,
        HistoryState::Preparing,
        HistoryState::CleanupPending,
        None,
    );
    dropping_a_history_keeps_keys(cut, after, clear.session_id@);
    reveal(has_one_of_each);
    let elsewhere = usage_elsewhere(clear.session_id@);
    let usages = kept(cut.session_usage@, elsewhere);
    unique_after_keeping(cut.session_usage@, usage_name(), elsewhere);
    kept_rows(cut.session_usage@, elsewhere);
    assert forall|i: int| 0 <= i < usages.len() implies usage_name()(#[trigger] usages[i])
        != clear.session_id@ by {
        assert(elsewhere(usages[i]));
    }
    unique_after_push(usages, usage_name(), after.session_usage@.last());
}

/// Announcing that a conversation is emptied keeps keys apart, whatever comes of it.
pub proof fn announcing_a_clear_keeps_keys(
    before: StorageEngine,
    after: StorageEngine,
    clear: SessionHistoryClear,
    outcome: Result<(), Refusal>,
)
    requires
        is_keyed(before),
        clear_announced(before, after, clear, outcome),
    ensures
        is_keyed(after),
{
    if clear_refusal(before, clear) is None {
        let receipt = clear_receipt(clear, HistoryState::Preparing);
        adding_a_receipt_keeps_keys(before.history_operations@, receipt);
        moving_a_receipt_keeps_keys(
            before.history_operations@.push(receipt),
            clear.operation_id@,
            HistoryState::Preparing,
            HistoryState::Interrupted,
            Some(clear.changed_at_ms),
        );
    }
}

/// Letting an emptied conversation count, or giving it up, keeps keys apart.
pub proof fn settling_a_clear_keeps_keys(
    before: StorageEngine,
    after: StorageEngine,
    clear: SessionHistoryClear,
    stored: Result<(), Refusal>,
    outcome: Result<ClearProgress, Refusal>,
)
    requires
        is_keyed(before),
        clear_settled(before, after, clear, stored, outcome),
    ensures
        is_keyed(after),
{
    if outcome is Ok {
        first_is_found(before.sessions@, is_session(clear.session_id@));
        emptying_keeps_keys(before, after, clear);
    } else {
        moving_a_receipt_keeps_keys(
            before.history_operations@,
            clear.operation_id@,
            HistoryState::Preparing,
            HistoryState::Interrupted,
            Some(clear.changed_at_ms),
        );
    }
}

proof fn beginning_a_clear_keeps_keys(
    before: StorageEngine,
    after: StorageEngine,
    clear: SessionHistoryClear,
    outcome: Result<ClearProgress, Refusal>,
)
    requires
        is_keyed(before),
        clear_begun(before, after, clear, outcome),
    ensures
        is_keyed(after),
{
    if clear_refusal(before, clear) is None {
        if bodies(before.files@).contains_key(clear_path(before, clear)) {
            announcing_a_clear_keeps_keys(
                before,
                after,
                clear,
                Err(failed("conversation file could not be created"@)),
            );
        } else {
            let opened = choose|opened: StorageEngine| #[trigger]
                clear_opened(before, opened, clear) && conversation_emptied(opened, after, clear);
            announcing_a_clear_keeps_keys(before, opened, clear, Ok(()));
            first_is_found(opened.sessions@, is_session(clear.session_id@));
            emptying_keeps_keys(opened, after, clear);
        }
    }
}

proof fn dropping_a_receipt_keeps_keys(
    before: StorageEngine,
    after: StorageEngine,
    operation_id: Seq<char>,
)
    requires
        is_keyed(before),
        receipt_dropped(before, after, operation_id),
    ensures
        is_keyed(after),
{
    unique_after_keeping(
        before.history_operations@,
        operation_name(),
        is_other_operation(operation_id),
    );
}

/// Emptying a conversation keeps keys apart, whatever comes of it.
pub proof fn clearing_keeps_keys(
    before: StorageEngine,
    after: StorageEngine,
    clear: SessionHistoryClear,
    outcome: Result<ClearProgress, Refusal>,
)
    requires
        is_keyed(before),
        clear_attempted(before, after, clear, outcome),
    ensures
        is_keyed(after),
{
    if after != before {
        match first(before.history_operations@, is_operation(clear.operation_id@)) {
            None => {
                beginning_a_clear_keeps_keys(before, after, clear, outcome);
            },
            Some(_) => {
                let reset = choose|reset: StorageEngine| #[trigger]
                    receipt_dropped(before, reset, clear.operation_id@) && clear_begun(
                        reset,
                        after,
                        clear,
                        outcome,
                    );
                dropping_a_receipt_keeps_keys(before, reset, clear.operation_id@);
                beginning_a_clear_keeps_keys(reset, after, clear, outcome);
            },
        }
    }
}

proof fn announcing_a_compaction_keeps_keys(
    before: StorageEngine,
    after: StorageEngine,
    preparation: CompactionPreparation,
    outcome: Result<CompactionPreparationResult, Refusal>,
)
    requires
        is_keyed(before),
        compaction_begun(before, after, preparation, outcome),
    ensures
        is_keyed(after),
{
    if compaction_refusal(before, preparation) is None {
        adding_a_receipt_keeps_keys(
            before.history_operations@,
            compaction_receipt(preparation),
        );
    }
}

/// Announcing a compaction keeps keys apart, whatever comes of it.
pub proof fn compacting_keeps_keys(
    before: StorageEngine,
    after: StorageEngine,
    preparation: CompactionPreparation,
    outcome: Result<CompactionPreparationResult, Refusal>,
)
    requires
        is_keyed(before),
        compaction_attempted(before, after, preparation, outcome),
    ensures
        is_keyed(after),
{
    if after != before {
        match first(before.history_operations@, is_operation(preparation.operation_id@)) {
            None => {
                announcing_a_compaction_keeps_keys(before, after, preparation, outcome);
            },
            Some(_) => {
                let reset = choose|reset: StorageEngine| #[trigger]
                    receipt_dropped(before, reset, preparation.operation_id@) && compaction_begun(
                        reset,
                        after,
                        preparation,
                        outcome,
                    );
                dropping_a_receipt_keeps_keys(before, reset, preparation.operation_id@);
                announcing_a_compaction_keeps_keys(reset, after, preparation, outcome);
            },
        }
    }
}

/// Taking a conversation back keeps keys apart.
pub proof fn rewriting_keeps_keys(
    before: StorageEngine,
    after: StorageEngine,
    plan: ReplacementPlan,
    rewrite: ConversationRewrite,
    order: i64,
)
    requires
        is_keyed(before),
        rewrite_refusal(before, plan, rewrite, order) is None,
        rewritten(before, after, plan, rewrite, order),
    ensures
        is_keyed(after),
{
    let gone = taken_back(before.inputs@, rewrite.session_id@, order);
    let cut = choose|cut: StorageEngine| #[trigger]
        inputs_removed(before, cut, gone) && went_on(
            cut,
            after,
            plan,
            rewrite,
            tasks_of(before, gone),
        );
    removing_inputs_keeps_keys(before, cut, gone);
    first_is_found(cut.sessions@, is_session(plan.session_id@));
    let place = place_of_session(cut, plan.session_id@);
    unique_after_update(cut.sessions@, session_name(), place, after.sessions@[place]);
    let input = after.inputs@.last();
    assert(after.inputs@ =~= cut.inputs@.push(input));
    assert forall|i: int| 0 <= i < cut.inputs@.len() implies input_name()(
        #[trigger] cut.inputs@[i],
    ) != input_name()(input) by {
        assert(!has_input_id(rewrite.input.input_id@)(cut.inputs@[i]));
    }
    unique_after_push(cut.inputs@, input_name(), input);
    let run = after.runs@.last();
    assert(after.runs@ =~= cut.runs@.push(run));
    assert forall|i: int| 0 <= i < cut.runs@.len() implies run_name()(#[trigger] cut.runs@[i])
        != run_name()(run) by {
        assert(!has_run_id(rewrite.input.run_id@)(cut.runs@[i]));
    }
    unique_after_push(cut.runs@, run_name(), run);
}

/// Forking a session keeps keys apart.
pub proof fn forking_keeps_keys(
    before: StorageEngine,
    after: StorageEngine,
    fork: SessionFork,
    batch: Seq<Arc<RecordedMessage>>,
    plan: Option<Arc<StoredWorkPlan>>,
)
    requires
        is_keyed(before),
        storing_refusal(before, fork, batch) is None,
        forked(before, after, fork, batch, plan),
    ensures
        is_keyed(after),
{
    let row = new_session_row(fork.session, batch.len() as u64);
    assert forall|i: int| 0 <= i < before.sessions@.len() implies session_name()(
        #[trigger] before.sessions@[i],
    ) != session_name()(row) by {
        assert(!is_session(fork.session.session_id@)(before.sessions@[i]));
    }
    unique_after_push(before.sessions@, session_name(), row);
    reveal(has_one_of_each);
    let session_id = fork.session.session_id@;
    let resources = after.session_resources@.last();
    assert forall|i: int| 0 <= i < before.session_resources@.len() implies resources_name()(
        #[trigger] before.session_resources@[i],
    ) != resources_name()(resources) by {
        assert(!is_resources_of(session_id)(before.session_resources@[i]));
    }
    unique_after_push(before.session_resources@, resources_name(), resources);
    let usage = after.session_usage@.last();
    assert forall|i: int| 0 <= i < before.session_usage@.len() implies usage_name()(
        #[trigger] before.session_usage@[i],
    ) != usage_name()(usage) by {
        assert(!is_usage_of(session_id)(before.session_usage@[i]));
    }
    unique_after_push(before.session_usage@, usage_name(), usage);
    if plan is Some {
        assert forall|i: int| 0 <= i < before.work_plans@.len() implies plan_name()(
            #[trigger] before.work_plans@[i],
        ) != plan_name()(plan->0) by {
            assert(!is_plan_of(session_id)(before.work_plans@[i]));
        }
        unique_after_push(before.work_plans@, plan_name(), plan->0);
    }
    let old_rows = before.attachments@;
    let added = forked_attachments(before, fork);
    let rows = after.attachments@;
    assert forall|i: int, j: int| 0 <= i < j < rows.len() implies attachment_name()(
        #[trigger] rows[i],
    ) != attachment_name()(#[trigger] rows[j]) by {
        let n = old_rows.len() as int;
        if j < n {
            assert(attachment_name()(old_rows[i]) != attachment_name()(old_rows[j]));
        } else {
            assert(rows[j] == added[j - n]);
            if i < n {
                assert(rows[i] == old_rows[i]);
                assert(!has_attachment_id(added[j - n].attachment_id@)(old_rows[i]));
            } else {
                assert(rows[i] == added[i - n]);
                assert(added[i - n].attachment_id@ != added[j - n].attachment_id@);
            }
        }
    }
    marking_a_head_keeps_keys(
        before.recall_heads@,
        ConversationOwner::MainSession { session_id: fork.session.session_id },
        1,
    );
}

/// Deleting a session keeps keys apart.
pub proof fn deleting_keeps_keys(
    before: StorageEngine,
    after: StorageEngine,
    session_id: Seq<char>,
)
    requires
        is_keyed(before),
        session_deleted(before, after, session_id),
    ensures
        is_keyed(after),
{
    let gone = inputs_of(before.inputs@, session_id);
    let cut = choose|cut: StorageEngine| #[trigger]
        inputs_removed(before, cut, gone) && session_forgotten(cut, after, session_id);
    removing_inputs_keeps_keys(before, cut, gone);
    unique_after_keeping(cut.sessions@, session_name(), session_elsewhere(session_id));
    unique_after_keeping(
        cut.history_operations@,
        operation_name(),
        operation_elsewhere(session_id),
    );
    dropping_a_history_keeps_keys(cut, after, session_id);
    reveal(has_one_of_each);
    unique_after_keeping(
        cut.session_resources@,
        resources_name(),
        resources_elsewhere(session_id),
    );
    unique_after_keeping(cut.session_usage@, usage_name(), usage_elsewhere(session_id));
    unique_after_keeping(cut.attachments@, attachment_name(), attachment_elsewhere(session_id));
}

/// Changing a session keeps keys apart, where the session keeps its name.
pub proof fn managing_keeps_keys(
    before: StorageEngine,
    after: StorageEngine,
    session_id: Seq<char>,
    row: SessionRow,
)
    requires
        is_keyed(before),
        some_row(before.sessions@, is_session(session_id)),
        row.session_id@ == session_id,
        session_changed(before, after, session_id, row),
    ensures
        is_keyed(after),
{
    first_is_found(before.sessions@, is_session(session_id));
    let place = place_of_session(before, session_id);
    unique_after_update(before.sessions@, session_name(), place, row);
}

/// Letting goals wait keeps keys apart.
pub proof fn pausing_goals_keeps_keys(
    before: StorageEngine,
    after: StorageEngine,
    scope: Option<String>,
)
    requires
        is_keyed(before),
        goals_paused(before, after, scope),
    ensures
        is_keyed(after),
{
    let gone = stale_continuations(
        before.inputs@,
        running_goals(before.goals@, scope),
    );
    let cut = choose|cut: StorageEngine| #[trigger]
        inputs_removed(before, cut, gone) && after == (StorageEngine {
            goals: after.goals,
            ..cut
        });
    removing_inputs_keeps_keys(before, cut, gone);
}

proof fn change_turns_keep_keys(
    rows: Seq<HistoryOperationRow>,
    found: FoundFiles,
    order: Seq<usize>,
    trace: Seq<StorageEngine>,
    open: Seq<bool>,
    n: int,
)
    requires
        changes_in_turn(rows, found, order, trace, open),
        is_keyed(trace[0]),
        0 <= n <= open.len(),
    ensures
        is_keyed(trace[n]),
    decreases n,
{
    if n > 0 {
        change_turns_keep_keys(rows, found, order, trace, open, n - 1);
        let before = trace[n - 1];
        let row = rows[order[n - 1] as int];
        assert(change_recovered(
            trace[n - 1],
            trace[n - 1 + 1],
            row,
            found,
            Ok::<_, Refusal>(open[n - 1]),
        ));
        let rows_before = before.history_operations@;
        let id = row.operation_id@;
        moving_a_receipt_keeps_keys(
            rows_before,
            id,
            HistoryState::Preparing,
            HistoryState::Interrupted,
            Some(0),
        );
        moving_a_receipt_keeps_keys(
            rows_before,
            id,
            HistoryState::CleanupPending,
            HistoryState::Completed,
            Some(0),
        );
    }
}

/// Bringing changes of histories to an end keeps keys apart, whatever comes of it.
pub proof fn history_recovery_keeps_keys(
    before: StorageEngine,
    after: StorageEngine,
    scope: Option<String>,
    found: FoundFiles,
    outcome: Result<Seq<String>, Refusal>,
)
    requires
        is_keyed(before),
        changes_recovered(before, after, scope, found, outcome),
    ensures
        is_keyed(after),
{
    let rows = kept(before.history_operations@, is_unsettled(scope));
    if all_readable(rows) {
        let (order, trace, open) = choose|
            order: Seq<usize>,
            trace: Seq<StorageEngine>,
            open: Seq<bool>,
        | #[trigger]
            changes_in_turn(rows, found, order, trace, open) && trace[0] == before
                && trace.last() == after;
        change_turns_keep_keys(rows, found, order, trace, open, open.len() as int);
    }
}

/// Giving sessions their directories keeps keys apart.
pub proof fn placing_resources_keeps_keys(
    before: StorageEngine,
    after: StorageEngine,
    scope: Option<String>,
    order: Seq<usize>,
    result: StorageResult<Vec<SessionDirectories>>,
)
    requires
        is_keyed(before),
        resources_recovered(before, after, scope, order, result),
    ensures
        is_keyed(after),
{
    reveal(has_one_of_each);
    if !is_astray(before, scope) {
        let old_rows = before.session_resources@;
        let rows = after.session_resources@;
        assert forall|i: int, j: int| 0 <= i < j < rows.len() implies resources_name()(
            #[trigger] rows[i],
        ) != resources_name()(#[trigger] rows[j]) by {
            if j < old_rows.len() {
                assert(resources_name()(old_rows[i]) != resources_name()(old_rows[j]));
                assert(rows[i].session_id@ == old_rows[i].session_id@);
                assert(rows[j].session_id@ == old_rows[j].session_id@);
            }
        }
    }
}

proof fn completed_usages_keep_keys(
    engine: StorageEngine,
    rows: Seq<SessionUsageRow>,
    order: Seq<usize>,
    n: int,
)
    requires
        unique(engine.session_usage@, usage_name()),
    ensures
        unique(completed_upto(engine, rows, order, n).0.usage, usage_name()),
    decreases n,
{
    if n > 0 {
        completed_usages_keep_keys(engine, rows, order, n - 1);
        let (tables, error) = completed_upto(engine, rows, order, n - 1);
        let row = rows[order[n - 1] as int];
        let conversation = current_conversation(engine, main_target(row.session_id));
        if error is None && !lists(engine.unavailable_sessions@, row.session_id@)
            && conversation is Ok {
            let records = requests_of(
                ConversationOwner::MainSession { session_id: row.session_id },
                None,
                conversation->Ok_0,
                row.updated_at_ms,
                true,
            );
            if with_requests(tables, records) is Ok {
                accounting_keeps_keys(tables, records);
                let next = with_requests(tables, records)->Ok_0;
                let after = with_completed(next, row.session_id@);
                first_is_found(next.usage, is_usage_of(row.session_id@));
                if first(next.usage, is_usage_of(row.session_id@)) is Some {
                    let place = first(next.usage, is_usage_of(row.session_id@))->0;
                    unique_after_update(next.usage, usage_name(), place, after.usage[place]);
                }
            }
        }
    }
}

/// Completing usages keeps keys apart, whatever comes of it.
pub proof fn completing_usages_keeps_keys(
    before: StorageEngine,
    after: StorageEngine,
    scope: Option<String>,
    order: Seq<usize>,
    outcome: Result<(), Refusal>,
)
    requires
        is_keyed(before),
        usages_completed(before, after, scope, order, outcome),
    ensures
        is_keyed(after),
{
    reveal(has_one_of_each);
    completed_usages_keep_keys(
        before,
        kept(before.session_usage@, is_incomplete(scope)),
        order,
        order.len() as int,
    );
}

/// Mending a session keeps keys apart, whatever comes of it.
pub proof fn mending_keeps_keys<E: Fn(&ConversationMessage) -> Vec<u8>>(
    before: StorageEngine,
    steps: MendingSteps,
    after: StorageEngine,
    session_id: String,
    found: FoundFiles,
    encode: E,
    result: StorageResult<MendedSession>,
)
    requires
        is_keyed(before),
        session_mended(before, steps, after, session_id, found, encode, result),
    ensures
        is_keyed(after),
{
    let scope = Some(session_id);
    if steps.directories is Err {
        placing_resources_keeps_keys(
            before,
            after,
            scope,
            steps.directory_order,
            steps.directories,
        );
    }
    if steps.directories is Ok {
        placing_resources_keeps_keys(
            before,
            steps.repaired,
            scope,
            steps.directory_order,
            steps.directories,
        );
        match result {
            Err(error) => {
                history_recovery_keeps_keys(
                    steps.repaired,
                    after,
                    scope,
                    found,
                    Err::<Seq<String>, Refusal>(error@),
                );
            },
            Ok(_) => {
                history_recovery_keeps_keys(
                    steps.repaired,
                    steps.settled,
                    scope,
                    found,
                    Ok::<Seq<String>, Refusal>(steps.uncleaned),
                );
                append_recovery_keeps_keys(
                    steps.settled,
                    steps.appended,
                    scope,
                    AppendTable::Session,
                    steps.failed_appends,
                );
                append_recovery_keeps_keys(
                    steps.appended,
                    steps.tasks_appended,
                    scope,
                    AppendTable::ChildTask,
                    steps.failed_task_appends,
                );
                exchange_recovery_keeps_keys(
                    steps.tasks_appended,
                    steps.tasks_exchanged,
                    scope,
                    PendingTable::ChildTask,
                    encode,
                    steps.failed_task_exchanges,
                );
                assert(is_keyed(steps.tasks_ended));
                exchange_recovery_keeps_keys(
                    steps.tasks_ended,
                    steps.exchanged,
                    scope,
                    PendingTable::Run,
                    encode,
                    steps.failed_exchanges,
                );
            },
        }
    }
}

/// Taking up a session keeps keys apart, whatever comes of it.
pub proof fn taking_up_keeps_keys(
    before: StorageEngine,
    steps: TakingUpSteps,
    after: StorageEngine,
    session_id: String,
    mended: MendedSession,
    diagnostic: bool,
    result: StorageResult<LoadedSession>,
)
    requires
        is_keyed(before),
        session_taken_up(before, steps, after, session_id, mended, diagnostic, result),
    ensures
        is_keyed(after),
{
    assert(is_keyed(steps.judged));
    if goals_paused(steps.judged, steps.paused, Some(session_id)) {
        pausing_goals_keeps_keys(steps.judged, steps.paused, Some(session_id));
        if usages_completed(steps.paused, after, Some(session_id), steps.order, Ok(())) {
            completing_usages_keeps_keys(
                steps.paused,
                after,
                Some(session_id),
                steps.order,
                Ok(()),
            );
        } else if result is Err && usages_completed(
            steps.paused,
            after,
            Some(session_id),
            steps.order,
            Err::<(), Refusal>(result->Err_0@),
        ) {
            completing_usages_keeps_keys(
                steps.paused,
                after,
                Some(session_id),
                steps.order,
                Err::<(), Refusal>(result->Err_0@),
            );
        }
    }
}

} // verus!
