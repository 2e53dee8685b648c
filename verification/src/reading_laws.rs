//! Every record stands for one message, and what is written is read as it was given.

use std::sync::Arc;
use vstd::prelude::*;

use crate::append_effect::{
    has_other_receipt, purpose_applied, purpose_tables, AppendPurpose, ConversationStorageTarget,
    StagedAppend,
};
use crate::append_laws::{
    appended_messages_are_read_back, appends_switch_no_body, replaced_conversation_is_read_back,
};
use crate::cascade::{children_of, exchange_out, inputs_removed, runs_of};
use crate::conversation::{
    batch_messages, batch_records, framed_records_are_read_back, message_of, RecordedMessage,
};
use crate::engine::{current_conversation, path_component, StorageEngine};
use crate::error::{Refusal, StorageResult};
use crate::exchange_recovery::{
    committed_at, exchange_attempted, exchange_in_scope, exchange_recovered, exchanges_in_turn,
    exchanges_recovered, failing_owners, ready_committed, recovered_ready,
};
use crate::goal::{goals_paused, running_goals, stale_continuations};
use crate::history_recovery::{
    all_readable, change_recovered, changes_in_turn, changes_recovered, is_unsettled, FoundFiles,
};
use crate::message::{held, ConversationMessage};
use crate::path_rewrite::{batch_rewritten, record_rewritten, refers_to_files, PathRewrite};
use crate::recovery::{
    announced, append_attempted, appends, appends_recovered, attempted, completes_in_turn,
    failed_owners, finalization_refusal, in_scope, main_target, message_of_entry, message_of_joined,
    planned, replacement_refusal, replacement_written, resolved, resolved_batch_is_read, staged,
    staging_refusal, switch_refusal, switched, table_of, written, AppendTable, CommittedBatch,
    ReplacementPlan,
};
use crate::rows::HistoryOperationRow;
use crate::run_state::{end_refusal, run_settled, time_told, RunSettlement, RunSettlementResult};
use crate::session_fork::{
    fork_attempted, fork_rewrites, fork_stored, forked, storing_refusal, ForkResources, SessionFork,
    StoredSessionFork,
};
use crate::session_history::{
    clear_attempted, clear_begun, clear_opened, clear_refusal, clear_settled, conversation_emptied,
    emptied, inputs_of, is_operation, receipt_dropped, ClearProgress, SessionHistoryClear,
};
use crate::session_loading::{
    session_mended, session_taken_up, LoadedSession, MendedSession, MendingSteps, TakingUpSteps,
};
use crate::session_rewrite::{
    rewrite_attempted, rewrite_committed, rewrite_refusal, rewritten,
    rewritten_conversation_is_read_back, taken_back, target_order, tasks_of, went_on,
    ConversationRewrite, RewriteResult,
};
use crate::session_transfer::{session_deleted, session_forgotten};
use crate::table::{first, first_is_found, kept, kept_rows};
use crate::tool_exchange::{
    begin_refusal, conversation_target, exchange_batch, exchange_begun, exchange_committed,
    exchange_completed, exchange_completion_refusal, exchange_purpose, exchanges, is_exchange,
    loaded, pending_table, readied, CompletedExchange, NewExchange, PendingExchange, PendingTable,
    ReadyExchange,
};
use crate::transfer_laws::forked_conversation_is_read_back;
use crate::work_plan::StoredWorkPlan;

verus! {

/// The records of a batch stand for its messages.
pub open spec fn is_recorded_as(
    batch: Seq<Arc<RecordedMessage>>,
    meaning: spec_fn(Seq<u8>) -> Arc<ConversationMessage>,
) -> bool {
    forall|i: int|
        0 <= i < batch.len() ==> (#[trigger] batch[i]).message == meaning(batch[i].record@)
}

/// The records of an exchange stand for its messages.
pub open spec fn exchange_is_recorded_as(
    row: PendingExchange,
    meaning: spec_fn(Seq<u8>) -> Arc<ConversationMessage>,
) -> bool {
    &&& is_recorded_as(seq![row.assistant], meaning)
    &&& row.ready is Some ==> is_recorded_as(
        exchange_batch(row.assistant, *row.ready->0),
        meaning,
    )
}

/// The records of exchanges stand for their messages.
pub open spec fn exchanges_are_recorded_as(
    rows: Seq<Arc<PendingExchange>>,
    meaning: spec_fn(Seq<u8>) -> Arc<ConversationMessage>,
) -> bool {
    forall|i: int| 0 <= i < rows.len() ==> exchange_is_recorded_as(*(#[trigger] rows[i]), meaning)
}

/// Every record stands for one message, wherever the engine holds it.
pub open spec fn reads_as(
    engine: StorageEngine,
    meaning: spec_fn(Seq<u8>) -> Arc<ConversationMessage>,
) -> bool {
    &&& forall|record: Seq<u8>| #[trigger]
        message_of(engine.known@, record) is Some ==> message_of(engine.known@, record)->0
            == meaning(record)
    &&& exchanges_are_recorded_as(engine.pending_exchanges@, meaning)
    &&& exchanges_are_recorded_as(engine.child_pending_exchanges@, meaning)
}

/// What writes messages down writes records that stand for them.
pub open spec fn writes_as<E: Fn(&ConversationMessage) -> Vec<u8>>(
    encode: E,
    meaning: spec_fn(Seq<u8>) -> Arc<ConversationMessage>,
) -> bool {
    forall|message: Arc<ConversationMessage>, record: Vec<u8>| #[trigger]
        encode.ensures((&*message,), record) ==> meaning(record@) == message
}

/// An engine that holds nothing holds nothing twice.
pub proof fn nothing_is_read_from_nothing(
    engine: StorageEngine,
    meaning: spec_fn(Seq<u8>) -> Arc<ConversationMessage>,
)
    requires
        engine.known@.len() == 0,
        engine.pending_exchanges@.len() == 0,
        engine.child_pending_exchanges@.len() == 0,
    ensures
        reads_as(engine, meaning),
{
}

proof fn batch_is_read_as(
    batch: Seq<Arc<RecordedMessage>>,
    meaning: spec_fn(Seq<u8>) -> Arc<ConversationMessage>,
    record: Seq<u8>,
)
    requires
        is_recorded_as(batch, meaning),
        message_of(batch, record) is Some,
    ensures
        message_of(batch, record)->0 == meaning(record),
    decreases batch.len(),
{
    if batch[0].record@ != record {
        assert forall|i: int| 0 <= i < batch.drop_first().len() implies (
        #[trigger] batch.drop_first()[i]).message == meaning(batch.drop_first()[i].record@) by {
            assert(batch.drop_first()[i] == batch[i + 1]);
        }
        batch_is_read_as(batch.drop_first(), meaning, record);
    }
}

/// Where the engine learns messages as they are recorded, every record still stands for one.
proof fn learning_keeps_meaning(
    before: StorageEngine,
    after: StorageEngine,
    batch: Seq<Arc<RecordedMessage>>,
    meaning: spec_fn(Seq<u8>) -> Arc<ConversationMessage>,
)
    requires
        reads_as(before, meaning),
        is_recorded_as(batch, meaning),
        forall|record: Seq<u8>| #[trigger]
            message_of(after.known@, record) == message_of(before.known@ + batch, record),
        after.pending_exchanges@ == before.pending_exchanges@,
        after.child_pending_exchanges@ == before.child_pending_exchanges@,
    ensures
        reads_as(after, meaning),
{
    assert forall|record: Seq<u8>| #[trigger]
        message_of(after.known@, record) is Some implies message_of(after.known@, record)->0
        == meaning(record) by {
        message_of_joined(before.known@, batch, record);
        if message_of(before.known@, record) is None {
            batch_is_read_as(batch, meaning, record);
        }
    }
}

proof fn fewer_exchanges_keep_meaning(
    rows: Seq<Arc<PendingExchange>>,
    condition: spec_fn(Arc<PendingExchange>) -> bool,
    meaning: spec_fn(Seq<u8>) -> Arc<ConversationMessage>,
)
    requires
        exchanges_are_recorded_as(rows, meaning),
    ensures
        exchanges_are_recorded_as(kept(rows, condition), meaning),
{
    kept_rows(rows, condition);
    let fewer = kept(rows, condition);
    assert forall|i: int| 0 <= i < fewer.len() implies exchange_is_recorded_as(
        held(#[trigger] fewer[i]),
        meaning,
    ) by {
        assert(rows.contains(fewer[i]));
        let k = rows.index_of(fewer[i]);
        assert(exchange_is_recorded_as(held(rows[k]), meaning));
    }
}

/// Records that stand for their messages are read as the messages that were given.
pub proof fn recorded_messages_are_read_as_given(
    engine: StorageEngine,
    batch: Seq<Arc<RecordedMessage>>,
    meaning: spec_fn(Seq<u8>) -> Arc<ConversationMessage>,
)
    requires
        reads_as(engine, meaning),
        is_recorded_as(batch, meaning),
    ensures
        resolved(engine.known@, batch) == batch_messages(batch),
{
    let known = engine.known@;
    assert forall|i: int| 0 <= i < batch.len() implies #[trigger] resolved(known, batch)[i]
        == batch_messages(batch)[i] by {
        let record = batch[i].record@;
        assert((known + batch)[known.len() + i] == batch[i]);
        message_of_entry(known + batch, known.len() + i);
        message_of_joined(known, batch, record);
        if message_of(known, record) is None {
            batch_is_read_as(batch, meaning, record);
        }
    }
    assert(resolved(known, batch) =~= batch_messages(batch));
}

/// Completing an append, whatever comes of it, changes what no record stands for.
pub proof fn completing_keeps_meaning(
    before: StorageEngine,
    after: StorageEngine,
    operation_id: Seq<char>,
    table: AppendTable,
    meaning: spec_fn(Seq<u8>) -> Arc<ConversationMessage>,
)
    requires
        reads_as(before, meaning),
        attempted(before, after, operation_id, table),
    ensures
        reads_as(after, meaning),
{
    if written(before, operation_id, table) is Ok && finalization_refusal(
        before,
        operation_id,
        table,
    ) is None {
        let row = announced(before, operation_id, table)->Ok_0;
        let reached = StorageEngine { files: after.files, ..before };
        assert(purpose_tables(reached) == purpose_tables(before));
        let purpose = purpose_applied(
            purpose_tables(before),
            row.target,
            held(row.purpose),
            row.created_at_ms,
        );
        assert(purpose_tables(after).exchanges == purpose.exchanges);
        assert(purpose_tables(after).child_exchanges == purpose.child_exchanges);
        appends_switch_no_body(before, after, operation_id, table, row.target);
        match (row.target, held(row.purpose)) {
            (
                ConversationStorageTarget::Session { session_id, run_id },
                AppendPurpose::ToolExchange { receipt_id, skill_activations },
            ) => {
                fewer_exchanges_keep_meaning(
                    before.pending_exchanges@,
                    has_other_receipt(receipt_id@),
                    meaning,
                );
            },
            (
                ConversationStorageTarget::ChildTask { session_id, child_task_id },
                AppendPurpose::ChildToolExchange { receipt_id },
            ) => {
                fewer_exchanges_keep_meaning(
                    before.child_pending_exchanges@,
                    has_other_receipt(receipt_id@),
                    meaning,
                );
            },
            _ => {},
        }
    }
}

/// After an append, whatever comes of it, every record still stands for one message.
pub proof fn appending_keeps_meaning(
    before: StorageEngine,
    after: StorageEngine,
    operation_id: String,
    target: ConversationStorageTarget,
    batch: Seq<Arc<RecordedMessage>>,
    message_step: Option<u32>,
    created_at_ms: i64,
    purpose: AppendPurpose,
    outcome: Result<CommittedBatch, Refusal>,
    meaning: spec_fn(Seq<u8>) -> Arc<ConversationMessage>,
)
    requires
        reads_as(before, meaning),
        is_recorded_as(batch, meaning),
        append_attempted(
            before,
            after,
            operation_id,
            target,
            batch,
            message_step,
            created_at_ms,
            purpose,
            outcome,
        ),
    ensures
        reads_as(after, meaning),
{
    if staging_refusal(before, operation_id@, target, batch) is None {
        let announcing = choose|announcing: StorageEngine| #[trigger]
            staged(
                before,
                announcing,
                operation_id,
                target,
                batch,
                message_step,
                created_at_ms,
                purpose,
            ) && attempted(announcing, after, operation_id@, table_of(target));
        learning_keeps_meaning(before, announcing, batch, meaning);
        completing_keeps_meaning(announcing, after, operation_id@, table_of(target), meaning);
    }
}

/// A completed append is read as it was given: the conversation is what it was, then the messages
/// of the batch.
pub proof fn appended_messages_are_read_as_given(
    before: StorageEngine,
    announcing: StorageEngine,
    after: StorageEngine,
    operation_id: String,
    target: ConversationStorageTarget,
    batch: Seq<Arc<RecordedMessage>>,
    message_step: Option<u32>,
    created_at_ms: i64,
    purpose: AppendPurpose,
    meaning: spec_fn(Seq<u8>) -> Arc<ConversationMessage>,
)
    requires
        reads_as(before, meaning),
        is_recorded_as(batch, meaning),
        staging_refusal(before, operation_id@, target, batch) is None,
        staged(
            before,
            announcing,
            operation_id,
            target,
            batch,
            message_step,
            created_at_ms,
            purpose,
        ),
        attempted(announcing, after, operation_id@, table_of(target)),
    ensures
        current_conversation(after, target) == Ok::<_, Refusal>(
            current_conversation(before, target)->Ok_0 + batch_messages(batch),
        ),
        reads_as(after, meaning),
{
    appended_messages_are_read_back(
        before,
        announcing,
        after,
        operation_id,
        target,
        batch,
        message_step,
        created_at_ms,
        purpose,
    );
    recorded_messages_are_read_as_given(before, batch, meaning);
    learning_keeps_meaning(before, announcing, batch, meaning);
    completing_keeps_meaning(announcing, after, operation_id@, table_of(target), meaning);
}

/// After the end of a run, whatever comes of it, every record still stands for one message.
pub proof fn run_settlement_keeps_meaning(
    before: StorageEngine,
    after: StorageEngine,
    settlement: RunSettlement,
    outcome: Result<RunSettlementResult, Refusal>,
    meaning: spec_fn(Seq<u8>) -> Arc<ConversationMessage>,
)
    requires
        reads_as(before, meaning),
        is_recorded_as(settlement.messages@, meaning),
        run_settled(before, after, settlement, outcome),
    ensures
        reads_as(after, meaning),
{
    if end_refusal(before, settlement) is None && settlement.messages@.len() > 0 {
        let target = ConversationStorageTarget::Session {
            session_id: settlement.session_id,
            run_id: settlement.run_id,
        };
        let appended = choose|appended: Result<CommittedBatch, Refusal>| #[trigger]
            append_attempted(
                before,
                after,
                settlement.operation_id,
                target,
                settlement.messages@,
                settlement.message_step,
                settlement.finished_at_ms,
                AppendPurpose::RunSettlement(settlement.effect),
                appended,
            );
        appending_keeps_meaning(
            before,
            after,
            settlement.operation_id,
            target,
            settlement.messages@,
            settlement.message_step,
            settlement.finished_at_ms,
            AppendPurpose::RunSettlement(settlement.effect),
            appended,
            meaning,
        );
    }
}

/// After an exchange was begun, whatever comes of it, every record still stands for one message.
pub proof fn beginning_an_exchange_keeps_meaning(
    before: StorageEngine,
    after: StorageEngine,
    new: NewExchange,
    outcome: Result<(), Refusal>,
    meaning: spec_fn(Seq<u8>) -> Arc<ConversationMessage>,
)
    requires
        reads_as(before, meaning),
        is_recorded_as(seq![new.assistant], meaning),
        exchange_begun(before, after, new, outcome),
    ensures
        reads_as(after, meaning),
{
    if begin_refusal(before, new) is None {
        let table = pending_table(new.target);
        let rows = exchanges(before, table);
        let longer = exchanges(after, table);
        assert(longer =~= rows.push(longer.last()));
        assert(held(longer.last()).ready is None);
        assert(exchanges_are_recorded_as(longer, meaning));
    }
}

proof fn readying_keeps_meaning(
    before: StorageEngine,
    after: StorageEngine,
    receipt_id: Seq<char>,
    table: PendingTable,
    ready: Arc<ReadyExchange>,
    meaning: spec_fn(Seq<u8>) -> Arc<ConversationMessage>,
)
    requires
        reads_as(before, meaning),
        loaded(before, receipt_id, table) is Ok,
        readied(before, after, receipt_id, table, ready),
        is_recorded_as(
            exchange_batch(loaded(before, receipt_id, table)->Ok_0.assistant, held(ready)),
            meaning,
        ),
    ensures
        reads_as(after, meaning),
{
    let rows = exchanges(before, table);
    first_is_found(rows, is_exchange(receipt_id));
    let place = first(rows, is_exchange(receipt_id))->0;
    let next = exchanges(after, table);
    assert(exchange_is_recorded_as(held(rows[place]), meaning));
    assert(exchange_is_recorded_as(held(next[place]), meaning));
    assert forall|i: int| 0 <= i < next.len() implies exchange_is_recorded_as(
        held(#[trigger] next[i]),
        meaning,
    ) by {
        if i != place {
            assert(next[i] == rows[i]);
        }
    }
}

proof fn committing_keeps_meaning(
    before: StorageEngine,
    after: StorageEngine,
    operation_id: String,
    row: PendingExchange,
    ready: ReadyExchange,
    completed_at_ms: i64,
    outcome: Result<CommittedBatch, Refusal>,
    meaning: spec_fn(Seq<u8>) -> Arc<ConversationMessage>,
)
    requires
        reads_as(before, meaning),
        is_recorded_as(exchange_batch(row.assistant, ready), meaning),
        exchange_committed(before, after, operation_id, row, ready, completed_at_ms, outcome),
    ensures
        reads_as(after, meaning),
{
    appending_keeps_meaning(
        before,
        after,
        operation_id,
        conversation_target(row.target),
        exchange_batch(row.assistant, ready),
        row.step,
        completed_at_ms,
        exchange_purpose(row.target, row.receipt_id, ready),
        outcome,
        meaning,
    );
}

/// After an exchange was completed, whatever comes of it, every record still stands for one
/// message.
pub proof fn completing_an_exchange_keeps_meaning(
    before: StorageEngine,
    after: StorageEngine,
    completed: CompletedExchange,
    table: PendingTable,
    outcome: Result<CommittedBatch, Refusal>,
    meaning: spec_fn(Seq<u8>) -> Arc<ConversationMessage>,
)
    requires
        reads_as(before, meaning),
        loaded(before, completed.receipt_id@, table) is Ok ==> is_recorded_as(
            exchange_batch(
                loaded(before, completed.receipt_id@, table)->Ok_0.assistant,
                held(completed.ready),
            ),
            meaning,
        ),
        exchange_completed(before, after, completed, table, outcome),
    ensures
        reads_as(after, meaning),
{
    if exchange_completion_refusal(before, completed, table) is None {
        let row = PendingExchange {
            step: completed.step,
            ..loaded(before, completed.receipt_id@, table)->Ok_0
        };
        let prepared = choose|prepared: StorageEngine| #[trigger]
            readied(before, prepared, completed.receipt_id@, table, completed.ready)
                && exchange_committed(
                prepared,
                after,
                completed.operation_id,
                row,
                held(completed.ready),
                completed.completed_at_ms,
                outcome,
            );
        readying_keeps_meaning(
            before,
            prepared,
            completed.receipt_id@,
            table,
            completed.ready,
            meaning,
        );
        committing_keeps_meaning(
            prepared,
            after,
            completed.operation_id,
            row,
            held(completed.ready),
            completed.completed_at_ms,
            outcome,
            meaning,
        );
    }
}

proof fn committing_ready_results_keeps_meaning(
    before: StorageEngine,
    after: StorageEngine,
    row: PendingExchange,
    ready: ReadyExchange,
    clock: Result<i64, Refusal>,
    outcome: Result<CommittedBatch, Refusal>,
    meaning: spec_fn(Seq<u8>) -> Arc<ConversationMessage>,
)
    requires
        reads_as(before, meaning),
        is_recorded_as(exchange_batch(row.assistant, ready), meaning),
        ready_committed(before, after, row, ready, clock, outcome),
    ensures
        reads_as(after, meaning),
{
    if after != before {
        let now = clock->Ok_0;
        assert(committed_at(before, after, row, ready, now, outcome));
        let operation_id = choose|operation_id: String|
            operation_id@ == "recover-"@ + row.receipt_id@ && #[trigger] exchange_committed(
                before,
                after,
                operation_id,
                row,
                ready,
                now,
                outcome,
            );
        committing_keeps_meaning(before, after, operation_id, row, ready, now, outcome, meaning);
    }
}

proof fn recovering_an_exchange_keeps_meaning<E: Fn(&ConversationMessage) -> Vec<u8>>(
    before: StorageEngine,
    after: StorageEngine,
    receipt_id: Seq<char>,
    table: PendingTable,
    clock: Result<i64, Refusal>,
    encode: E,
    outcome: Result<CommittedBatch, Refusal>,
    meaning: spec_fn(Seq<u8>) -> Arc<ConversationMessage>,
)
    requires
        reads_as(before, meaning),
        writes_as(encode, meaning),
        exchange_recovered(before, after, receipt_id, table, clock, encode, outcome),
    ensures
        reads_as(after, meaning),
{
    if after != before {
        let row = loaded(before, receipt_id, table)->Ok_0;
        let rows = exchanges(before, table);
        first_is_found(rows, is_exchange(receipt_id));
        let place = first(rows, is_exchange(receipt_id))->0;
        assert(exchange_is_recorded_as(held(rows[place]), meaning));
        if row.state is Begun {
            let (ready, prepared) = choose|ready: Arc<ReadyExchange>, prepared: StorageEngine|
                #[trigger] readied(before, prepared, receipt_id, table, ready) && recovered_ready(
                    before,
                    row,
                    table,
                    *ready,
                    encode,
                ) && ready_committed(prepared, after, row, *ready, clock, outcome);
            let batch = exchange_batch(row.assistant, held(ready));
            assert forall|i: int| 0 <= i < batch.len() implies (#[trigger] batch[i]).message
                == meaning(batch[i].record@) by {
                if i == 0 {
                    assert(seq![row.assistant][0] == batch[0]);
                } else {
                    let result = held(ready).results@[i - 1];
                    assert(batch[i] == result);
                    assert(encode.ensures((&*result.message,), result.record));
                }
            }
            readying_keeps_meaning(before, prepared, receipt_id, table, ready, meaning);
            committing_ready_results_keeps_meaning(
                prepared,
                after,
                row,
                held(ready),
                clock,
                outcome,
                meaning,
            );
        } else {
            committing_ready_results_keeps_meaning(
                before,
                after,
                row,
                held(row.ready->0),
                clock,
                outcome,
                meaning,
            );
        }
    }
}

proof fn exchange_turns_keep_meaning<E: Fn(&ConversationMessage) -> Vec<u8>>(
    rows: Seq<Arc<PendingExchange>>,
    table: PendingTable,
    encode: E,
    order: Seq<usize>,
    trace: Seq<StorageEngine>,
    failures: Seq<bool>,
    meaning: spec_fn(Seq<u8>) -> Arc<ConversationMessage>,
    n: int,
)
    requires
        exchanges_in_turn(rows, table, encode, order, trace, failures),
        writes_as(encode, meaning),
        reads_as(trace[0], meaning),
        0 <= n <= order.len(),
    ensures
        reads_as(trace[n], meaning),
    decreases n,
{
    if n > 0 {
        exchange_turns_keep_meaning(rows, table, encode, order, trace, failures, meaning, n - 1);
        let receipt_id = rows[order[n - 1] as int].receipt_id@;
        assert(exchange_attempted(
            trace[n - 1],
            trace[n - 1 + 1],
            receipt_id,
            table,
            encode,
            failures[n - 1],
        ));
        let (elapsed, outcome) = choose|
            elapsed: Option<u128>,
            outcome: Result<CommittedBatch, Refusal>,
        | #[trigger]
            exchange_recovered(
                trace[n - 1],
                trace[n],
                receipt_id,
                table,
                time_told(elapsed),
                encode,
                outcome,
            ) && failures[n - 1] == (outcome is Err);
        recovering_an_exchange_keeps_meaning(
            trace[n - 1],
            trace[n],
            receipt_id,
            table,
            time_told(elapsed),
            encode,
            outcome,
            meaning,
        );
    }
}

/// After exchanges were recovered, every record still stands for one message.
pub proof fn exchange_recovery_keeps_meaning<E: Fn(&ConversationMessage) -> Vec<u8>>(
    before: StorageEngine,
    after: StorageEngine,
    scope: Option<String>,
    table: PendingTable,
    encode: E,
    unavailable: Seq<String>,
    meaning: spec_fn(Seq<u8>) -> Arc<ConversationMessage>,
)
    requires
        reads_as(before, meaning),
        writes_as(encode, meaning),
        exchanges_recovered(before, after, scope, table, encode, unavailable),
    ensures
        reads_as(after, meaning),
{
    let rows = kept(exchanges(before, table), exchange_in_scope(scope));
    let (order, trace, failures) = choose|
        order: Seq<usize>,
        trace: Seq<StorageEngine>,
        failures: Seq<bool>,
    | #[trigger]
        exchanges_in_turn(rows, table, encode, order, trace, failures) && trace[0] == before
            && trace.last() == after && unavailable == failing_owners(rows, order, failures);
    exchange_turns_keep_meaning(
        rows,
        table,
        encode,
        order,
        trace,
        failures,
        meaning,
        order.len() as int,
    );
}

proof fn turns_keep_meaning(
    rows: Seq<Arc<StagedAppend>>,
    table: AppendTable,
    order: Seq<usize>,
    trace: Seq<StorageEngine>,
    meaning: spec_fn(Seq<u8>) -> Arc<ConversationMessage>,
    n: int,
)
    requires
        completes_in_turn(rows, table, order, trace),
        reads_as(trace[0], meaning),
        0 <= n <= order.len(),
    ensures
        reads_as(trace[n], meaning),
    decreases n,
{
    if n > 0 {
        turns_keep_meaning(rows, table, order, trace, meaning, n - 1);
        let operation_id = rows[order[n - 1] as int].operation_id@;
        assert(attempted(trace[n - 1], trace[n - 1 + 1], operation_id, table));
        completing_keeps_meaning(trace[n - 1], trace[n], operation_id, table, meaning);
    }
}

/// After appends were recovered, every record still stands for one message.
pub proof fn append_recovery_keeps_meaning(
    before: StorageEngine,
    after: StorageEngine,
    scope: Option<String>,
    table: AppendTable,
    unavailable: Seq<String>,
    meaning: spec_fn(Seq<u8>) -> Arc<ConversationMessage>,
)
    requires
        reads_as(before, meaning),
        appends_recovered(before, after, scope, table, unavailable),
    ensures
        reads_as(after, meaning),
{
    let rows = kept(appends(before, table), in_scope(scope));
    let (order, trace) = choose|order: Seq<usize>, trace: Seq<StorageEngine>| #[trigger]
        completes_in_turn(rows, table, order, trace) && trace[0] == before && trace.last()
            == after && unavailable == failed_owners(
            rows,
            table,
            order,
            trace,
            order.len() as int,
        );
    turns_keep_meaning(rows, table, order, trace, meaning, order.len() as int);
}

/// Removing inputs with all that followed from them changes what no record stands for.
proof fn removing_inputs_keeps_meaning(
    before: StorageEngine,
    cut: StorageEngine,
    gone: Seq<String>,
    meaning: spec_fn(Seq<u8>) -> Arc<ConversationMessage>,
)
    requires
        reads_as(before, meaning),
        inputs_removed(before, cut, gone),
    ensures
        reads_as(cut, meaning),
{
    let runs = runs_of(before.runs@, gone);
    let children = children_of(before.child_tasks@, runs);
    fewer_exchanges_keep_meaning(before.pending_exchanges@, exchange_out(runs), meaning);
    fewer_exchanges_keep_meaning(before.child_pending_exchanges@, exchange_out(children), meaning);
}

/// After a replacement was written, every record still stands for one message.
pub proof fn writing_a_replacement_keeps_meaning(
    before: StorageEngine,
    prepared: StorageEngine,
    session_id: String,
    batch: Seq<Arc<RecordedMessage>>,
    plan: ReplacementPlan,
    meaning: spec_fn(Seq<u8>) -> Arc<ConversationMessage>,
)
    requires
        reads_as(before, meaning),
        is_recorded_as(batch, meaning),
        replacement_written(before, prepared, session_id, batch, plan),
    ensures
        reads_as(prepared, meaning),
{
    learning_keeps_meaning(before, prepared, batch, meaning);
}

/// A replacement that was prepared and then committed is read as it was given.
pub proof fn replaced_conversation_is_read_as_given(
    before: StorageEngine,
    prepared: StorageEngine,
    after: StorageEngine,
    session_id: String,
    batch: Seq<Arc<RecordedMessage>>,
    changed_at_ms: i64,
    meaning: spec_fn(Seq<u8>) -> Arc<ConversationMessage>,
)
    requires
        reads_as(before, meaning),
        is_recorded_as(batch, meaning),
        replacement_refusal(before, session_id, batch) is None,
        replacement_written(
            before,
            prepared,
            session_id,
            batch,
            planned(before, session_id, batch, changed_at_ms),
        ),
        switch_refusal(prepared, planned(before, session_id, batch, changed_at_ms)) is None,
        switched(prepared, after, planned(before, session_id, batch, changed_at_ms)),
    ensures
        current_conversation(after, main_target(session_id)) == Ok::<_, Refusal>(
            batch_messages(batch),
        ),
        reads_as(after, meaning),
{
    replaced_conversation_is_read_back(
        before,
        prepared,
        after,
        session_id,
        batch,
        changed_at_ms,
    );
    recorded_messages_are_read_as_given(before, batch, meaning);
    learning_keeps_meaning(before, prepared, batch, meaning);
}

/// After a rewrite, whatever comes of it, every record still stands for one message.
pub proof fn rewriting_keeps_meaning(
    before: StorageEngine,
    after: StorageEngine,
    rewrite: ConversationRewrite,
    outcome: Result<RewriteResult, Refusal>,
    meaning: spec_fn(Seq<u8>) -> Arc<ConversationMessage>,
)
    requires
        reads_as(before, meaning),
        is_recorded_as(rewrite.conversation@, meaning),
        rewrite_attempted(before, after, rewrite, outcome),
    ensures
        reads_as(after, meaning),
{
    if after != before {
        let plan = planned(
            before,
            rewrite.session_id,
            rewrite.conversation@,
            rewrite.changed_at_ms,
        );
        let order = target_order(before, rewrite);
        let prepared = choose|prepared: StorageEngine| #[trigger]
            replacement_written(
                before,
                prepared,
                rewrite.session_id,
                rewrite.conversation@,
                plan,
            ) && rewrite_committed(prepared, after, plan, rewrite, order, outcome);
        learning_keeps_meaning(before, prepared, rewrite.conversation@, meaning);
        if rewrite_refusal(prepared, plan, rewrite, order) is None {
            let gone = taken_back(prepared.inputs@, rewrite.session_id@, order);
            let cut = choose|cut: StorageEngine| #[trigger]
                inputs_removed(prepared, cut, gone) && went_on(
                    cut,
                    after,
                    plan,
                    rewrite,
                    tasks_of(prepared, gone),
                );
            removing_inputs_keeps_meaning(prepared, cut, gone, meaning);
        }
    }
}

/// After a rewrite the conversation is read as the continuation that was given.
pub proof fn rewritten_conversation_is_read_as_given(
    before: StorageEngine,
    prepared: StorageEngine,
    after: StorageEngine,
    rewrite: ConversationRewrite,
    order: i64,
    meaning: spec_fn(Seq<u8>) -> Arc<ConversationMessage>,
)
    requires
        reads_as(before, meaning),
        is_recorded_as(rewrite.conversation@, meaning),
        replacement_refusal(before, rewrite.session_id, rewrite.conversation@) is None,
        replacement_written(
            before,
            prepared,
            rewrite.session_id,
            rewrite.conversation@,
            planned(before, rewrite.session_id, rewrite.conversation@, rewrite.changed_at_ms),
        ),
        rewrite_refusal(
            prepared,
            planned(before, rewrite.session_id, rewrite.conversation@, rewrite.changed_at_ms),
            rewrite,
            order,
        ) is None,
        rewritten(
            prepared,
            after,
            planned(before, rewrite.session_id, rewrite.conversation@, rewrite.changed_at_ms),
            rewrite,
            order,
        ),
    ensures
        current_conversation(after, main_target(rewrite.session_id)) == Ok::<_, Refusal>(
            batch_messages(rewrite.conversation@),
        ),
{
    rewritten_conversation_is_read_back(before, prepared, after, rewrite, order);
    recorded_messages_are_read_as_given(before, rewrite.conversation@, meaning);
}

proof fn rewritten_batch_is_recorded<E: Fn(&ConversationMessage) -> Vec<u8>>(
    rewrites: Seq<PathRewrite>,
    batch: Seq<Arc<RecordedMessage>>,
    next: Seq<Arc<RecordedMessage>>,
    encode: E,
    meaning: spec_fn(Seq<u8>) -> Arc<ConversationMessage>,
)
    requires
        is_recorded_as(batch, meaning),
        writes_as(encode, meaning),
        batch_rewritten(rewrites, batch, next, encode),
    ensures
        is_recorded_as(next, meaning),
{
    assert forall|i: int| 0 <= i < next.len() implies (#[trigger] next[i]).message == meaning(
        next[i].record@,
    ) by {
        assert(record_rewritten(rewrites, batch[i], next[i], encode));
        if refers_to_files(held(batch[i].message)) {
            assert(encode.ensures((&*next[i].message,), next[i].record));
        }
    }
}

/// After a fork, whatever comes of it, every record still stands for one message.
pub proof fn forking_keeps_meaning<E: Fn(&ConversationMessage) -> Vec<u8>>(
    before: StorageEngine,
    after: StorageEngine,
    fork: SessionFork,
    resources: ForkResources,
    encode: E,
    outcome: Result<StoredSessionFork, Refusal>,
    meaning: spec_fn(Seq<u8>) -> Arc<ConversationMessage>,
)
    requires
        reads_as(before, meaning),
        is_recorded_as(fork.conversation@, meaning),
        writes_as(encode, meaning),
        fork_attempted(before, after, fork, resources, encode, outcome),
    ensures
        reads_as(after, meaning),
{
    if after != before {
        let rewrites = fork_rewrites(before, fork);
        let batch = choose|batch: Seq<Arc<RecordedMessage>>| #[trigger]
            batch_rewritten(rewrites, fork.conversation@, batch, encode) && fork_stored(
                before,
                after,
                fork,
                batch,
                outcome,
            );
        rewritten_batch_is_recorded(rewrites, fork.conversation@, batch, encode, meaning);
        learning_keeps_meaning(before, after, batch, meaning);
    }
}

/// A forked conversation is read as it was given, with its files read from where they are in the
/// new session; where it refers to no files, it is the conversation that was given.
pub proof fn forked_conversation_is_read_as_given<E: Fn(&ConversationMessage) -> Vec<u8>>(
    before: StorageEngine,
    after: StorageEngine,
    fork: SessionFork,
    batch: Seq<Arc<RecordedMessage>>,
    plan: Option<Arc<StoredWorkPlan>>,
    encode: E,
    meaning: spec_fn(Seq<u8>) -> Arc<ConversationMessage>,
)
    requires
        reads_as(before, meaning),
        is_recorded_as(fork.conversation@, meaning),
        writes_as(encode, meaning),
        path_component(fork.session.session_id@),
        batch_rewritten(fork_rewrites(before, fork), fork.conversation@, batch, encode),
        storing_refusal(before, fork, batch) is None,
        forked(before, after, fork, batch, plan),
    ensures
        current_conversation(after, main_target(fork.session.session_id)) == Ok::<_, Refusal>(
            batch_messages(batch),
        ),
        (forall|i: int|
            0 <= i < fork.conversation@.len() ==> !refers_to_files(
                *(#[trigger] fork.conversation@[i]).message,
            )) ==> batch_messages(batch) == batch_messages(fork.conversation@),
{
    let rewrites = fork_rewrites(before, fork);
    rewritten_batch_is_recorded(rewrites, fork.conversation@, batch, encode, meaning);
    forked_conversation_is_read_back(before, after, fork, batch, plan);
    recorded_messages_are_read_as_given(before, batch, meaning);
    resolved_batch_is_read(before.known@, batch);
    framed_records_are_read_back(batch_records(batch));
    if forall|i: int|
        0 <= i < fork.conversation@.len() ==> !refers_to_files(
            held((#[trigger] fork.conversation@[i]).message),
        ) {
        assert forall|i: int| 0 <= i < batch.len() implies #[trigger] batch[i]
            == fork.conversation@[i] by {
            assert(record_rewritten(rewrites, fork.conversation@[i], batch[i], encode));
            assert(!refers_to_files(held(fork.conversation@[i].message)));
        }
        assert(batch =~= fork.conversation@);
    }
}

/// Letting an emptied conversation count, or giving it up, changes what no record stands for.
pub proof fn settling_a_clear_keeps_meaning(
    before: StorageEngine,
    after: StorageEngine,
    clear: SessionHistoryClear,
    stored: Result<(), Refusal>,
    outcome: Result<ClearProgress, Refusal>,
    meaning: spec_fn(Seq<u8>) -> Arc<ConversationMessage>,
)
    requires
        reads_as(before, meaning),
        clear_settled(before, after, clear, stored, outcome),
    ensures
        reads_as(after, meaning),
{
    if outcome is Ok {
        let gone = inputs_of(before.inputs@, clear.session_id@);
        let cut = choose|cut: StorageEngine| #[trigger]
            inputs_removed(before, cut, gone) && emptied(cut, after, clear);
        removing_inputs_keeps_meaning(before, cut, gone, meaning);
    }
}

proof fn beginning_a_clear_keeps_meaning(
    before: StorageEngine,
    after: StorageEngine,
    clear: SessionHistoryClear,
    outcome: Result<ClearProgress, Refusal>,
    meaning: spec_fn(Seq<u8>) -> Arc<ConversationMessage>,
)
    requires
        reads_as(before, meaning),
        clear_begun(before, after, clear, outcome),
    ensures
        reads_as(after, meaning),
{
    if clear_refusal(before, clear) is None && outcome is Ok {
        let opened = choose|opened: StorageEngine| #[trigger]
            clear_opened(before, opened, clear) && conversation_emptied(opened, after, clear);
        let gone = inputs_of(opened.inputs@, clear.session_id@);
        let cut = choose|cut: StorageEngine| #[trigger]
            inputs_removed(opened, cut, gone) && emptied(cut, after, clear);
        assert(reads_as(opened, meaning));
        removing_inputs_keeps_meaning(opened, cut, gone, meaning);
    }
}

/// After a conversation was emptied, whatever comes of it, every record still stands for one
/// message.
pub proof fn clearing_keeps_meaning(
    before: StorageEngine,
    after: StorageEngine,
    clear: SessionHistoryClear,
    outcome: Result<ClearProgress, Refusal>,
    meaning: spec_fn(Seq<u8>) -> Arc<ConversationMessage>,
)
    requires
        reads_as(before, meaning),
        clear_attempted(before, after, clear, outcome),
    ensures
        reads_as(after, meaning),
{
    if after != before {
        match first(before.history_operations@, is_operation(clear.operation_id@)) {
            None => {
                beginning_a_clear_keeps_meaning(before, after, clear, outcome, meaning);
            },
            Some(_) => {
                let reset = choose|reset: StorageEngine| #[trigger]
                    receipt_dropped(before, reset, clear.operation_id@) && clear_begun(
                        reset,
                        after,
                        clear,
                        outcome,
                    );
                assert(reads_as(reset, meaning));
                beginning_a_clear_keeps_meaning(reset, after, clear, outcome, meaning);
            },
        }
    }
}

/// After a session was deleted, every record still stands for one message.
pub proof fn deleting_keeps_meaning(
    before: StorageEngine,
    after: StorageEngine,
    session_id: Seq<char>,
    meaning: spec_fn(Seq<u8>) -> Arc<ConversationMessage>,
)
    requires
        reads_as(before, meaning),
        session_deleted(before, after, session_id),
    ensures
        reads_as(after, meaning),
{
    let gone = inputs_of(before.inputs@, session_id);
    let cut = choose|cut: StorageEngine| #[trigger]
        inputs_removed(before, cut, gone) && session_forgotten(cut, after, session_id);
    removing_inputs_keeps_meaning(before, cut, gone, meaning);
}

proof fn change_turns_keep_meaning(
    rows: Seq<HistoryOperationRow>,
    found: FoundFiles,
    order: Seq<usize>,
    trace: Seq<StorageEngine>,
    open: Seq<bool>,
    meaning: spec_fn(Seq<u8>) -> Arc<ConversationMessage>,
    n: int,
)
    requires
        changes_in_turn(rows, found, order, trace, open),
        reads_as(trace[0], meaning),
        0 <= n <= open.len(),
    ensures
        reads_as(trace[n], meaning),
    decreases n,
{
    if n > 0 {
        change_turns_keep_meaning(rows, found, order, trace, open, meaning, n - 1);
        assert(change_recovered(
            trace[n - 1],
            trace[n - 1 + 1],
            rows[order[n - 1] as int],
            found,
            Ok::<_, Refusal>(open[n - 1]),
        ));
    }
}

/// After changes of histories were brought to an end, every record still stands for one message.
pub proof fn history_recovery_keeps_meaning(
    before: StorageEngine,
    after: StorageEngine,
    scope: Option<String>,
    found: FoundFiles,
    outcome: Result<Seq<String>, Refusal>,
    meaning: spec_fn(Seq<u8>) -> Arc<ConversationMessage>,
)
    requires
        reads_as(before, meaning),
        changes_recovered(before, after, scope, found, outcome),
    ensures
        reads_as(after, meaning),
{
    let rows = kept(before.history_operations@, is_unsettled(scope));
    if all_readable(rows) {
        let (order, trace, open) = choose|
            order: Seq<usize>,
            trace: Seq<StorageEngine>,
            open: Seq<bool>,
        | #[trigger]
            changes_in_turn(rows, found, order, trace, open) && trace[0] == before
                && trace.last() == after;
        change_turns_keep_meaning(rows, found, order, trace, open, meaning, open.len() as int);
    }
}

/// After a session was mended, whatever comes of it, every record still stands for one message.
pub proof fn mending_keeps_meaning<E: Fn(&ConversationMessage) -> Vec<u8>>(
    before: StorageEngine,
    steps: MendingSteps,
    after: StorageEngine,
    session_id: String,
    found: FoundFiles,
    encode: E,
    result: StorageResult<MendedSession>,
    meaning: spec_fn(Seq<u8>) -> Arc<ConversationMessage>,
)
    requires
        reads_as(before, meaning),
        writes_as(encode, meaning),
        session_mended(before, steps, after, session_id, found, encode, result),
    ensures
        reads_as(after, meaning),
{
    let scope = Some(session_id);
    if steps.directories is Ok {
        assert(reads_as(steps.repaired, meaning));
        match result {
            Err(error) => {
                history_recovery_keeps_meaning(
                    steps.repaired,
                    after,
                    scope,
                    found,
                    Err::<Seq<String>, Refusal>(error@),
                    meaning,
                );
            },
            Ok(_) => {
                history_recovery_keeps_meaning(
                    steps.repaired,
                    steps.settled,
                    scope,
                    found,
                    Ok::<Seq<String>, Refusal>(steps.uncleaned),
                    meaning,
                );
                append_recovery_keeps_meaning(
                    steps.settled,
                    steps.appended,
                    scope,
                    AppendTable::Session,
                    steps.failed_appends,
                    meaning,
                );
                append_recovery_keeps_meaning(
                    steps.appended,
                    steps.tasks_appended,
                    scope,
                    AppendTable::ChildTask,
                    steps.failed_task_appends,
                    meaning,
                );
                exchange_recovery_keeps_meaning(
                    steps.tasks_appended,
                    steps.tasks_exchanged,
                    scope,
                    PendingTable::ChildTask,
                    encode,
                    steps.failed_task_exchanges,
                    meaning,
                );
                assert(reads_as(steps.tasks_ended, meaning));
                exchange_recovery_keeps_meaning(
                    steps.tasks_ended,
                    steps.exchanged,
                    scope,
                    PendingTable::Run,
                    encode,
                    steps.failed_exchanges,
                    meaning,
                );
            },
        }
    }
}

/// After a session was taken up, whatever comes of it, every record still stands for one message.
pub proof fn taking_up_keeps_meaning(
    before: StorageEngine,
    steps: TakingUpSteps,
    after: StorageEngine,
    session_id: String,
    mended: MendedSession,
    diagnostic: bool,
    result: StorageResult<LoadedSession>,
    meaning: spec_fn(Seq<u8>) -> Arc<ConversationMessage>,
)
    requires
        reads_as(before, meaning),
        session_taken_up(before, steps, after, session_id, mended, diagnostic, result),
    ensures
        reads_as(after, meaning),
{
    assert(reads_as(steps.judged, meaning));
    if goals_paused(steps.judged, steps.paused, Some(session_id)) {
        let gone = stale_continuations(
            steps.judged.inputs@,
            running_goals(steps.judged.goals@, Some(session_id)),
        );
        let cut = choose|cut: StorageEngine| #[trigger]
            inputs_removed(steps.judged, cut, gone) && steps.paused == (StorageEngine {
                goals: steps.paused.goals,
                ..cut
            });
        removing_inputs_keeps_meaning(steps.judged, cut, gone, meaning);
    }
}

} // verus!
