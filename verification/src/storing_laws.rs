//! What is recorded of messages that are appended.

use vstd::prelude::*;

use std::sync::Arc;

use crate::append_effect::{
    has_other_receipt, is_child_exchange, is_run_exchange, owner_of, purpose_applied,
    purpose_refusal, purpose_tables, starts_other_receipt, AppendPurpose, ConversationStorageTarget,
    PurposeTables, StagedAppend,
};
use crate::append_laws::announced_append_reaches_its_body;
use crate::conversation::RecordedMessage;
use crate::engine::StorageEngine;
use crate::error::Refusal;
use crate::message::{held, key_of, ConversationMessage, UserMessage};
use crate::recovery::{
    announced, append_attempted, appends, attempted, committed, completion_refusal,
    finalization_refusal, finalized, is_append, is_other_append, message_refs, payload_messages,
    run_of, staged, staging_refusal, table_of, usage_tables, AppendTable, CommittedBatch,
};
use crate::relations::{
    kept_is_filtered, session_stands_where_found, stands_at, task_at, task_is_found,
};
use crate::rewriting_laws::id_of_message;
use crate::rows::{
    ChildTaskRow, ConversationOwner, ModelRequestRecord, PendingStart, RunMessageRef, SessionRow,
    StoredSkillActivation,
};
use crate::run_state::RunSettlement;
use crate::table::{kept, some_row};
use crate::tool_exchange::{PendingExchange, PendingTarget};
use crate::usage::{requests_of, with_requests, UsageTables};

verus! {

/// The owner of a batch: the session, or one of its tasks.
pub open spec fn is_owner(owner: ConversationOwner, target: ConversationStorageTarget) -> bool {
    match (owner, target) {
        (
            ConversationOwner::MainSession { session_id: left },
            ConversationStorageTarget::Session { session_id: right, run_id: _ },
        ) => left == right,
        (
            ConversationOwner::ChildTask { session_id: left, child_task_id: task },
            ConversationStorageTarget::ChildTask { session_id: right, child_task_id: other },
        ) => left == right && task == other,
        _ => false,
    }
}

/// What happened to a store in which messages were appended.
struct Appended {
    announcing: StorageEngine,
    reached: StorageEngine,
    row: StagedAppend,
}

spec fn is_appended(
    before: StorageEngine,
    after: StorageEngine,
    operation_id: String,
    target: ConversationStorageTarget,
    batch: Seq<Arc<RecordedMessage>>,
    message_step: Option<u32>,
    created_at_ms: i64,
    purpose: AppendPurpose,
    outcome: CommittedBatch,
    steps: Appended,
) -> bool {
    let table = table_of(target);
    &&& staging_refusal(before, operation_id@, target, batch) is None
    &&& staged(
        before,
        steps.announcing,
        operation_id,
        target,
        batch,
        message_step,
        created_at_ms,
        purpose,
    )
    &&& announced(steps.announcing, operation_id@, table) == Ok::<_, Refusal>(steps.row)
    &&& steps.row == held(appends(steps.announcing, table).last())
    &&& steps.reached == (StorageEngine { files: after.files, ..steps.announcing })
    &&& finalization_refusal(steps.announcing, operation_id@, table) is None
    &&& finalized(steps.reached, after, steps.row, table)
    &&& committed(outcome, steps.announcing, steps.row)
    &&& attempted(steps.announcing, after, operation_id@, table)
}

proof fn appending_goes_in_steps(
    before: StorageEngine,
    after: StorageEngine,
    operation_id: String,
    target: ConversationStorageTarget,
    batch: Seq<Arc<RecordedMessage>>,
    message_step: Option<u32>,
    created_at_ms: i64,
    purpose: AppendPurpose,
    outcome: CommittedBatch,
) -> (steps: Appended)
    requires
        append_attempted(
            before,
            after,
            operation_id,
            target,
            batch,
            message_step,
            created_at_ms,
            purpose,
            Ok(outcome),
        ),
    ensures
        is_appended(
            before,
            after,
            operation_id,
            target,
            batch,
            message_step,
            created_at_ms,
            purpose,
            outcome,
            steps,
        ),
{
    let announcing = choose|announcing: StorageEngine| #[trigger]
        staged(
            before,
            announcing,
            operation_id,
            target,
            batch,
            message_step,
            created_at_ms,
            purpose,
        ) && attempted(announcing, after, operation_id@, table_of(target)) && completion_refusal(
            announcing,
            operation_id@,
            table_of(target),
        ) is None && committed(
            outcome,
            announcing,
            announced(announcing, operation_id@, table_of(target))->Ok_0,
        );
    announced_append_reaches_its_body(
        before,
        announcing,
        operation_id,
        target,
        batch,
        message_step,
        created_at_ms,
        purpose,
    );
    Appended {
        announcing,
        reached: StorageEngine { files: after.files, ..announcing },
        row: held(appends(announcing, table_of(target)).last()),
    }
}

/// Messages that are appended to a session's conversation are told to the caller from where the
/// conversation ended, are noted for the run that they came from, in their order and at the step
/// given, and raise the count of the session by as many as they are. Nothing stays announced.
pub proof fn appended_messages_are_noted_for_their_run(
    before: StorageEngine,
    after: StorageEngine,
    operation_id: String,
    session_id: String,
    run_id: String,
    batch: Seq<Arc<RecordedMessage>>,
    message_step: Option<u32>,
    created_at_ms: i64,
    purpose: AppendPurpose,
    outcome: CommittedBatch,
    s: int,
)
    requires
        append_attempted(
            before,
            after,
            operation_id,
            ConversationStorageTarget::Session { session_id, run_id },
            batch,
            message_step,
            created_at_ms,
            purpose,
            Ok(outcome),
        ),
        stands_at(before.sessions@, s, session_id@),
    ensures
        is_owner(outcome.owner, ConversationStorageTarget::Session { session_id, run_id }),
        outcome.body_generation == before.sessions@[s].body_generation,
        outcome.base_message_ordinal == before.sessions@[s].message_count,
        outcome.messages@.len() == batch.len(),
        after.run_message_refs@.len() == before.run_message_refs@.len() + batch.len(),
        forall|i: int|
            0 <= i < before.run_message_refs@.len() ==> #[trigger] after.run_message_refs@[i]
                == before.run_message_refs@[i],
        forall|k: int|
            0 <= k < batch.len() ==> {
                let noted = after.run_message_refs@[before.run_message_refs@.len() + k];
                &&& noted.run_id == run_id
                &&& noted.message_id@ == id_of_message(held(#[trigger] outcome.messages@[k]))
                &&& noted.step == message_step
            },
        after.sessions@.len() == before.sessions@.len(),
        after.sessions@[s].message_count == before.sessions@[s].message_count + batch.len(),
        forall|j: int|
            0 <= j < before.sessions@.len() && j != s ==> #[trigger] after.sessions@[j]
                == before.sessions@[j],
        after.sessions@[s] == (SessionRow {
            message_count: after.sessions@[s].message_count,
            updated_at_ms: after.sessions@[s].updated_at_ms,
            ..before.sessions@[s]
        }),
        !(purpose is RunSettlement) ==> after.sessions@[s].updated_at_ms
            == before.sessions@[s].updated_at_ms,
        purpose is RunSettlement ==> after.sessions@[s].updated_at_ms == created_at_ms,
        after.child_tasks@ == before.child_tasks@,
        after.body_appends@ == before.body_appends@,
        after.child_body_appends@ == before.child_body_appends@,
{
    let target = ConversationStorageTarget::Session { session_id, run_id };
    let steps = appending_goes_in_steps(
        before,
        after,
        operation_id,
        target,
        batch,
        message_step,
        created_at_ms,
        purpose,
        outcome,
    );
    session_stands_where_found(before.sessions@, session_id@);
    let row = steps.row;
    let messages = payload_messages(steps.reached, row);
    let noted = message_refs(target, messages, message_step);
    assert(messages.len() == batch.len());
    assert forall|k: int| 0 <= k < batch.len() implies {
        let noted = after.run_message_refs@[before.run_message_refs@.len() + k];
        &&& noted.run_id == run_id
        &&& noted.message_id@ == id_of_message(held(#[trigger] outcome.messages@[k]))
        &&& noted.step == message_step
    } by {
        assert(noted[k].message_id == key_of(*messages[k]));
    }
    let purposed = purpose_applied(
        purpose_tables(steps.reached),
        target,
        purpose,
        created_at_ms,
    );
    let rows = purposed.settlement.sessions;
    assert(rows.len() == before.sessions@.len());
    assert forall|j: int| 0 <= j < rows.len() implies (#[trigger] rows[j]).session_id
        == before.sessions@[j].session_id by {}
    assert(stands_at(rows, s, session_id@)) by {
        assert forall|j: int| 0 <= j < s implies (#[trigger] rows[j]).session_id@
            != session_id@ by {
            assert(before.sessions@[j].session_id@ != session_id@);
        }
    }
    session_stands_where_found(rows, session_id@);
    assert(purpose_tables(after).settlement.sessions == after.sessions@);
    nothing_stays_announced(appends(before, table_of(target)), row, operation_id@);
    assert(appends(steps.announcing, AppendTable::Session) =~= before.body_appends@.push(
        appends(steps.announcing, AppendTable::Session).last(),
    ));
}

proof fn nothing_stays_announced(
    rows: Seq<Arc<StagedAppend>>,
    row: StagedAppend,
    operation_id: Seq<char>,
)
    requires
        !some_row(rows, is_append(operation_id)),
        row.operation_id@ == operation_id,
    ensures
        forall|last: Arc<StagedAppend>| held(last) == row ==> #[trigger] kept(
            rows.push(last),
            is_other_append(operation_id),
        ) == rows,
{
    assert forall|last: Arc<StagedAppend>| held(last) == row implies #[trigger] kept(
        rows.push(last),
        is_other_append(operation_id),
    ) == rows by {
        let more = rows.push(last);
        assert(more.drop_last() =~= rows);
        assert(more.last() == last);
        others_stay(rows, operation_id);
    }
}

proof fn others_stay(rows: Seq<Arc<StagedAppend>>, operation_id: Seq<char>)
    requires
        !some_row(rows, is_append(operation_id)),
    ensures
        kept(rows, is_other_append(operation_id)) == rows,
    decreases rows.len(),
{
    if rows.len() > 0 {
        let shorter = rows.drop_last();
        assert forall|i: int| 0 <= i < shorter.len() implies !is_append(operation_id)(
            #[trigger] shorter[i],
        ) by {
            assert(shorter[i] == rows[i]);
        }
        others_stay(shorter, operation_id);
        assert(!is_append(operation_id)(rows[rows.len() - 1]));
        assert(shorter.push(rows.last()) =~= rows);
    }
}

/// Messages that are appended to a task's conversation raise the count of the task, and are noted for
/// no run.
pub proof fn appended_messages_are_counted_for_their_task(
    before: StorageEngine,
    after: StorageEngine,
    operation_id: String,
    session_id: String,
    child_task_id: String,
    batch: Seq<Arc<RecordedMessage>>,
    message_step: Option<u32>,
    created_at_ms: i64,
    purpose: AppendPurpose,
    outcome: CommittedBatch,
    t: int,
)
    requires
        append_attempted(
            before,
            after,
            operation_id,
            ConversationStorageTarget::ChildTask { session_id, child_task_id },
            batch,
            message_step,
            created_at_ms,
            purpose,
            Ok(outcome),
        ),
        task_at(before.child_tasks@, t, session_id@, child_task_id@),
    ensures
        is_owner(
            outcome.owner,
            ConversationStorageTarget::ChildTask { session_id, child_task_id },
        ),
        outcome.body_generation == before.child_tasks@[t].body_generation,
        outcome.base_message_ordinal == before.child_tasks@[t].message_count,
        outcome.messages@.len() == batch.len(),
        after.run_message_refs@ == before.run_message_refs@,
        after.sessions@ == before.sessions@,
        after.inputs@ == before.inputs@,
        after.runs@ == before.runs@,
        after.goals@ == before.goals@,
        after.child_tasks@.len() == before.child_tasks@.len(),
        after.child_tasks@[t].message_count == before.child_tasks@[t].message_count + batch.len(),
        after.child_tasks@[t] == (ChildTaskRow {
            message_count: after.child_tasks@[t].message_count,
            ..before.child_tasks@[t]
        }),
        forall|j: int|
            0 <= j < before.child_tasks@.len() && j != t ==> #[trigger] after.child_tasks@[j]
                == before.child_tasks@[j],
        after.body_appends@ == before.body_appends@,
        after.child_body_appends@ == before.child_body_appends@,
{
    let target = ConversationStorageTarget::ChildTask { session_id, child_task_id };
    let steps = appending_goes_in_steps(
        before,
        after,
        operation_id,
        target,
        batch,
        message_step,
        created_at_ms,
        purpose,
        outcome,
    );
    task_is_found(before.child_tasks@, session_id@, child_task_id@);
    let row = steps.row;
    assert(purpose_tables(after).settlement.sessions == after.sessions@);
    assert(purpose_tables(after).settlement.work.inputs == after.inputs@);
    assert(purpose_tables(after).settlement.work.runs == after.runs@);
    assert(purpose_tables(after).settlement.goals == after.goals@);
    assert(before.run_message_refs@ + Seq::<RunMessageRef>::empty() =~= before.run_message_refs@);
    nothing_stays_announced(appends(before, table_of(target)), row, operation_id@);
    assert(appends(steps.announcing, AppendTable::ChildTask) =~= before.child_body_appends@.push(
        appends(steps.announcing, AppendTable::ChildTask).last(),
    ));
}

/// What messages that are appended used is recorded for the session or task that they belong to, for
/// the run that they came from, at the time at which they came. What was recorded stays.
pub proof fn appended_requests_are_recorded_for_their_owner(
    before: StorageEngine,
    after: StorageEngine,
    operation_id: String,
    target: ConversationStorageTarget,
    batch: Seq<Arc<RecordedMessage>>,
    message_step: Option<u32>,
    created_at_ms: i64,
    purpose: AppendPurpose,
    outcome: CommittedBatch,
)
    requires
        append_attempted(
            before,
            after,
            operation_id,
            target,
            batch,
            message_step,
            created_at_ms,
            purpose,
            Ok(outcome),
        ),
    ensures
        before.request_records@.len() <= after.request_records@.len(),
        forall|i: int|
            0 <= i < before.request_records@.len() ==> #[trigger] after.request_records@[i]
                == before.request_records@[i],
        forall|i: int|
            before.request_records@.len() <= i < after.request_records@.len() ==> {
                let record = #[trigger] after.request_records@[i];
                &&& is_owner(record.owner, target)
                &&& record.completed_at_ms == created_at_ms
                &&& match target {
                    ConversationStorageTarget::Session { session_id, run_id } => record.run_id
                        == Some(run_id),
                    ConversationStorageTarget::ChildTask { .. } => record.run_id is None,
                }
                &&& !(record.request_kind is LegacyCompacted)
            },
{
    let steps = appending_goes_in_steps(
        before,
        after,
        operation_id,
        target,
        batch,
        message_step,
        created_at_ms,
        purpose,
        outcome,
    );
    let messages = payload_messages(steps.reached, steps.row);
    let records = requests_of(owner_of(target), run_of(target), messages, created_at_ms, false);
    reports_name_their_owner(owner_of(target), run_of(target), messages, created_at_ms);
    recorded_requests_come_from_the_list(usage_tables(before), records);
    assert(usage_tables(steps.reached) == usage_tables(before));
    assert(usage_tables(after).records == after.request_records@);
}

proof fn reports_name_their_owner(
    owner: ConversationOwner,
    run_id: Option<String>,
    messages: Seq<Arc<ConversationMessage>>,
    completed_at_ms: i64,
)
    ensures
        forall|k: int|
            0 <= k < requests_of(owner, run_id, messages, completed_at_ms, false).len() ==> {
                let record = #[trigger] requests_of(
                    owner,
                    run_id,
                    messages,
                    completed_at_ms,
                    false,
                )[k];
                &&& record.owner == owner
                &&& record.run_id == run_id
                &&& record.completed_at_ms == completed_at_ms
                &&& !(record.request_kind is LegacyCompacted)
            },
    decreases messages.len(),
{
    if messages.len() > 0 {
        reports_name_their_owner(owner, run_id, messages.drop_last(), completed_at_ms);
    }
}

proof fn recorded_requests_come_from_the_list(
    tables: UsageTables,
    records: Seq<ModelRequestRecord>,
)
    requires
        with_requests(tables, records) is Ok,
    ensures
        ({
            let after = with_requests(tables, records)->Ok_0;
            &&& tables.records.len() <= after.records.len()
            &&& forall|i: int|
                0 <= i < tables.records.len() ==> #[trigger] after.records[i] == tables.records[i]
            &&& forall|i: int|
                tables.records.len() <= i < after.records.len() ==> records.contains(
                    #[trigger] after.records[i],
                )
        }),
    decreases records.len(),
{
    if records.len() > 0 {
        let shorter = records.drop_last();
        recorded_requests_come_from_the_list(tables, shorter);
        let earlier = with_requests(tables, shorter)->Ok_0;
        let after = with_requests(tables, records)->Ok_0;
        assert forall|i: int| tables.records.len() <= i < after.records.len() implies records.contains(
            #[trigger] after.records[i],
        ) by {
            if i < earlier.records.len() {
                assert(after.records[i] == earlier.records[i]);
                let k = shorter.index_of(earlier.records[i]);
                assert(records[k] == shorter[k]);
            } else {
                assert(after.records[i] == records[records.len() - 1]);
            }
        }
    }
}

/// When a tool exchange is brought into a conversation it is pending no longer, nor is any call of it
/// noted as started; the skills that it used come behind those that were used. Other exchanges stay
/// pending.
pub proof fn finished_exchanges_are_pending_no_longer(
    before: StorageEngine,
    after: StorageEngine,
    operation_id: String,
    session_id: String,
    run_id: String,
    batch: Seq<Arc<RecordedMessage>>,
    message_step: Option<u32>,
    created_at_ms: i64,
    receipt_id: String,
    skill_activations: Arc<Vec<StoredSkillActivation>>,
    outcome: CommittedBatch,
)
    requires
        append_attempted(
            before,
            after,
            operation_id,
            ConversationStorageTarget::Session { session_id, run_id },
            batch,
            message_step,
            created_at_ms,
            AppendPurpose::ToolExchange { receipt_id, skill_activations },
            Ok(outcome),
        ),
    ensures
        exists|k: int|
            0 <= k < before.pending_exchanges@.len() && held(
                #[trigger] before.pending_exchanges@[k],
            ).receipt_id@ == receipt_id@ && match held(before.pending_exchanges@[k]).target {
                PendingTarget::Run { session_id: session, run_id: run } => session@ == session_id@
                    && run@ == run_id@,
                PendingTarget::ChildTask { .. } => false,
            },
        after.pending_exchanges@ == before.pending_exchanges@.filter(
            |row: Arc<PendingExchange>| held(row).receipt_id@ != receipt_id@,
        ),
        after.pending_starts@ == before.pending_starts@.filter(
            |row: PendingStart| row.receipt_id@ != receipt_id@,
        ),
        after.child_pending_exchanges@ == before.child_pending_exchanges@,
        after.child_pending_starts@ == before.child_pending_starts@,
        after.skill_activations@ == before.skill_activations@ + held(skill_activations)@,
        after.inputs@ == before.inputs@,
        after.runs@ == before.runs@,
        after.goals@ == before.goals@,
{
    let target = ConversationStorageTarget::Session { session_id, run_id };
    let steps = appending_goes_in_steps(
        before,
        after,
        operation_id,
        target,
        batch,
        message_step,
        created_at_ms,
        AppendPurpose::ToolExchange { receipt_id, skill_activations },
        outcome,
    );
    kept_is_filtered(
        before.pending_exchanges@,
        has_other_receipt(receipt_id@),
        |row: Arc<PendingExchange>| held(row).receipt_id@ != receipt_id@,
    );
    kept_is_filtered(
        before.pending_starts@,
        starts_other_receipt(receipt_id@),
        |row: PendingStart| row.receipt_id@ != receipt_id@,
    );
    let tables = purpose_tables(after);
    assert(tables.exchanges == after.pending_exchanges@);
    assert(tables.starts == after.pending_starts@);
    assert(tables.child_exchanges == after.child_pending_exchanges@);
    assert(tables.child_starts == after.child_pending_starts@);
    assert(tables.activations == after.skill_activations@);
    assert(tables.settlement.work.inputs == after.inputs@);
    assert(tables.settlement.work.runs == after.runs@);
    assert(tables.settlement.goals == after.goals@);
    let condition = is_run_exchange(receipt_id@, session_id@, run_id@);
    assert(some_row(before.pending_exchanges@, condition));
    let k = choose|k: int|
        0 <= k < before.pending_exchanges@.len() && condition(#[trigger] before.pending_exchanges@[k]);
    assert(held(before.pending_exchanges@[k]).receipt_id@ == receipt_id@);
}

/// The same for an exchange of a task.
pub proof fn finished_exchanges_of_tasks_are_pending_no_longer(
    before: StorageEngine,
    after: StorageEngine,
    operation_id: String,
    session_id: String,
    child_task_id: String,
    batch: Seq<Arc<RecordedMessage>>,
    message_step: Option<u32>,
    created_at_ms: i64,
    receipt_id: String,
    outcome: CommittedBatch,
)
    requires
        append_attempted(
            before,
            after,
            operation_id,
            ConversationStorageTarget::ChildTask { session_id, child_task_id },
            batch,
            message_step,
            created_at_ms,
            AppendPurpose::ChildToolExchange { receipt_id },
            Ok(outcome),
        ),
    ensures
        exists|k: int|
            0 <= k < before.child_pending_exchanges@.len() && held(
                #[trigger] before.child_pending_exchanges@[k],
            ).receipt_id@ == receipt_id@ && match held(before.child_pending_exchanges@[k]).target {
                PendingTarget::ChildTask { session_id: session, child_task_id: task } => session@
                    == session_id@ && task@ == child_task_id@,
                PendingTarget::Run { .. } => false,
            },
        after.child_pending_exchanges@ == before.child_pending_exchanges@.filter(
            |row: Arc<PendingExchange>| held(row).receipt_id@ != receipt_id@,
        ),
        after.child_pending_starts@ == before.child_pending_starts@.filter(
            |row: PendingStart| row.receipt_id@ != receipt_id@,
        ),
        after.pending_exchanges@ == before.pending_exchanges@,
        after.pending_starts@ == before.pending_starts@,
        after.skill_activations@ == before.skill_activations@,
{
    let target = ConversationStorageTarget::ChildTask { session_id, child_task_id };
    let steps = appending_goes_in_steps(
        before,
        after,
        operation_id,
        target,
        batch,
        message_step,
        created_at_ms,
        AppendPurpose::ChildToolExchange { receipt_id },
        outcome,
    );
    kept_is_filtered(
        before.child_pending_exchanges@,
        has_other_receipt(receipt_id@),
        |row: Arc<PendingExchange>| held(row).receipt_id@ != receipt_id@,
    );
    kept_is_filtered(
        before.child_pending_starts@,
        starts_other_receipt(receipt_id@),
        |row: PendingStart| row.receipt_id@ != receipt_id@,
    );
    let tables = purpose_tables(after);
    assert(tables.exchanges == after.pending_exchanges@);
    assert(tables.starts == after.pending_starts@);
    assert(tables.child_exchanges == after.child_pending_exchanges@);
    assert(tables.child_starts == after.child_pending_starts@);
    assert(tables.activations == after.skill_activations@);
    let condition = is_child_exchange(receipt_id@, session_id@, child_task_id@);
    assert(some_row(before.child_pending_exchanges@, condition));
    let k = choose|k: int|
        0 <= k < before.child_pending_exchanges@.len() && condition(
            #[trigger] before.child_pending_exchanges@[k],
        );
    assert(held(before.child_pending_exchanges@[k]).receipt_id@ == receipt_id@);
}

/// Where messages are appended for nothing but themselves, no run, input, goal or exchange changes.
pub proof fn mere_messages_change_no_work(
    before: StorageEngine,
    after: StorageEngine,
    operation_id: String,
    target: ConversationStorageTarget,
    batch: Seq<Arc<RecordedMessage>>,
    message_step: Option<u32>,
    created_at_ms: i64,
    outcome: CommittedBatch,
)
    requires
        append_attempted(
            before,
            after,
            operation_id,
            target,
            batch,
            message_step,
            created_at_ms,
            AppendPurpose::Messages,
            Ok(outcome),
        ),
    ensures
        after.inputs@ == before.inputs@,
        after.runs@ == before.runs@,
        after.goals@ == before.goals@,
        after.pending_exchanges@ == before.pending_exchanges@,
        after.pending_starts@ == before.pending_starts@,
        after.child_pending_exchanges@ == before.child_pending_exchanges@,
        after.child_pending_starts@ == before.child_pending_starts@,
        after.skill_activations@ == before.skill_activations@,
{
    let steps = appending_goes_in_steps(
        before,
        after,
        operation_id,
        target,
        batch,
        message_step,
        created_at_ms,
        AppendPurpose::Messages,
        outcome,
    );
    let tables = purpose_tables(after);
    assert(tables.exchanges == after.pending_exchanges@);
    assert(tables.starts == after.pending_starts@);
    assert(tables.child_exchanges == after.child_pending_exchanges@);
    assert(tables.child_starts == after.child_pending_starts@);
    assert(tables.activations == after.skill_activations@);
    assert(tables.settlement.work.inputs == after.inputs@);
    assert(tables.settlement.work.runs == after.runs@);
    assert(tables.settlement.goals == after.goals@);
}

/// The purposes that fit a target: messages any, a user's message and the end of a run a session,
/// an exchange the one or the other by its kind.
pub proof fn purposes_fit_their_target(
    tables: PurposeTables,
    target: ConversationStorageTarget,
    purpose: AppendPurpose,
)
    ensures
        purpose is Messages ==> purpose_refusal(tables, target, purpose) is None,
        target is ChildTask && (purpose is UserMessage || purpose is RunSettlement
            || purpose is ToolExchange) ==> purpose_refusal(tables, target, purpose) is Some,
        target is Session && purpose is ChildToolExchange ==> purpose_refusal(
            tables,
            target,
            purpose,
        ) is Some,
{
}

} // verus!
