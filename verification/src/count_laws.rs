//! The messages of a conversation are counted exactly.

use std::sync::Arc;
use vstd::prelude::*;

use crate::append_effect::{
    purpose_applied, purpose_tables, AppendPurpose, ConversationStorageTarget,
};
use crate::append_laws::{
    announced_append_reaches_its_body, appended_messages_are_read_back, purpose_keeps_generations,
    replaced_conversation_is_read_back,
};
use crate::cascade::inputs_removed;
use crate::conversation::{
    batch_records, framed_records_are_read_back, messages_of, one_line, RecordedMessage,
};
use crate::engine::{current_conversation, is_child, is_session, path_component, StorageEngine};
use crate::history_laws::emptied_conversation_is_empty;
use crate::message::held;
use crate::recovery::{
    announced, attempted, completion_refusal, counted_sessions, main_target, planned,
    recorded_count, replacement_refusal, replacement_written, staged, staging_refusal,
    switch_refusal, switched, table_of,
};
use crate::session_fork::{forked, storing_refusal, SessionFork};
use crate::session_history::{
    clear_opened, clear_refusal, conversation_emptied, emptied, inputs_of, SessionHistoryClear,
};
use crate::session_rewrite::{
    rewrite_refusal, rewritten, rewritten_conversation_is_read_back, taken_back, tasks_of, went_on,
    ConversationRewrite,
};
use crate::table::{first, first_after_update, first_is, first_is_found, some_row};
use crate::transfer_laws::forked_conversation_is_read_back;
use crate::work_plan::StoredWorkPlan;

verus! {

/// A conversation can be read, and its owner's row says how many messages it has.
pub open spec fn is_counted(engine: StorageEngine, target: ConversationStorageTarget) -> bool {
    &&& current_conversation(engine, target) is Ok
    &&& recorded_count(engine, target) == current_conversation(engine, target)->Ok_0.len()
}

/// Messages that are appended are counted.
pub proof fn appended_messages_are_counted(
    before: StorageEngine,
    announcing: StorageEngine,
    after: StorageEngine,
    operation_id: String,
    target: ConversationStorageTarget,
    batch: Seq<Arc<RecordedMessage>>,
    message_step: Option<u32>,
    created_at_ms: i64,
    purpose: AppendPurpose,
)
    requires
        is_counted(before, target),
        staging_refusal(before, operation_id@, target, batch) is None,
        staged(
            before,
            announcing,
            operation_id,
            target,
            batch,
            message_step,
            created_at_ms,
            purpose,
        ),
        completion_refusal(announcing, operation_id@, table_of(target)) is None,
        attempted(announcing, after, operation_id@, table_of(target)),
    ensures
        is_counted(after, target),
{
    appended_messages_are_read_back(
        before,
        announcing,
        after,
        operation_id,
        target,
        batch,
        message_step,
        created_at_ms,
        purpose,
    );
    announced_append_reaches_its_body(
        before,
        announcing,
        operation_id,
        target,
        batch,
        message_step,
        created_at_ms,
        purpose,
    );
    let row = announced(announcing, operation_id@, table_of(target))->Ok_0;
    let applied = purpose_applied(
        purpose_tables(announcing),
        row.target,
        held(row.purpose),
        row.created_at_ms,
    );
    let reached = StorageEngine { files: after.files, ..announcing };
    assert(purpose_tables(reached) == purpose_tables(announcing));
    match target {
        ConversationStorageTarget::Session { session_id, run_id } => {
            let sessions = applied.settlement.sessions;
            purpose_keeps_generations(
                purpose_tables(announcing),
                row.target,
                held(row.purpose),
                row.created_at_ms,
                session_id@,
            );
            assert(after.sessions@ == counted_sessions(sessions, row));
            first_is_found(announcing.sessions@, is_session(session_id@));
            let place = first(announcing.sessions@, is_session(session_id@))->0;
            first_after_update(
                sessions,
                is_session(session_id@),
                place,
                after.sessions@[place],
            );
        },
        ConversationStorageTarget::ChildTask { session_id, child_task_id } => {
            let rows = announcing.child_tasks@;
            first_is_found(rows, is_child(session_id@, child_task_id@));
            let place = first(rows, is_child(session_id@, child_task_id@))->0;
            first_after_update(
                rows,
                is_child(session_id@, child_task_id@),
                place,
                after.child_tasks@[place],
            );
        },
    }
}

/// The messages of a conversation that took the place of another are counted.
pub proof fn replaced_messages_are_counted(
    before: StorageEngine,
    prepared: StorageEngine,
    after: StorageEngine,
    session_id: String,
    batch: Seq<Arc<RecordedMessage>>,
    changed_at_ms: i64,
)
    requires
        batch.len() <= usize::MAX,
        replacement_refusal(before, session_id, batch) is None,
        replacement_written(
            before,
            prepared,
            session_id,
            batch,
            planned(before, session_id, batch, changed_at_ms),
        ),
        switch_refusal(prepared, planned(before, session_id, batch, changed_at_ms)) is None,
        switched(prepared, after, planned(before, session_id, batch, changed_at_ms)),
    ensures
        is_counted(after, main_target(session_id)),
{
    replaced_conversation_is_read_back(
        before,
        prepared,
        after,
        session_id,
        batch,
        changed_at_ms,
    );
    first_is_found(prepared.sessions@, is_session(session_id@));
    let place = first(prepared.sessions@, is_session(session_id@))->0;
    first_after_update(
        prepared.sessions@,
        is_session(session_id@),
        place,
        after.sessions@[place],
    );
}

/// An emptied conversation has no messages, and says so.
pub proof fn emptied_conversation_is_counted(
    before: StorageEngine,
    opened: StorageEngine,
    after: StorageEngine,
    clear: SessionHistoryClear,
)
    requires
        clear_refusal(before, clear) is None,
        clear_opened(before, opened, clear),
        conversation_emptied(opened, after, clear),
    ensures
        is_counted(after, main_target(clear.session_id)),
{
    emptied_conversation_is_empty(before, opened, after, clear);
    let gone = inputs_of(opened.inputs@, clear.session_id@);
    let cut = choose|cut: StorageEngine| #[trigger]
        inputs_removed(opened, cut, gone) && emptied(cut, after, clear);
    let condition = is_session(clear.session_id@);
    first_is_found(cut.sessions@, condition);
    let place = first(cut.sessions@, condition)->0;
    first_after_update(cut.sessions@, condition, place, after.sessions@[place]);
}

/// The messages of a conversation that was taken back are counted.
pub proof fn rewritten_messages_are_counted(
    before: StorageEngine,
    prepared: StorageEngine,
    after: StorageEngine,
    rewrite: ConversationRewrite,
    order: i64,
)
    requires
        replacement_refusal(before, rewrite.session_id, rewrite.conversation@) is None,
        replacement_written(
            before,
            prepared,
            rewrite.session_id,
            rewrite.conversation@,
            planned(before, rewrite.session_id, rewrite.conversation@, rewrite.changed_at_ms),
        ),
        rewrite_refusal(
            prepared,
            planned(before, rewrite.session_id, rewrite.conversation@, rewrite.changed_at_ms),
            rewrite,
            order,
        ) is None,
        rewritten(
            prepared,
            after,
            planned(before, rewrite.session_id, rewrite.conversation@, rewrite.changed_at_ms),
            rewrite,
            order,
        ),
    ensures
        is_counted(after, main_target(rewrite.session_id)),
{
    rewritten_conversation_is_read_back(before, prepared, after, rewrite, order);
    let plan = planned(
        before,
        rewrite.session_id,
        rewrite.conversation@,
        rewrite.changed_at_ms,
    );
    let gone = taken_back(prepared.inputs@, rewrite.session_id@, order);
    let cut = choose|cut: StorageEngine| #[trigger]
        inputs_removed(prepared, cut, gone) && went_on(
            cut,
            after,
            plan,
            rewrite,
            tasks_of(prepared, gone),
        );
    let condition = is_session(rewrite.session_id@);
    first_is_found(cut.sessions@, condition);
    let place = first(cut.sessions@, condition)->0;
    first_after_update(cut.sessions@, condition, place, after.sessions@[place]);
    assert(rewrite.conversation.len() <= usize::MAX);
}

/// The messages of a forked conversation are counted.
pub proof fn forked_messages_are_counted(
    before: StorageEngine,
    after: StorageEngine,
    fork: SessionFork,
    batch: Seq<Arc<RecordedMessage>>,
    plan: Option<Arc<StoredWorkPlan>>,
)
    requires
        path_component(fork.session.session_id@),
        storing_refusal(before, fork, batch) is None,
        forked(before, after, fork, batch, plan),
    ensures
        is_counted(after, main_target(fork.session.session_id)),
{
    forked_conversation_is_read_back(before, after, fork, batch, plan);
    let rows = after.sessions@;
    let condition = is_session(fork.session.session_id@);
    let last = before.sessions@.len() as int;
    assert forall|j: int| 0 <= j < last implies !condition(#[trigger] rows[j]) by {
        assert(rows[j] == before.sessions@[j]);
        if condition(before.sessions@[j]) {
            assert(some_row(before.sessions@, condition));
        }
    }
    first_is(rows, condition, last);
    let records = batch_records(batch);
    assert forall|i: int| 0 <= i < records.len() implies one_line(#[trigger] records[i]) by {
        assert(one_line(batch[i].record@));
    }
    framed_records_are_read_back(records);
    each_record_is_a_message(before.known@ + batch, records);
}

proof fn each_record_is_a_message(known: Seq<Arc<RecordedMessage>>, records: Seq<Seq<u8>>)
    requires
        messages_of(known, records) is Some,
    ensures
        messages_of(known, records)->0.len() == records.len(),
    decreases records.len(),
{
    if records.len() > 0 {
        each_record_is_a_message(known, records.drop_last());
    }
}

} // verus!
