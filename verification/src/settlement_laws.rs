//! What is checked before an append is announced holds when it is entered in the tables.

use std::sync::Arc;
use vstd::prelude::*;

use crate::append_effect::{
    owner_of, purpose_refusal, purpose_tables, AppendPurpose, ConversationStorageTarget,
};
use crate::append_laws::announced_append_reaches_its_body;
use crate::conversation::{
    batch_records, conversation_of, framed, framed_records_are_read_back, one_line, RecordedMessage,
};
use crate::engine::{current_conversation, StorageEngine};
use crate::error::Refusal;
use crate::message::{distinct_messages, key_of, paired_batches_compose};
use crate::numbers::STORED_MAX;
use crate::recovery::{
    completion_refusal, equal_knowledge_reads_equal, recorded_count, resolved,
    resolved_batch_is_read, run_of, staged, staging_refusal, table_of, usage_tables,
};
use crate::run_state::{end_refusal, RunSettlement};
use crate::usage::{requests_of, with_requests};

verus! {

/// The messages of an announced append are read from its payload.
proof fn payload_is_read(
    before: StorageEngine,
    announcing: StorageEngine,
    operation_id: String,
    target: ConversationStorageTarget,
    batch: Seq<Arc<RecordedMessage>>,
    message_step: Option<u32>,
    created_at_ms: i64,
    purpose: AppendPurpose,
)
    requires
        staging_refusal(before, operation_id@, target, batch) is None,
        staged(
            before,
            announcing,
            operation_id,
            target,
            batch,
            message_step,
            created_at_ms,
            purpose,
        ),
    ensures
        conversation_of(announcing.known@, framed(batch_records(batch))) == Ok::<_, Refusal>(
            resolved(before.known@, batch),
        ),
{
    let current = current_conversation(before, target)->Ok_0;
    let messages = resolved(before.known@, batch);
    let records = batch_records(batch);
    assert forall|i: int| 0 <= i < records.len() implies one_line(#[trigger] records[i]) by {
        assert(one_line(batch[i].record@));
    }
    framed_records_are_read_back(records);
    resolved_batch_is_read(before.known@, batch);
    equal_knowledge_reads_equal(announcing.known@, before.known@ + batch, records);
    paired_batches_compose(current, messages);
    assert(distinct_messages(messages)) by {
        assert forall|i: int, j: int| 0 <= i < j < messages.len() implies key_of(
            *#[trigger] messages[i],
        )@ != key_of(*#[trigger] messages[j])@ by {
            let all = current + messages;
            assert(all[current.len() + i] == messages[i]);
            assert(all[current.len() + j] == messages[j]);
        }
    }
}

/// An append whose purpose can be carried out is completed, unless its messages or their usage
/// cannot be counted.
pub proof fn announced_append_is_completed(
    before: StorageEngine,
    announcing: StorageEngine,
    operation_id: String,
    target: ConversationStorageTarget,
    batch: Seq<Arc<RecordedMessage>>,
    message_step: Option<u32>,
    created_at_ms: i64,
    purpose: AppendPurpose,
)
    requires
        staging_refusal(before, operation_id@, target, batch) is None,
        staged(
            before,
            announcing,
            operation_id,
            target,
            batch,
            message_step,
            created_at_ms,
            purpose,
        ),
        purpose_refusal(purpose_tables(before), target, purpose) is None,
        recorded_count(before, target) + batch.len() <= STORED_MAX,
        with_requests(
            usage_tables(before),
            requests_of(
                owner_of(target),
                run_of(target),
                resolved(before.known@, batch),
                created_at_ms,
                false,
            ),
        ) is Ok,
    ensures
        completion_refusal(announcing, operation_id@, table_of(target)) is None,
{
    announced_append_reaches_its_body(
        before,
        announcing,
        operation_id,
        target,
        batch,
        message_step,
        created_at_ms,
        purpose,
    );
    payload_is_read(
        before,
        announcing,
        operation_id,
        target,
        batch,
        message_step,
        created_at_ms,
        purpose,
    );
    assert(recorded_count(announcing, target) == recorded_count(before, target));
    assert(usage_tables(announcing) == usage_tables(before));
}

/// The end of a run that passes its checks takes effect as a whole: what it sets in motion is not
/// refused once its messages are announced.
pub proof fn checked_ending_takes_effect(
    before: StorageEngine,
    announcing: StorageEngine,
    settlement: RunSettlement,
)
    requires
        end_refusal(before, settlement) is None,
        ({
            let target = ConversationStorageTarget::Session {
                session_id: settlement.session_id,
                run_id: settlement.run_id,
            };
            let batch = settlement.messages@;
            &&& staging_refusal(before, settlement.operation_id@, target, batch) is None
            &&& staged(
                before,
                announcing,
                settlement.operation_id,
                target,
                batch,
                settlement.message_step,
                settlement.finished_at_ms,
                AppendPurpose::RunSettlement(settlement.effect),
            )
            &&& recorded_count(before, target) + batch.len() <= STORED_MAX
            &&& with_requests(
                usage_tables(before),
                requests_of(
                    owner_of(target),
                    run_of(target),
                    resolved(before.known@, batch),
                    settlement.finished_at_ms,
                    false,
                ),
            ) is Ok
        }),
    ensures
        ({
            let target = ConversationStorageTarget::Session {
                session_id: settlement.session_id,
                run_id: settlement.run_id,
            };
            completion_refusal(announcing, settlement.operation_id@, table_of(target)) is None
        }),
{
    announced_append_is_completed(
        before,
        announcing,
        settlement.operation_id,
        ConversationStorageTarget::Session {
            session_id: settlement.session_id,
            run_id: settlement.run_id,
        },
        settlement.messages@,
        settlement.message_step,
        settlement.finished_at_ms,
        AppendPurpose::RunSettlement(settlement.effect),
    );
}

} // verus!
