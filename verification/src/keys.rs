//! Keys: no two rows of a table have the same.

use std::sync::Arc;
use vstd::prelude::*;

use crate::append_effect::StagedAppend;
use crate::engine::StorageEngine;
use crate::rows::{
    FeedbackRow, HistoryOperationRow, RecallHeadRow, RunRow, SessionResources, SessionRow,
    SessionUsageRow, SkillNameState, StoredAttachment, StoredInput,
};
use crate::table::{kept, kept_rows};
use crate::tool_exchange::PendingExchange;
use crate::usage::owner_key;
use crate::work_plan::StoredWorkPlan;

verus! {

/// No two rows have the same key.
pub open spec fn unique<R, K>(rows: Seq<R>, key: spec_fn(R) -> K) -> bool {
    forall|i: int, j: int|
        0 <= i < j < rows.len() ==> key(#[trigger] rows[i]) != key(#[trigger] rows[j])
}

pub open spec fn session_name() -> spec_fn(SessionRow) -> Seq<char> {
    |row: SessionRow| row.session_id@
}

pub open spec fn input_name() -> spec_fn(StoredInput) -> Seq<char> {
    |row: StoredInput| row.input_id@
}

pub open spec fn run_name() -> spec_fn(RunRow) -> Seq<char> {
    |row: RunRow| row.run_id@
}

pub open spec fn append_name() -> spec_fn(Arc<StagedAppend>) -> Seq<char> {
    |row: Arc<StagedAppend>| row.operation_id@
}

pub open spec fn exchange_name() -> spec_fn(Arc<PendingExchange>) -> Seq<char> {
    |row: Arc<PendingExchange>| row.receipt_id@
}

pub open spec fn operation_name() -> spec_fn(HistoryOperationRow) -> Seq<char> {
    |row: HistoryOperationRow| row.operation_id@
}

pub open spec fn resources_name() -> spec_fn(SessionResources) -> Seq<char> {
    |row: SessionResources| row.session_id@
}

pub open spec fn usage_name() -> spec_fn(SessionUsageRow) -> Seq<char> {
    |row: SessionUsageRow| row.session_id@
}

pub open spec fn plan_name() -> spec_fn(Arc<StoredWorkPlan>) -> Seq<char> {
    |row: Arc<StoredWorkPlan>| row.session_id@
}

pub open spec fn attachment_name() -> spec_fn(StoredAttachment) -> Seq<char> {
    |row: StoredAttachment| row.attachment_id@
}

pub open spec fn feedback_name() -> spec_fn(FeedbackRow) -> (Seq<char>, Seq<char>) {
    |row: FeedbackRow| (row.session_id@, row.message_id@)
}

pub open spec fn skill_name() -> spec_fn(SkillNameState) -> Seq<char> {
    |row: SkillNameState| row.name@
}

pub open spec fn head_name() -> spec_fn(RecallHeadRow) -> (bool, Seq<char>) {
    |row: RecallHeadRow| owner_key(row.owner)
}

/// Resources, usages, plans, attachments, judgements, states of skills and heads have keys of their
/// own.
#[verifier::opaque]
pub open spec fn has_one_of_each(
    resources: Seq<SessionResources>,
    usages: Seq<SessionUsageRow>,
    plans: Seq<Arc<StoredWorkPlan>>,
    attachments: Seq<StoredAttachment>,
    feedback: Seq<FeedbackRow>,
    states: Seq<SkillNameState>,
    heads: Seq<RecallHeadRow>,
) -> bool {
    &&& unique(resources, resources_name())
    &&& unique(usages, usage_name())
    &&& unique(plans, plan_name())
    &&& unique(attachments, attachment_name())
    &&& unique(feedback, feedback_name())
    &&& unique(states, skill_name())
    &&& unique(heads, head_name())
}

/// Sessions, inputs, runs, announced appends, pending exchanges, changes of histories and
/// attachments are told apart by their identifiers. A session has its resources, its usage and its
/// plan once, a message one judgement, a name of skills one state, and a conversation one head.
pub open spec fn is_keyed(engine: StorageEngine) -> bool {
    &&& unique(engine.sessions@, session_name())
    &&& unique(engine.inputs@, input_name())
    &&& unique(engine.runs@, run_name())
    &&& unique(engine.body_appends@, append_name())
    &&& unique(engine.child_body_appends@, append_name())
    &&& unique(engine.pending_exchanges@, exchange_name())
    &&& unique(engine.child_pending_exchanges@, exchange_name())
    &&& unique(engine.history_operations@, operation_name())
    &&& has_one_of_each(
        engine.session_resources@,
        engine.session_usage@,
        engine.work_plans@,
        engine.attachments@,
        engine.feedback@,
        engine.skill_name_states@,
        engine.recall_heads@,
    )
}

/// A row with a key of its own can be added.
pub proof fn unique_after_push<R, K>(rows: Seq<R>, key: spec_fn(R) -> K, row: R)
    requires
        unique(rows, key),
        forall|i: int| 0 <= i < rows.len() ==> key(#[trigger] rows[i]) != key(row),
    ensures
        unique(rows.push(row), key),
{
    let longer = rows.push(row);
    assert forall|i: int, j: int| 0 <= i < j < longer.len() implies key(#[trigger] longer[i])
        != key(#[trigger] longer[j]) by {
        assert(longer[i] == rows[i]);
        if j < rows.len() {
            assert(longer[j] == rows[j]);
        }
    }
}

/// A row can be replaced by one with its key.
pub proof fn unique_after_update<R, K>(rows: Seq<R>, key: spec_fn(R) -> K, place: int, row: R)
    requires
        unique(rows, key),
        0 <= place < rows.len(),
        key(row) == key(rows[place]),
    ensures
        unique(rows.update(place, row), key),
{
    let changed = rows.update(place, row);
    assert forall|i: int, j: int| 0 <= i < j < changed.len() implies key(#[trigger] changed[i])
        != key(#[trigger] changed[j]) by {
        assert(key(changed[i]) == key(rows[i]));
        assert(key(changed[j]) == key(rows[j]));
    }
}

/// Rows can be removed.
pub proof fn unique_after_keeping<R, K>(
    rows: Seq<R>,
    key: spec_fn(R) -> K,
    condition: spec_fn(R) -> bool,
)
    requires
        unique(rows, key),
    ensures
        unique(kept(rows, condition), key),
    decreases rows.len(),
{
    if rows.len() > 0 {
        let shorter = rows.drop_last();
        assert forall|i: int, j: int| 0 <= i < j < shorter.len() implies key(#[trigger] shorter[i])
            != key(#[trigger] shorter[j]) by {
            assert(shorter[i] == rows[i]);
            assert(shorter[j] == rows[j]);
        }
        unique_after_keeping(shorter, key, condition);
        kept_rows(shorter, condition);
        let earlier = kept(shorter, condition);
        if condition(rows.last()) {
            assert forall|i: int| 0 <= i < earlier.len() implies key(#[trigger] earlier[i]) != key(
                rows.last(),
            ) by {
                assert(shorter.contains(earlier[i]));
                let k = shorter.index_of(earlier[i]);
                assert(rows[k] == earlier[i]);
                assert(rows[rows.len() - 1] == rows.last());
            }
            unique_after_push(earlier, key, rows.last());
        }
    }
}

} // verus!
