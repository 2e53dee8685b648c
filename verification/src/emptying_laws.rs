//! What is left of a session whose conversation was emptied, or that was deleted.

use std::sync::Arc;
use vstd::prelude::*;

use crate::append_effect::{ConversationStorageTarget, StagedAppend};
use crate::cascade::inputs_removed;
use crate::engine::{bodies, is_session, StorageEngine};
use crate::error::Refusal;
use crate::idle::{
    busy_for_history, is_append_in, is_child_in, is_exchange_in, is_open_in, is_queued_in,
};
use crate::keys::{input_name, unique};
use crate::relations::{
    filtered_rows, found_leads, kept_is_filtered, none_of, session_stands_where_found, stands_at,
};
use crate::removal_laws::{input_goes, inputs_go_with_what_is_theirs, work_is_removed};
use crate::rows::{
    ChildTaskRow, ConversationOwner, FeedbackRow, HistoryKind, HistoryOperationRow, HistoryState,
    McpSelectionRow, ModelRequestRecord, RecallHeadRow, RunRow, SessionResources, SessionRow,
    SessionUsage, SessionUsageRow, StoredAttachment, StoredGoal, StoredInput, StoredSkillActivation,
};
use crate::session_history::{
    activation_elsewhere, clear_attempted, clear_opened, clear_path, clear_receipt, clear_refusal,
    clear_settled, conversation_emptied, emptied, feedback_elsewhere, goal_elsewhere,
    head_elsewhere, history_dropped, inputs_of, is_input_of, is_operation, is_other_text,
    matches_environment, receipt_stays, request_elsewhere, selection_elsewhere, snapshot_refusal,
    switch_refusal, usage_elsewhere, ClearProgress, SessionHistoryClear,
};
use crate::session_resources::{same_environment, works_in, SessionExecutionEnvironment};
use crate::session_transfer::{
    attachment_elsewhere, body_elsewhere, operation_elsewhere, resources_elsewhere, session_deleted,
    session_elsewhere, session_forgotten,
};
use crate::table::{first, first_is, kept, kept_rows};
use crate::text::{decimal, has_prefix, optional_text};
use crate::tool_exchange::{PendingExchange, PendingTarget};
use crate::work_plan::{is_plan_of_other, StoredWorkPlan};

verus! {

/// The session that owns a conversation.
pub open spec fn owning_session(owner: ConversationOwner) -> Seq<char> {
    match owner {
        ConversationOwner::MainSession { session_id } => session_id@,
        ConversationOwner::ChildTask { session_id, child_task_id } => session_id@,
    }
}

/// The session that a pending exchange belongs to.
pub open spec fn exchanging_session(target: PendingTarget) -> Seq<char> {
    match target {
        PendingTarget::Run { session_id, run_id } => session_id@,
        PendingTarget::ChildTask { session_id, child_task_id } => session_id@,
    }
}

/// The session that an announced append belongs to.
pub open spec fn appending_session(target: ConversationStorageTarget) -> Seq<char> {
    match target {
        ConversationStorageTarget::Session { session_id, run_id } => session_id@,
        ConversationStorageTarget::ChildTask { session_id, child_task_id } => session_id@,
    }
}

/// A session has nothing queued, no run under way, no task under way, and nothing announced or
/// pending.
pub open spec fn is_at_rest(engine: StorageEngine, session_id: Seq<char>) -> bool {
    &&& forall|i: int|
        0 <= i < engine.inputs@.len() && (#[trigger] engine.inputs@[i]).session_id@ == session_id
            ==> !(engine.inputs@[i].state is Queued)
    &&& forall|i: int|
        0 <= i < engine.runs@.len() && (#[trigger] engine.runs@[i]).session_id@ == session_id ==> {
            ||| engine.runs@[i].status is Completed
            ||| engine.runs@[i].status is Failed
            ||| engine.runs@[i].status is Cancelled
            ||| engine.runs@[i].status is Interrupted
        }
    &&& forall|i: int|
        0 <= i < engine.child_tasks@.len() && (#[trigger] engine.child_tasks@[i]).session_id@
            == session_id ==> !(engine.child_tasks@[i].status is Accepted)
            && !(engine.child_tasks@[i].status is Running)
    &&& forall|i: int|
        0 <= i < engine.pending_exchanges@.len() ==> exchanging_session(
            (#[trigger] engine.pending_exchanges@[i]).target,
        ) != session_id
    &&& forall|i: int|
        0 <= i < engine.child_pending_exchanges@.len() ==> exchanging_session(
            (#[trigger] engine.child_pending_exchanges@[i]).target,
        ) != session_id
    &&& forall|i: int|
        0 <= i < engine.body_appends@.len() ==> appending_session(
            (#[trigger] engine.body_appends@[i]).target,
        ) != session_id
    &&& forall|i: int|
        0 <= i < engine.child_body_appends@.len() ==> appending_session(
            (#[trigger] engine.child_body_appends@[i]).target,
        ) != session_id
}

/// A session is at rest exactly where its history may be changed.
pub proof fn history_changes_at_rest(engine: StorageEngine, session_id: Seq<char>)
    ensures
        busy_for_history(engine, session_id) == !is_at_rest(engine, session_id),
{
    let queued = |row: StoredInput| row.session_id@ == session_id && row.state is Queued;
    found_leads(engine.inputs@, is_queued_in(session_id), queued);
    let open = |row: RunRow|
        row.session_id@ == session_id && !(row.status is Completed || row.status is Failed
            || row.status is Cancelled || row.status is Interrupted);
    found_leads(engine.runs@, is_open_in(session_id), open);
    let under_way = |row: ChildTaskRow|
        row.session_id@ == session_id && (row.status is Accepted || row.status is Running);
    found_leads(engine.child_tasks@, is_child_in(session_id), under_way);
    let exchanging = |row: Arc<PendingExchange>| exchanging_session(row.target) == session_id;
    found_leads(engine.pending_exchanges@, is_exchange_in(session_id), exchanging);
    found_leads(engine.child_pending_exchanges@, is_exchange_in(session_id), exchanging);
    let appending = |row: Arc<StagedAppend>| appending_session(row.target) == session_id;
    found_leads(engine.body_appends@, is_append_in(session_id), appending);
    found_leads(engine.child_body_appends@, is_append_in(session_id), appending);
    assert(none_of(engine.inputs@, queued) == forall|i: int|
        0 <= i < engine.inputs@.len() && (#[trigger] engine.inputs@[i]).session_id@ == session_id
            ==> !(engine.inputs@[i].state is Queued)) by {
        if none_of(engine.inputs@, queued) {
            assert forall|i: int| 0 <= i < engine.inputs@.len() && (
            #[trigger] engine.inputs@[i]).session_id@ == session_id implies !(
            engine.inputs@[i].state is Queued) by {
                assert(!queued(engine.inputs@[i]));
            }
        }
    }
    assert(none_of(engine.runs@, open) == forall|i: int|
        0 <= i < engine.runs@.len() && (#[trigger] engine.runs@[i]).session_id@ == session_id ==> {
            ||| engine.runs@[i].status is Completed
            ||| engine.runs@[i].status is Failed
            ||| engine.runs@[i].status is Cancelled
            ||| engine.runs@[i].status is Interrupted
        }) by {
        if none_of(engine.runs@, open) {
            assert forall|i: int| 0 <= i < engine.runs@.len() && (
            #[trigger] engine.runs@[i]).session_id@ == session_id implies {
                ||| engine.runs@[i].status is Completed
                ||| engine.runs@[i].status is Failed
                ||| engine.runs@[i].status is Cancelled
                ||| engine.runs@[i].status is Interrupted
            } by {
                assert(!open(engine.runs@[i]));
            }
        }
    }
    assert(none_of(engine.child_tasks@, under_way) == forall|i: int|
        0 <= i < engine.child_tasks@.len() && (#[trigger] engine.child_tasks@[i]).session_id@
            == session_id ==> !(engine.child_tasks@[i].status is Accepted)
            && !(engine.child_tasks@[i].status is Running)) by {
        if none_of(engine.child_tasks@, under_way) {
            assert forall|i: int| 0 <= i < engine.child_tasks@.len() && (
            #[trigger] engine.child_tasks@[i]).session_id@ == session_id implies !(
            engine.child_tasks@[i].status is Accepted)
                && !(engine.child_tasks@[i].status is Running) by {
                assert(!under_way(engine.child_tasks@[i]));
            }
        }
    }
    no_row_is_such(engine.pending_exchanges@, exchanging);
    no_row_is_such(engine.child_pending_exchanges@, exchanging);
    no_row_is_such(engine.body_appends@, appending);
    no_row_is_such(engine.child_body_appends@, appending);
}

proof fn no_row_is_such<R>(rows: Seq<R>, condition: spec_fn(R) -> bool)
    ensures
        none_of(rows, condition) == (forall|i: int|
            0 <= i < rows.len() ==> !condition(#[trigger] rows[i])),
{
}

/// A request to empty a conversation, under an operation that is new, is granted exactly where the
/// session is active, in the role and at the generation that the request expects, at rest, and
/// works where the request says, and where the next generation is free.
pub proof fn clear_is_granted_at_rest(
    before: StorageEngine,
    after: StorageEngine,
    clear: SessionHistoryClear,
    outcome: Result<ClearProgress, Refusal>,
)
    requires
        clear_attempted(before, after, clear, outcome),
        forall|i: int|
            0 <= i < before.history_operations@.len() ==> (
            #[trigger] before.history_operations@[i]).operation_id@ != clear.operation_id@,
    ensures
        outcome is Ok <==> {
            &&& clear.skill_catalog_is_valid
            &&& clear.expected_generation < i64::MAX
            &&& exists|environment: SessionExecutionEnvironment| #[trigger]
                works_in(before, clear.session_id@, environment) && {
                    &&& optional_text(environment.workspace_id) == optional_text(
                        clear.environment.workspace_id,
                    )
                    &&& environment.working_directory@ == clear.environment.working_directory@
                    &&& optional_text(environment.workspace_private_directory) == optional_text(
                        clear.environment.workspace_private_directory,
                    )
                    &&& environment.session_attachment_directory@
                        == clear.environment.session_attachment_directory@
                    &&& environment.session_tool_image_directory@
                        == clear.environment.session_tool_image_directory@
                    &&& environment.session_private_directory@
                        == clear.environment.session_private_directory@
                }
            &&& exists|i: int|
                #[trigger] stands_at(before.sessions@, i, clear.session_id@) && before.sessions@[i].lifecycle is Active && before.sessions@[i].role
                    == clear.expected_role && before.sessions@[i].body_generation
                    == clear.expected_generation
            &&& is_at_rest(before, clear.session_id@)
            &&& !bodies(before.files@).contains_key(
                before.sessions_directory@ + "/"@ + clear.session_id@ + "/conversation."@
                    + decimal((clear.expected_generation + 1) as nat) + ".jsonl"@,
            )
        },
        outcome is Err ==> after == before || after == (StorageEngine {
            history_operations: after.history_operations,
            ..before
        }),
{
    session_stands_where_found(before.sessions@, clear.session_id@);
    let same_operation = |row: HistoryOperationRow| row.operation_id@ == clear.operation_id@;
    found_leads(before.history_operations@, is_operation(clear.operation_id@), same_operation);
    assert(none_of(before.history_operations@, same_operation));
    history_changes_at_rest(before, clear.session_id@);
    if clear_refusal(before, clear) is None {
        let i = first(before.sessions@, is_session(clear.session_id@))->0;
        assert(stands_at(before.sessions@, i, clear.session_id@));
        let environment = choose|environment: SessionExecutionEnvironment| #[trigger]
            works_in(before, clear.session_id@, environment)
                && same_environment(environment, clear.environment);
        assert(works_in(before, clear.session_id@, environment));
    }
    assert forall|environment: SessionExecutionEnvironment| #[trigger]
        works_in(before, clear.session_id@, environment) && {
            &&& optional_text(environment.workspace_id) == optional_text(
                clear.environment.workspace_id,
            )
            &&& environment.working_directory@ == clear.environment.working_directory@
            &&& optional_text(environment.workspace_private_directory) == optional_text(
                clear.environment.workspace_private_directory,
            )
            &&& environment.session_attachment_directory@
                == clear.environment.session_attachment_directory@
            &&& environment.session_tool_image_directory@
                == clear.environment.session_tool_image_directory@
            &&& environment.session_private_directory@
                == clear.environment.session_private_directory@
        } implies matches_environment(before, clear) by {}
    if clear.expected_generation < i64::MAX {
        assert(clear_path(before, clear) =~= before.sessions_directory@ + "/"@ + clear.session_id@
            + "/conversation."@ + decimal((clear.expected_generation + 1) as nat) + ".jsonl"@);
    }
}

/// What belongs to the history of a session is gone, and what belongs to others is as it was.
proof fn dropped_history_is_gone(
    cut: StorageEngine,
    after: StorageEngine,
    session_id: Seq<char>,
)
    requires
        history_dropped(cut, after, session_id),
    ensures
        after.feedback@ == cut.feedback@.filter(|row: FeedbackRow| row.session_id@ != session_id),
        after.work_plans@ == cut.work_plans@.filter(
            |row: Arc<StoredWorkPlan>| row.session_id@ != session_id,
        ),
        after.work_plan_receipts@ == cut.work_plan_receipts@.filter(
            |row: Arc<StoredWorkPlan>| row.session_id@ != session_id,
        ),
        after.goals@ == cut.goals@.filter(|row: StoredGoal| row.session_id@ != session_id),
        after.skill_activations@ == cut.skill_activations@.filter(
            |row: StoredSkillActivation| row.session_id@ != session_id,
        ),
        after.mcp_selections@ == cut.mcp_selections@.filter(
            |row: McpSelectionRow| row.session_id@ != session_id,
        ),
        after.request_records@ == cut.request_records@.filter(
            |row: ModelRequestRecord| owning_session(row.owner) != session_id,
        ),
        after.recall_heads@ == cut.recall_heads@.filter(
            |row: RecallHeadRow| owning_session(row.owner) != session_id,
        ),
{
    kept_is_filtered(
        cut.feedback@,
        feedback_elsewhere(session_id),
        |row: FeedbackRow| row.session_id@ != session_id,
    );
    kept_is_filtered(
        cut.work_plans@,
        is_plan_of_other(session_id),
        |row: Arc<StoredWorkPlan>| row.session_id@ != session_id,
    );
    kept_is_filtered(
        cut.work_plan_receipts@,
        is_plan_of_other(session_id),
        |row: Arc<StoredWorkPlan>| row.session_id@ != session_id,
    );
    kept_is_filtered(
        cut.goals@,
        goal_elsewhere(session_id),
        |row: StoredGoal| row.session_id@ != session_id,
    );
    kept_is_filtered(
        cut.skill_activations@,
        activation_elsewhere(session_id),
        |row: StoredSkillActivation| row.session_id@ != session_id,
    );
    kept_is_filtered(
        cut.mcp_selections@,
        selection_elsewhere(session_id),
        |row: McpSelectionRow| row.session_id@ != session_id,
    );
    kept_is_filtered(
        cut.request_records@,
        request_elsewhere(session_id),
        |row: ModelRequestRecord| owning_session(row.owner) != session_id,
    );
    kept_is_filtered(
        cut.recall_heads@,
        head_elsewhere(session_id),
        |row: RecallHeadRow| owning_session(row.owner) != session_id,
    );
}

/// The session with its conversation emptied: at the next generation, without messages, with what
/// the request chooses for it. Its title is chosen anew where nobody had chosen it, and an ordinary
/// session is not represented by another any more. The rest of it stays.
pub open spec fn session_starts_over(
    row: SessionRow,
    next: SessionRow,
    clear: SessionHistoryClear,
) -> bool {
    &&& next.body_generation == clear.expected_generation + 1
    &&& next.message_count == 0
    &&& next.system_prompt == clear.system_prompt
    &&& next.skill_catalog == clear.skill_catalog
    &&& next.updated_at_ms == clear.changed_at_ms
    &&& !next.automatic_title_pending
    &&& row.title_origin is Generated ==> next.title@ == "New Session"@
    &&& row.title_origin is User ==> next.title == row.title
    &&& row.role is Standard ==> next.proxy is None
    &&& row.role is Controller ==> next.proxy == row.proxy
    &&& next.session_id == row.session_id
    &&& next.title_origin == row.title_origin
    &&& next.model_key == row.model_key
    &&& next.reasoning_effort == row.reasoning_effort
    &&& next.current_variant == row.current_variant
    &&& next.approval_mode == row.approval_mode
    &&& next.role == row.role
    &&& next.lifecycle == row.lifecycle
    &&& next.created_at_ms == row.created_at_ms
    &&& next.archived_at_ms == row.archived_at_ms
    &&& next.is_pinned == row.is_pinned
    &&& next.materialization_key == row.materialization_key
    &&& next.pc_output_device_id == row.pc_output_device_id
}

/// What a conversation that was emptied leaves, where `before` is the engine with the emptying
/// announced.
pub open spec fn starts_over(
    before: StorageEngine,
    after: StorageEngine,
    clear: SessionHistoryClear,
) -> bool {
    let session_id = clear.session_id@;
    &&& work_is_removed(before, after, |row: StoredInput| row.session_id@ == session_id)
    &&& after.goals@ == before.goals@.filter(|row: StoredGoal| row.session_id@ != session_id)
    &&& after.feedback@ == before.feedback@.filter(
        |row: FeedbackRow| row.session_id@ != session_id,
    )
    &&& after.work_plans@ == before.work_plans@.filter(
        |row: Arc<StoredWorkPlan>| row.session_id@ != session_id,
    )
    &&& after.work_plan_receipts@ == before.work_plan_receipts@.filter(
        |row: Arc<StoredWorkPlan>| row.session_id@ != session_id,
    )
    &&& after.skill_activations@ == before.skill_activations@.filter(
        |row: StoredSkillActivation| row.session_id@ != session_id,
    )
    &&& after.mcp_selections@ == before.mcp_selections@.filter(
        |row: McpSelectionRow|
            !input_goes(
                before,
                |input: StoredInput| input.session_id@ == session_id,
                row.input_id@,
            ),
    ).filter(|row: McpSelectionRow| row.session_id@ != session_id)
    &&& after.request_records@ == before.request_records@.filter(
        |row: ModelRequestRecord| owning_session(row.owner) != session_id,
    )
    &&& after.recall_heads@ == before.recall_heads@.filter(
        |row: RecallHeadRow| owning_session(row.owner) != session_id,
    )
    &&& after.session_usage@.len() > 0
    &&& after.session_usage@.drop_last() == before.session_usage@.filter(
        |row: SessionUsageRow| row.session_id@ != session_id,
    )
    &&& after.session_usage@.last().session_id@ == session_id
    &&& after.session_usage@.last().backfilled
    &&& after.session_usage@.last().updated_at_ms == clear.changed_at_ms
    &&& nothing_is_used(after.session_usage@.last().usage)
    &&& exists|i: int|
        #[trigger] stands_at(before.sessions@, i, session_id) && after.sessions@.len() == before.sessions@.len() && session_starts_over(
            before.sessions@[i],
            after.sessions@[i],
            clear,
        ) && forall|k: int|
            0 <= k < before.sessions@.len() && k != i ==> #[trigger] after.sessions@[k]
                == before.sessions@[k]
    &&& after.unavailable_sessions@ == before.unavailable_sessions@.filter(
        |text: String| text@ != session_id,
    )
    &&& after.files == before.files
    &&& after.known == before.known
    &&& after.session_resources == before.session_resources
    &&& after.workspaces == before.workspaces
    &&& after.devices == before.devices
    &&& after.skill_name_states == before.skill_name_states
    &&& after.attachments == before.attachments
    &&& after.unavailable_child_tasks == before.unavailable_child_tasks
    &&& after.sessions_directory == before.sessions_directory
    &&& after.deletion_staging_directory == before.deletion_staging_directory
}

/// No request was made and no token used.
pub open spec fn nothing_is_used(usage: SessionUsage) -> bool {
    &&& usage.request_count == 0
    &&& usage.input_tokens == 0
    &&& usage.output_tokens == 0
    &&& usage.total_tokens == 0
    &&& usage.cached_input_tokens == 0
    &&& usage.cached_request_count == 0
    &&& usage.reasoning_tokens == 0
    &&& usage.reasoning_request_count == 0
    &&& usage.latest is None
}

proof fn emptied_conversation_starts_over(
    before: StorageEngine,
    after: StorageEngine,
    clear: SessionHistoryClear,
)
    requires
        unique(before.inputs@, input_name()),
        switch_refusal(before, clear) is None,
        conversation_emptied(before, after, clear),
    ensures
        starts_over(before, after, clear),
{
    let session_id = clear.session_id@;
    let gone = inputs_of(before.inputs@, session_id);
    let cut = choose|cut: StorageEngine| #[trigger]
        inputs_removed(before, cut, gone) && emptied(cut, after, clear);
    let goes = |row: StoredInput| row.session_id@ == session_id;
    inputs_go_with_what_is_theirs(before, cut, is_input_of(session_id), goes);
    dropped_history_is_gone(cut, after, session_id);
    kept_is_filtered(
        cut.session_usage@,
        usage_elsewhere(session_id),
        |row: SessionUsageRow| row.session_id@ != session_id,
    );
    kept_is_filtered(
        cut.unavailable_sessions@,
        is_other_text(session_id),
        |text: String| text@ != session_id,
    );
    let others = kept(cut.session_usage@, usage_elsewhere(session_id));
    assert(after.session_usage@.drop_last() =~= others);
    session_stands_where_found(before.sessions@, session_id);
    let i = first(before.sessions@, is_session(session_id))->0;
    assert(stands_at(before.sessions@, i, session_id));
    assert(after.sessions@ == before.sessions@.update(i, after.sessions@[i]));
    assert(session_starts_over(before.sessions@[i], after.sessions@[i], clear));
    assert(after.mcp_selections@ == before.mcp_selections@.filter(
        |row: McpSelectionRow| !input_goes(before, goes, row.input_id@),
    ).filter(|row: McpSelectionRow| row.session_id@ != session_id));
    filtered_rows(
        after.history_operations@,
        |row: HistoryOperationRow| row.session_id@ != session_id,
    );
}

/// After a conversation was emptied nothing is left of its history: no goal, judgement, plan,
/// activation, selection, request, input, run or task belongs to the session any more, its usage
/// counts nothing, and what belongs to other sessions is as it was. The session has a new, empty
/// body, and the receipt says that its old files are still to go.
pub proof fn nothing_is_left_of_an_emptied_history(
    before: StorageEngine,
    after: StorageEngine,
    clear: SessionHistoryClear,
    outcome: Result<ClearProgress, Refusal>,
)
    requires
        unique(before.inputs@, input_name()),
        clear_attempted(before, after, clear, outcome),
        forall|i: int|
            0 <= i < before.history_operations@.len() ==> (
            #[trigger] before.history_operations@[i]).operation_id@ != clear.operation_id@,
        outcome is Ok,
    ensures
        forall|i: int|
            0 <= i < after.goals@.len() ==> (#[trigger] after.goals@[i]).session_id@
                != clear.session_id@,
        forall|goal: StoredGoal|
            goal.session_id@ != clear.session_id@ ==> (#[trigger] after.goals@.contains(goal)
                == before.goals@.contains(goal)),
        outcome->Ok_0 == (ClearProgress::AwaitsCleanup {
            source_generation: clear.expected_generation,
            result_generation: (clear.expected_generation + 1) as u64,
        }),
        exists|opened: StorageEngine| #[trigger]
            starts_over(opened, after, clear) && opened == (StorageEngine {
                files: opened.files,
                history_operations: opened.history_operations,
                ..before
            }),
        bodies(after.files@) == bodies(before.files@).insert(
            before.sessions_directory@ + "/"@ + clear.session_id@ + "/conversation."@ + decimal(
                (clear.expected_generation + 1) as nat,
            ) + ".jsonl"@,
            Seq::<u8>::empty(),
        ),
        after.history_operations@ == before.history_operations@.filter(
            |row: HistoryOperationRow| row.session_id@ != clear.session_id@,
        ).push(
            HistoryOperationRow {
                operation_id: clear.operation_id,
                session_id: clear.session_id,
                kind: HistoryKind::Clear,
                state: HistoryState::CleanupPending,
                source_generation: clear.expected_generation as i64,
                result_generation: Some((clear.expected_generation + 1) as i64),
                compacted_message_count: None,
                retained_message_count: None,
                created_at_ms: clear.changed_at_ms,
                finished_at_ms: None,
            },
        ),
{
    let session_id = clear.session_id@;
    let same_operation = |row: HistoryOperationRow| row.operation_id@ == clear.operation_id@;
    found_leads(before.history_operations@, is_operation(clear.operation_id@), same_operation);
    assert(none_of(before.history_operations@, same_operation));
    let opened = choose|opened: StorageEngine| #[trigger]
        clear_opened(before, opened, clear) && conversation_emptied(opened, after, clear);
    assert(snapshot_refusal(opened, clear) == snapshot_refusal(before, clear));
    emptied_conversation_starts_over(opened, after, clear);
    assert(starts_over(opened, after, clear));
    filtered_rows(
        before.goals@,
        |row: StoredGoal| row.session_id@ != session_id,
    );
    assert forall|i: int| 0 <= i < after.goals@.len() implies (
    #[trigger] after.goals@[i]).session_id@ != session_id by {
        assert(before.goals@.filter(|row: StoredGoal| row.session_id@ != session_id)[i]
            == after.goals@[i]);
    }
    let path = before.sessions_directory@ + "/"@ + session_id + "/conversation."@ + decimal(
        (clear.expected_generation + 1) as nat,
    ) + ".jsonl"@;
    assert(clear_path(before, clear) =~= path);
    let gone = inputs_of(opened.inputs@, session_id);
    let cut = choose|cut: StorageEngine| #[trigger]
        inputs_removed(opened, cut, gone) && emptied(cut, after, clear);
    let receipt = clear_receipt(clear, HistoryState::Preparing);
    let rows = before.history_operations@;
    let stays = receipt_stays(session_id, clear.operation_id@);
    let longer = rows.push(receipt);
    assert(cut.history_operations@ == longer);
    assert(longer.drop_last() =~= rows);
    assert(kept(longer, stays) == kept(rows, stays).push(receipt));
    let others = |row: HistoryOperationRow| row.session_id@ != clear.session_id@;
    assert forall|i: int| 0 <= i < rows.len() implies stays(#[trigger] rows[i]) == others(
        rows[i],
    ) by {}
    kept_is_filtered(rows, stays, others);
    kept_rows(rows, stays);
    let earlier = kept(rows, stays);
    let left = earlier.push(receipt);
    assert forall|j: int| 0 <= j < earlier.len() implies !is_operation(clear.operation_id@)(
        #[trigger] left[j],
    ) by {
        assert(left[j] == earlier[j]);
        let k = rows.index_of(earlier[j]);
        assert(rows[k] == earlier[j]);
    }
    first_is(left, is_operation(clear.operation_id@), earlier.len() as int);
    let moved = HistoryOperationRow {
        state: HistoryState::CleanupPending,
        finished_at_ms: None,
        ..receipt
    };
    assert(after.history_operations@ =~= earlier.push(moved));
    assert(earlier == rows.filter(others));
    assert(moved == (HistoryOperationRow {
        operation_id: clear.operation_id,
        session_id: clear.session_id,
        kind: HistoryKind::Clear,
        state: HistoryState::CleanupPending,
        source_generation: clear.expected_generation as i64,
        result_generation: Some((clear.expected_generation + 1) as i64),
        compacted_message_count: None,
        retained_message_count: None,
        created_at_ms: clear.changed_at_ms,
        finished_at_ms: None,
    }));
}

/// An emptied conversation that counts only once that was stored leaves as little.
pub proof fn nothing_is_left_once_a_clear_is_settled(
    before: StorageEngine,
    after: StorageEngine,
    clear: SessionHistoryClear,
    outcome: Result<ClearProgress, Refusal>,
)
    requires
        unique(before.inputs@, input_name()),
        clear_settled(before, after, clear, Ok(()), outcome),
        outcome is Ok,
    ensures
        starts_over(before, after, clear),
{
    emptied_conversation_starts_over(before, after, clear);
}

/// A deleted session leaves nothing: no row of any table belongs to it, no body lies below its
/// directory, and what belongs to other sessions is as it was.
pub proof fn nothing_is_left_of_a_deleted_session(
    before: StorageEngine,
    after: StorageEngine,
    session_id: Seq<char>,
)
    requires
        unique(before.inputs@, input_name()),
        session_deleted(before, after, session_id),
    ensures
        work_is_removed(before, after, |row: StoredInput| row.session_id@ == session_id),
        after.sessions@ == before.sessions@.filter(|row: SessionRow| row.session_id@ != session_id),
        after.session_resources@ == before.session_resources@.filter(
            |row: SessionResources| row.session_id@ != session_id,
        ),
        after.session_usage@ == before.session_usage@.filter(
            |row: SessionUsageRow| row.session_id@ != session_id,
        ),
        after.attachments@ == before.attachments@.filter(
            |row: StoredAttachment| row.session_id@ != session_id,
        ),
        after.history_operations@ == before.history_operations@.filter(
            |row: HistoryOperationRow| row.session_id@ != session_id,
        ),
        after.goals@ == before.goals@.filter(|row: StoredGoal| row.session_id@ != session_id),
        after.feedback@ == before.feedback@.filter(
            |row: FeedbackRow| row.session_id@ != session_id,
        ),
        after.work_plans@ == before.work_plans@.filter(
            |row: Arc<StoredWorkPlan>| row.session_id@ != session_id,
        ),
        after.work_plan_receipts@ == before.work_plan_receipts@.filter(
            |row: Arc<StoredWorkPlan>| row.session_id@ != session_id,
        ),
        after.skill_activations@ == before.skill_activations@.filter(
            |row: StoredSkillActivation| row.session_id@ != session_id,
        ),
        after.request_records@ == before.request_records@.filter(
            |row: ModelRequestRecord| owning_session(row.owner) != session_id,
        ),
        after.recall_heads@ == before.recall_heads@.filter(
            |row: RecallHeadRow| owning_session(row.owner) != session_id,
        ),
        after.unavailable_sessions@ == before.unavailable_sessions@.filter(
            |text: String| text@ != session_id,
        ),
        forall|i: int|
            0 <= i < after.mcp_selections@.len() ==> (
            #[trigger] after.mcp_selections@[i]).session_id@ != session_id,
        forall|i: int|
            0 <= i < after.files@.len() ==> !(before.sessions_directory@ + "/"@ + session_id
                + "/"@).is_prefix_of((#[trigger] after.files@[i]).path@),
        forall|i: int|
            0 <= i < before.files@.len() && !(before.sessions_directory@ + "/"@ + session_id
                + "/"@).is_prefix_of((#[trigger] before.files@[i]).path@)
                ==> after.files@.contains(before.files@[i]),
        after.known == before.known,
        after.workspaces == before.workspaces,
        after.devices == before.devices,
        after.skill_name_states == before.skill_name_states,
        after.unavailable_child_tasks == before.unavailable_child_tasks,
        after.sessions_directory == before.sessions_directory,
        after.deletion_staging_directory == before.deletion_staging_directory,
{
    let gone = inputs_of(before.inputs@, session_id);
    let cut = choose|cut: StorageEngine| #[trigger]
        inputs_removed(before, cut, gone) && session_forgotten(cut, after, session_id);
    inputs_go_with_what_is_theirs(
        before,
        cut,
        is_input_of(session_id),
        |row: StoredInput| row.session_id@ == session_id,
    );
    dropped_history_is_gone(cut, after, session_id);
    kept_is_filtered(
        cut.sessions@,
        session_elsewhere(session_id),
        |row: SessionRow| row.session_id@ != session_id,
    );
    kept_is_filtered(
        cut.session_resources@,
        resources_elsewhere(session_id),
        |row: SessionResources| row.session_id@ != session_id,
    );
    kept_is_filtered(
        cut.session_usage@,
        usage_elsewhere(session_id),
        |row: SessionUsageRow| row.session_id@ != session_id,
    );
    kept_is_filtered(
        cut.attachments@,
        attachment_elsewhere(session_id),
        |row: StoredAttachment| row.session_id@ != session_id,
    );
    kept_is_filtered(
        cut.history_operations@,
        operation_elsewhere(session_id),
        |row: HistoryOperationRow| row.session_id@ != session_id,
    );
    kept_is_filtered(
        cut.unavailable_sessions@,
        is_other_text(session_id),
        |text: String| text@ != session_id,
    );
    filtered_rows(
        cut.mcp_selections@,
        |row: McpSelectionRow| row.session_id@ != session_id,
    );
    assert forall|i: int| 0 <= i < after.mcp_selections@.len() implies (
    #[trigger] after.mcp_selections@[i]).session_id@ != session_id by {
        assert(cut.mcp_selections@.filter(
            |row: McpSelectionRow| row.session_id@ != session_id,
        )[i] == after.mcp_selections@[i]);
    }
    let directory = before.sessions_directory@ + "/"@ + session_id + "/"@;
    let elsewhere = body_elsewhere(
        cut.sessions_directory@,
        session_id,
    );
    kept_rows(cut.files@, elsewhere);
    assert forall|path: Seq<char>| directory.is_prefix_of(path)
        == #[trigger] has_prefix(path, directory) by {
        if has_prefix(path, directory) {
            assert forall|k: int| 0 <= k < directory.len() implies directory[k] == path[k] by {
                assert(path.take(directory.len() as int)[k] == path[k]);
            }
            assert(directory =~= path.subrange(0, directory.len() as int));
        }
        if directory.is_prefix_of(path) {
            assert(path.take(directory.len() as int) =~= directory);
        }
    }
    assert forall|i: int| 0 <= i < after.files@.len() implies !directory.is_prefix_of(
        (#[trigger] after.files@[i]).path@,
    ) by {
        assert(elsewhere(after.files@[i]));
        assert(!has_prefix(after.files@[i].path@, directory));
    }
    assert forall|i: int| 0 <= i < before.files@.len() && !directory.is_prefix_of(
        (#[trigger] before.files@[i]).path@,
    ) implies after.files@.contains(before.files@[i]) by {
        assert(!has_prefix(before.files@[i].path@, directory));
        assert(cut.files@.contains(before.files@[i]));
    }
}

} // verus!
