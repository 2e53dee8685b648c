//! What is told of runs, and in what words.

use vstd::prelude::*;

use crate::append_effect::RunSettlementEffect;
use crate::engine::{has_input_id, has_run_id, StorageEngine};
use crate::message::held;
use crate::order::key_before;
use crate::relations::{input_at, input_is_found, kept_is_filtered};
use crate::rows::{NewStoredInput, RunMessageRef, RunRow};
use crate::run_laws::{goal_step, next_of_goal};
use crate::run_loading::{
    columns_refusal, is_ref_of, is_run_of, is_shown, names_error, names_status, ref_steps, run_keys,
    runs_listed, shows, MessageStep, RunColumns, StoredRun,
};
use crate::run_projection::{error_code_text, run_status_text, RunStatus, RuntimeErrorCode};
use crate::run_state::{is_accepted, is_answer, AcceptedInput, RunSettlementResult};
use crate::table::{first, first_is_found, kept, some_row};
use crate::text::text_before;

verus! {

/// The state of a run is written in the word for it, and no other state is written so.
pub proof fn states_have_their_words(status: RunStatus)
    ensures
        status is Accepted <==> run_status_text(status) == "accepted"@,
        status is Running <==> run_status_text(status) == "running"@,
        status is Cancelling <==> run_status_text(status) == "cancelling"@,
        status is Completed <==> run_status_text(status) == "completed"@,
        status is Failed <==> run_status_text(status) == "failed"@,
        status is Cancelled <==> run_status_text(status) == "cancelled"@,
        status is Interrupted <==> run_status_text(status) == "interrupted"@,
        status is CompactionRequired <==> run_status_text(status) == "compaction_required"@,
{
    reveal_strlit("accepted");
    reveal_strlit("running");
    reveal_strlit("cancelling");
    reveal_strlit("completed");
    reveal_strlit("failed");
    reveal_strlit("cancelled");
    reveal_strlit("interrupted");
    reveal_strlit("compaction_required");
    assert("accepted"@.len() == 8 && "running"@.len() == 7 && "cancelling"@.len() == 10
        && "completed"@.len() == 9 && "failed"@.len() == 6 && "cancelled"@.len() == 9
        && "interrupted"@.len() == 11 && "compaction_required"@.len() == 19);
    assert("completed"@[1] == 'o' && "cancelled"@[1] == 'a');
}

/// The code of an error is written in the words for it.
pub proof fn errors_have_their_words(code: RuntimeErrorCode)
    ensures
        code is InvalidRequest ==> error_code_text(code) == "invalid_request"@,
        code is SessionNotFound ==> error_code_text(code) == "session_not_found"@,
        code is SessionBusy ==> error_code_text(code) == "session_busy"@,
        code is SessionArchived ==> error_code_text(code) == "session_archived"@,
        code is SessionNotIdle ==> error_code_text(code) == "session_not_idle"@,
        code is RunNotFound ==> error_code_text(code) == "run_not_found"@,
        code is ChildTaskNotFound ==> error_code_text(code) == "child_task_not_found"@,
        code is InputNotFound ==> error_code_text(code) == "input_not_found"@,
        code is RunNotRetryable ==> error_code_text(code) == "run_not_retryable"@,
        code is StorageUnavailable ==> error_code_text(code) == "storage_unavailable"@,
        code is RuntimeShuttingDown ==> error_code_text(code) == "runtime_shutting_down"@,
        code is AgentBuildFailed ==> error_code_text(code) == "agent_build_failed"@,
        code is ConfigurationUnavailable ==> error_code_text(code) == "configuration_unavailable"@,
        code is ModelNotFound ==> error_code_text(code) == "model_not_found"@,
        code is ModelUnavailable ==> error_code_text(code) == "model_unavailable"@,
        code is ModelBuildFailed ==> error_code_text(code) == "model_build_failed"@,
        code is ModelExecutionFailed ==> error_code_text(code) == "model_execution_failed"@,
        code is ContextCompactionFailed ==> error_code_text(code) == "context_compaction_failed"@,
        code is Timeout ==> error_code_text(code) == "timeout"@,
        code is Cancelled ==> error_code_text(code) == "cancelled"@,
        code is WorkspaceNotFound ==> error_code_text(code) == "workspace_not_found"@,
        code is WorkspaceRemoved ==> error_code_text(code) == "workspace_removed"@,
        code is WorkspaceUnavailable ==> error_code_text(code) == "workspace_unavailable"@,
        code is AttachmentNotFound ==> error_code_text(code) == "attachment_not_found"@,
        code is AttachmentUnavailable ==> error_code_text(code) == "attachment_unavailable"@,
        code is AttachmentTooLarge ==> error_code_text(code) == "attachment_too_large"@,
        code is AttachmentUploadInvalid ==> error_code_text(code) == "attachment_upload_invalid"@,
        code is PermissionFileInvalid ==> error_code_text(code) == "permission_file_invalid"@,
        code is PermissionFileConflict ==> error_code_text(code) == "permission_file_conflict"@,
        code is PermissionReloadFailed ==> error_code_text(code) == "permission_reload_failed"@,
        code is PermissionPersistenceFailed ==> error_code_text(code) == "permission_persistence_failed"@,
        code is ApprovalNotFound ==> error_code_text(code) == "approval_not_found"@,
        code is ApprovalExpired ==> error_code_text(code) == "approval_expired"@,
        code is ApprovalNotHead ==> error_code_text(code) == "approval_not_head"@,
        code is ApprovalAlreadyResolved ==> error_code_text(code) == "approval_already_resolved"@,
        code is PermissionScopeUnavailable ==> error_code_text(code) == "permission_scope_unavailable"@,
        code is Conflict ==> error_code_text(code) == "conflict"@,
        code is ConfigurationConflict ==> error_code_text(code) == "configuration_conflict"@,
        code is QueueConflict ==> error_code_text(code) == "queue_conflict"@,
        code is SnapshotStale ==> error_code_text(code) == "snapshot_stale"@,
        code is SnapshotBusy ==> error_code_text(code) == "snapshot_busy"@,
        code is OperationNotAllowed ==> error_code_text(code) == "operation_not_allowed"@,
        code is ResourceNotPreviewable ==> error_code_text(code) == "resource_not_previewable"@,
        code is ResourceTooLarge ==> error_code_text(code) == "resource_too_large"@,
        code is Internal ==> error_code_text(code) == "internal"@,
{
}

/// The row of an input that a run was made for.
pub open spec fn has_its_input(engine: StorageEngine, run: RunRow) -> bool {
    exists|k: int|
        0 <= k < engine.inputs@.len() && (#[trigger] engine.inputs@[k]).input_id@ == run.input_id@
}

/// A run is told with what its row says, the variant of its input, and the messages that were noted
/// for it, in their order.
pub open spec fn is_told(engine: StorageEngine, row: RunRow, run: StoredRun) -> bool {
    &&& run.run_id == row.run_id
    &&& run.session_id == row.session_id
    &&& run.input_id == row.input_id
    &&& run.attempt == row.attempt
    &&& run.status == row.status
    &&& run.approval_mode == row.approval_mode
    &&& run.reasoning_effort == row.reasoning_effort
    &&& run.cancel_requested == row.cancel_requested
    &&& run.error == row.error
    &&& run.created_at_ms == row.created_at_ms
    &&& run.started_at_ms == row.started_at_ms
    &&& run.finished_at_ms == row.finished_at_ms
    &&& forall|k: int| #[trigger]
        input_at(engine.inputs@, k, row.input_id@) ==> run.agent_variant
            == engine.inputs@[k].agent_variant
    &&& run.message_ids@.len() == noted_for(engine, row).len()
    &&& forall|k: int|
        0 <= k < run.message_ids@.len() ==> #[trigger] run.message_ids@[k] == noted_for(
            engine,
            row,
        )[k].message_id
    &&& run.message_steps@ == steps_of(noted_for(engine, row))
}

/// The condition of being noted for a run.
pub open spec fn is_noted_for(run_id: Seq<char>) -> spec_fn(RunMessageRef) -> bool {
    |noted: RunMessageRef| noted.run_id@ == run_id
}

/// What was noted for a run.
pub open spec fn noted_for(engine: StorageEngine, row: RunRow) -> Seq<RunMessageRef> {
    engine.run_message_refs@.filter(is_noted_for(row.run_id@))
}

/// The condition of having a step.
pub open spec fn has_step() -> spec_fn(RunMessageRef) -> bool {
    |noted: RunMessageRef| noted.step is Some
}

/// What was noted with a step, as message and step.
pub open spec fn steps_of(noted: Seq<RunMessageRef>) -> Seq<MessageStep> {
    noted.filter(has_step()).map_values(
        |noted: RunMessageRef| MessageStep { message_id: noted.message_id, step: noted.step->0 },
    )
}

proof fn steps_are_those_noted(refs: Seq<RunMessageRef>)
    ensures
        ref_steps(refs) == steps_of(refs),
    decreases refs.len(),
{
    reveal_with_fuel(Seq::filter, 2);
    if refs.len() > 0 {
        steps_are_those_noted(refs.drop_last());
        assert(ref_steps(refs) =~= steps_of(refs));
    } else {
        assert(ref_steps(refs) =~= steps_of(refs));
    }
}

/// What shows a run tells it.
pub proof fn runs_are_told_as_they_are(engine: StorageEngine, row: RunRow, run: StoredRun)
    requires
        shows(engine, row, run),
    ensures
        is_told(engine, row, run),
        has_its_input(engine, row),
{
    input_is_found(engine.inputs@, row.input_id@);
    let k = first(engine.inputs@, has_input_id(row.input_id@))->0;
    assert(input_at(engine.inputs@, k, row.input_id@));
    assert(engine.inputs@[k].input_id@ == row.input_id@);
    kept_is_filtered(
        engine.run_message_refs@,
        is_ref_of(row.run_id@),
        is_noted_for(row.run_id@),
    );
    steps_are_those_noted(noted_for(engine, row));
}

/// Runs are told for the session asked for, or all: those whose input is there, each as it is, in the
/// order of their times and, at one time, of their identifiers.
pub proof fn runs_are_told_in_order(
    engine: StorageEngine,
    scope: Option<String>,
    order: Seq<usize>,
    list: Seq<StoredRun>,
)
    requires
        runs_listed(engine, kept(engine.runs@, is_shown(engine, scope)), order, list),
    ensures
        list.len() == engine.runs@.filter(is_to_be_told(engine, scope)).len(),
        forall|k: int|
            0 <= k < list.len() ==> tells_one_of(
                engine,
                engine.runs@.filter(is_to_be_told(engine, scope)),
                #[trigger] list[k],
            ),
        forall|k: int, l: int|
            0 <= k < l < list.len() ==> (#[trigger] list[k]).created_at_ms < (
            #[trigger] list[l]).created_at_ms || (list[k].created_at_ms == list[l].created_at_ms
                && !text_before(list[l].run_id@, list[k].run_id@)),
{
    let rows = kept(engine.runs@, is_shown(engine, scope));
    let plain = is_to_be_told(engine, scope);
    assert forall|i: int| 0 <= i < engine.runs@.len() implies is_shown(engine, scope)(
        #[trigger] engine.runs@[i],
    ) == plain(engine.runs@[i]) by {
        let id = engine.runs@[i].input_id@;
        if some_row(engine.inputs@, has_input_id(id)) {
            let k = choose|k: int|
                0 <= k < engine.inputs@.len() && has_input_id(id)(#[trigger] engine.inputs@[k]);
            assert(engine.inputs@[k].input_id@ == id);
        }
        if has_its_input(engine, engine.runs@[i]) {
            let k = choose|k: int|
                0 <= k < engine.inputs@.len() && (#[trigger] engine.inputs@[k]).input_id@ == id;
            assert(has_input_id(id)(engine.inputs@[k]));
        }
    }
    kept_is_filtered(engine.runs@, is_shown(engine, scope), plain);
    assert forall|k: int| 0 <= k < list.len() implies tells_one_of(
        engine,
        rows,
        #[trigger] list[k],
    ) by {
        runs_are_told_as_they_are(engine, rows[order[k] as int], list[k]);
    }
    assert forall|k: int, l: int| 0 <= k < l < list.len() implies (
    #[trigger] list[k]).created_at_ms < (#[trigger] list[l]).created_at_ms || (
    list[k].created_at_ms == list[l].created_at_ms && !text_before(
        list[l].run_id@,
        list[k].run_id@,
    )) by {
        let keys = run_keys(rows);
        assert(!key_before(keys[order[l] as int], keys[order[k] as int]));
        assert(shows(engine, rows[order[k] as int], list[k]));
        assert(shows(engine, rows[order[l] as int], list[l]));
    }
}

/// The condition of being a run of the session asked for whose input is there.
pub open spec fn is_to_be_told(engine: StorageEngine, scope: Option<String>) -> spec_fn(
    RunRow,
) -> bool {
    |run: RunRow|
        has_its_input(engine, run) && (scope is None || scope->0@ == run.session_id@)
}

/// A run that is told is one of some.
pub open spec fn tells_one_of(engine: StorageEngine, rows: Seq<RunRow>, run: StoredRun) -> bool {
    exists|i: int| 0 <= i < rows.len() && is_told(engine, #[trigger] rows[i], run)
}

/// A run is read from its columns exactly where they hold a flag, a number of attempts, a state and,
/// if an error, a code and a message.
pub proof fn columns_say_what_the_run_is(columns: RunColumns)
    ensures
        columns_refusal(columns) is None <==> {
            &&& columns.cancel_requested == 0 || columns.cancel_requested == 1
            &&& columns.error_code is Some <==> columns.error_message is Some
            &&& columns.error_code is Some ==> exists|code: RuntimeErrorCode| #[trigger]
                error_code_text(code) == columns.error_code->0@
            &&& 0 <= columns.attempt <= u32::MAX
            &&& {
                ||| columns.status@ == "accepted"@
                ||| columns.status@ == "running"@
                ||| columns.status@ == "cancelling"@
                ||| columns.status@ == "completed"@
                ||| columns.status@ == "failed"@
                ||| columns.status@ == "cancelled"@
                ||| columns.status@ == "interrupted"@
                ||| columns.status@ == "compaction_required"@
            }
        },
{
    if names_status(columns.status@) {
        let status = choose|status: RunStatus| columns.status@ == #[trigger] run_status_text(status);
        states_have_their_words(status);
    }
    assert(run_status_text(RunStatus::Accepted) == "accepted"@);
    assert(run_status_text(RunStatus::Running) == "running"@);
    assert(run_status_text(RunStatus::Cancelling) == "cancelling"@);
    assert(run_status_text(RunStatus::Completed) == "completed"@);
    assert(run_status_text(RunStatus::Failed) == "failed"@);
    assert(run_status_text(RunStatus::Cancelled) == "cancelled"@);
    assert(run_status_text(RunStatus::Interrupted) == "interrupted"@);
    assert(run_status_text(RunStatus::CompactionRequired) == "compaction_required"@);
    if names_error(columns.error_code->0@) {
        let code = choose|code: RuntimeErrorCode|
            columns.error_code->0@ == #[trigger] error_code_text(code);
        assert(error_code_text(code) == columns.error_code->0@);
    }
}

/// A run that is read says what its columns say.
pub proof fn runs_are_read_as_written(columns: RunColumns, row: RunRow)
    requires
        is_run_of(columns, row),
    ensures
        row.run_id == columns.run_id,
        row.session_id == columns.session_id,
        row.input_id == columns.input_id,
        row.attempt == columns.attempt,
        row.approval_mode == columns.approval_mode,
        row.reasoning_effort == columns.reasoning_effort,
        row.created_at_ms == columns.created_at_ms,
        row.started_at_ms == columns.started_at_ms,
        row.finished_at_ms == columns.finished_at_ms,
        row.cancel_requested <==> columns.cancel_requested == 1,
        row.status is Accepted <==> columns.status@ == "accepted"@,
        row.status is Running <==> columns.status@ == "running"@,
        row.status is Cancelling <==> columns.status@ == "cancelling"@,
        row.status is Completed <==> columns.status@ == "completed"@,
        row.status is Failed <==> columns.status@ == "failed"@,
        row.status is Cancelled <==> columns.status@ == "cancelled"@,
        row.status is Interrupted <==> columns.status@ == "interrupted"@,
        row.status is CompactionRequired <==> columns.status@ == "compaction_required"@,
        row.error is Some <==> columns.error_code is Some,
        row.error is Some ==> Some(row.error->0.message) == columns.error_message,
        row.error is Some ==> error_code_text(row.error->0.code) == columns.error_code->0@,
{
    states_have_their_words(row.status);
}

/// The input that was taken in by the end of a run is told with its run, as one that was not there
/// before.
pub proof fn accepted_inputs_are_told(
    engine: StorageEngine,
    new: NewStoredInput,
    accepted: AcceptedInput,
)
    requires
        is_accepted(engine, new, accepted),
    ensures
        !accepted.is_duplicate,
        exists|k: int| #[trigger]
            input_at(engine.inputs@, k, new.input_id@) && accepted.input == engine.inputs@[k],
        exists|r: int|
            0 <= r < engine.runs@.len() && (#[trigger] engine.runs@[r]).run_id@ == new.run_id@
                && is_told(engine, engine.runs@[r], accepted.run),
{
    input_is_found(engine.inputs@, new.input_id@);
    let k = first(engine.inputs@, has_input_id(new.input_id@))->0;
    assert(input_at(engine.inputs@, k, new.input_id@));
    let r = first(engine.runs@, has_run_id(new.run_id@))->0;
    first_is_found(engine.runs@, has_run_id(new.run_id@));
    assert(has_run_id(new.run_id@)(engine.runs@[r]));
    runs_are_told_as_they_are(engine, engine.runs@[r], accepted.run);
    assert(engine.runs@[r].run_id@ == new.run_id@);
}

/// The end of a run is answered with the goal as it was left, with the input by which it goes on, if
/// it does, and with the report that was handed on, if one was.
pub proof fn ends_are_answered_with_what_follows(
    engine: StorageEngine,
    effect: RunSettlementEffect,
    answer: RunSettlementResult,
)
    requires
        is_answer(engine, effect, answer),
    ensures
        effect.goal_effect is None ==> answer.goal is None && answer.continuation is None
            && !answer.resume_required,
        effect.goal_effect is Some ==> answer.goal == Some(
            goal_step(held(effect.goal_effect->0)).2,
        ),
        answer.continuation is Some <==> next_of_goal(effect) is Some,
        next_of_goal(effect) is Some ==> is_accepted(
            engine,
            next_of_goal(effect)->0,
            answer.continuation->0,
        ) && !answer.resume_required,
        effect.goal_effect is Some && next_of_goal(effect) is None ==> answer.resume_required
            == held(effect.goal_effect->0)->resume_required,
        answer.accepted_proxy_report is Some <==> effect.proxy_report is Some,
        effect.proxy_report is Some ==> is_accepted(
            engine,
            held(effect.proxy_report->0),
            answer.accepted_proxy_report->0,
        ),
{
}

} // verus!
