//! Changes of a whole conversation: emptying it, and keeping track of its compaction.
//!
//! Each change leaves a receipt under the operation that asked for it, so that a repeated request
//! is answered instead of carried out again. An emptied conversation counts from the moment the
//! tables say so; what is left of the old one is cleaned up after that.

use std::sync::Arc;
use vstd::prelude::*;

use crate::append_effect::ConversationStorageTarget;
use crate::cascade::inputs_removed;
use crate::engine::{
    bodies, body_place, is_session, path_component, remove_body, session_body_path, write_body,
    StorageEngine,
};
use crate::error::{
    conflict, conflicting, corrupt, failed, internal_error, invalid_data, invalid_input, malformed,
    outcome_of, Refusal, StorageResult,
};
use crate::idle::busy_for_history;
use crate::numbers::{non_negative, positive, to_i64, STORED_MAX};
use crate::rows::{
    ConversationOwner, FeedbackRow, HistoryKind, HistoryOperationRow, HistoryState, McpSelectionRow,
    ModelRequestRecord, RecallHeadRow, SessionLifecycle, SessionRole, SessionRow,
    SessionTitleOrigin, SessionUsageRow, SkillCatalog, StoredGoal, StoredInput,
    StoredSkillActivation,
};
use crate::session_management::place_of_session;
use crate::session_resources::{
    environment_refusal, is_same_environment, same_environment, works_in,
    SessionExecutionEnvironment,
};
use crate::session_rewrite::input_key;
use crate::table::{first, first_is_found, keep, kept, listed, position, some_row};
use crate::usage::{empty_usage, no_usage};
use crate::work_plan::{is_plan_of_other, StoredWorkPlan};

verus! {

/// The receipt of a change, with its numbers read.
#[derive(Debug, PartialEq, Eq)]
pub struct HistoryOperation {
    pub session_id: String,
    pub kind: HistoryKind,
    pub state: HistoryState,
    pub source_generation: u64,
    pub result_generation: Option<u64>,
    pub compacted_message_count: Option<u64>,
    pub retained_message_count: Option<u64>,
}

/// A request to empty a conversation. Whether the new skill catalog is well formed is for the
/// caller to find out.
#[derive(Debug)]
pub struct SessionHistoryClear {
    pub operation_id: String,
    pub session_id: String,
    pub expected_generation: u64,
    pub expected_role: SessionRole,
    pub environment: SessionExecutionEnvironment,
    pub system_prompt: String,
    pub skill_catalog: SkillCatalog,
    pub skill_catalog_is_valid: bool,
    pub changed_at_ms: i64,
}

/// Whether the files of the old conversation are gone.
#[derive(Clone, Copy, Debug, PartialEq, Eq, Structural)]
pub enum CleanupStatus {
    Completed,
    Pending,
}

/// An emptied conversation.
#[derive(Debug, PartialEq, Eq)]
pub struct SessionHistoryClearResult {
    pub session: SessionRow,
    pub source_generation: u64,
    pub result_generation: u64,
    pub cleanup_status: CleanupStatus,
}

/// How far a request to empty a conversation has come.
#[derive(Debug, PartialEq, Eq)]
pub enum ClearProgress {
    /// It was carried out before, files included.
    Finished(SessionHistoryClearResult),
    /// The conversation is empty; the files of the old one are to be removed.
    AwaitsCleanup { source_generation: u64, result_generation: u64 },
}

/// A request to compact a conversation.
#[derive(Debug)]
pub struct CompactionPreparation {
    pub operation_id: String,
    pub session_id: String,
    pub expected_generation: u64,
    pub created_at_ms: i64,
}

/// How a compaction came out.
#[derive(Clone, Copy, Debug, PartialEq, Eq, Structural)]
pub enum CompactOutcome {
    Compacted {
        source_generation: u64,
        result_generation: u64,
        compacted_message_count: u64,
        retained_message_count: u64,
    },
    NoOp,
    Cancelled,
}

/// Whether a compaction can go ahead, or how it came out before.
#[derive(Clone, Copy, Debug, PartialEq, Eq, Structural)]
pub enum CompactionPreparationResult {
    Prepared,
    Completed(CompactOutcome),
}

/// How a compaction ends that leaves the conversation as it is.
#[derive(Clone, Copy, Debug, PartialEq, Eq, Structural)]
pub enum CompactionFinishKind {
    NoOp,
    Cancelled,
    Interrupted,
}

/// The end of a compaction that leaves the conversation as it is.
#[derive(Debug)]
pub struct CompactionFinish {
    pub operation_id: String,
    pub session_id: String,
    pub expected_generation: u64,
    pub kind: CompactionFinishKind,
    pub finished_at_ms: i64,
}

/// The condition of being a receipt.
pub open spec fn is_operation(operation_id: Seq<char>) -> spec_fn(HistoryOperationRow) -> bool {
    |row: HistoryOperationRow| row.operation_id@ == operation_id
}

/// The condition of being another receipt.
pub open spec fn is_other_operation(operation_id: Seq<char>) -> spec_fn(
    HistoryOperationRow,
) -> bool {
    |row: HistoryOperationRow| row.operation_id@ != operation_id
}

/// Why a stored receipt cannot be read.
pub open spec fn receipt_refusal(row: HistoryOperationRow) -> Option<Refusal> {
    if row.source_generation <= 0 {
        Some(corrupt("stored history source generation is invalid"@))
    } else if row.result_generation is Some && row.result_generation->0 <= 0 {
        Some(corrupt("stored history result generation is invalid"@))
    } else if row.compacted_message_count is Some && row.compacted_message_count->0 < 0 {
        Some(corrupt("stored compact message count is invalid"@))
    } else if row.retained_message_count is Some && row.retained_message_count->0 < 0 {
        Some(corrupt("stored compact retained count is invalid"@))
    } else {
        None
    }
}

/// An optional stored integer as a count.
pub open spec fn read_count(value: Option<i64>) -> Option<u64> {
    match value {
        Some(value) => Some(value as u64),
        None => None,
    }
}

/// The receipt that a row holds.
pub open spec fn receipt_of(row: HistoryOperationRow) -> HistoryOperation {
    HistoryOperation {
        session_id: row.session_id,
        kind: row.kind,
        state: row.state,
        source_generation: row.source_generation as u64,
        result_generation: read_count(row.result_generation),
        compacted_message_count: read_count(row.compacted_message_count),
        retained_message_count: read_count(row.retained_message_count),
    }
}

/// Reads a receipt.
pub fn decode_history_operation(row: &HistoryOperationRow) -> (result: StorageResult<
    HistoryOperation,
>)
    ensures
        match receipt_refusal(*row) {
            Some(error) => result is Err && result->Err_0@ == error,
            None => result is Ok && result->Ok_0 == receipt_of(*row),
        },
{
    let source_generation: u64 = match positive(
        row.source_generation,
        "stored history source generation is invalid",
    ) {
        Ok(value) => value,
        Err(error) => {
            return Err(error);
        },
    };
    let result_generation: Option<u64> = match row.result_generation {
        Some(value) => match positive(value, "stored history result generation is invalid") {
            Ok(value) => Some(value),
            Err(error) => {
                return Err(error);
            },
        },
        None => None,
    };
    let compacted_message_count: Option<u64> = match row.compacted_message_count {
        Some(value) => match non_negative(value, "stored compact message count is invalid") {
            Ok(value) => Some(value),
            Err(error) => {
                return Err(error);
            },
        },
        None => None,
    };
    let retained_message_count: Option<u64> = match row.retained_message_count {
        Some(value) => match non_negative(value, "stored compact retained count is invalid") {
            Ok(value) => Some(value),
            Err(error) => {
                return Err(error);
            },
        },
        None => None,
    };
    Ok(
        HistoryOperation {
            session_id: row.session_id.clone(),
            kind: row.kind,
            state: row.state,
            source_generation,
            result_generation,
            compacted_message_count,
            retained_message_count,
        },
    )
}

/// Why a session is not as a request to empty its conversation expects.
pub open spec fn snapshot_refusal(engine: StorageEngine, clear: SessionHistoryClear) -> Option<
    Refusal,
> {
    match first(engine.sessions@, is_session(clear.session_id@)) {
        None => Some(conflicting("clear session does not exist"@)),
        Some(i) => if !(engine.sessions@[i].lifecycle is Active) || engine.sessions@[i].role
            != clear.expected_role || engine.sessions@[i].body_generation
            != clear.expected_generation {
            Some(conflicting("clear session snapshot changed"@))
        } else if busy_for_history(engine, clear.session_id@) {
            Some(conflicting("session history operation requires an idle session"@))
        } else {
            None
        },
    }
}

/// Why an emptied conversation cannot count now.
pub open spec fn switch_refusal(engine: StorageEngine, clear: SessionHistoryClear) -> Option<
    Refusal,
> {
    if clear.expected_generation == u64::MAX {
        Some(conflicting("clear session generation exhausted"@))
    } else {
        snapshot_refusal(engine, clear)
    }
}

/// Why a conversation cannot be emptied.
pub open spec fn clear_refusal(engine: StorageEngine, clear: SessionHistoryClear) -> Option<
    Refusal,
> {
    if !clear.skill_catalog_is_valid {
        Some(malformed("clear skill catalog is invalid"@))
    } else if environment_refusal(engine, clear.session_id@) is Some {
        environment_refusal(engine, clear.session_id@)
    } else if !matches_environment(engine, clear) {
        Some(conflicting("clear session environment changed"@))
    } else if clear.expected_generation == u64::MAX {
        Some(conflicting("clear session generation exhausted"@))
    } else if clear.expected_generation > STORED_MAX {
        Some(malformed("clear source generation exceeds storage range"@))
    } else if clear.expected_generation + 1 > STORED_MAX {
        Some(malformed("clear result generation exceeds storage range"@))
    } else if snapshot_refusal(engine, clear) is Some {
        snapshot_refusal(engine, clear)
    } else if some_row(engine.history_operations@, is_operation(clear.operation_id@)) {
        Some(conflicting("clear preparation receipt could not be created"@))
    } else {
        None
    }
}

/// A session works in the environment that a request expects.
pub open spec fn matches_environment(engine: StorageEngine, clear: SessionHistoryClear) -> bool {
    exists|environment: SessionExecutionEnvironment| #[trigger]
        works_in(engine, clear.session_id@, environment) && same_environment(
            environment,
            clear.environment,
        )
}

/// The receipt of a request to empty a conversation.
pub open spec fn clear_receipt(clear: SessionHistoryClear, state: HistoryState) -> HistoryOperationRow {
    HistoryOperationRow {
        operation_id: clear.operation_id,
        session_id: clear.session_id,
        kind: HistoryKind::Clear,
        state,
        source_generation: clear.expected_generation as i64,
        result_generation: Some((clear.expected_generation + 1) as i64),
        compacted_message_count: None,
        retained_message_count: None,
        created_at_ms: clear.changed_at_ms,
        finished_at_ms: None,
    }
}

/// Where the emptied conversation lies.
pub open spec fn clear_path(engine: StorageEngine, clear: SessionHistoryClear) -> Seq<char> {
    session_body_path(
        engine.sessions_directory@,
        clear.session_id@,
        (clear.expected_generation + 1) as u64,
    )
}

/// A session whose conversation was emptied. What the runtime chose for it is chosen anew; what its
/// user chose stays.
pub open spec fn is_emptied(row: SessionRow, next: SessionRow, clear: SessionHistoryClear) -> bool {
    &&& next == (SessionRow {
        title: next.title,
        system_prompt: clear.system_prompt,
        skill_catalog: clear.skill_catalog,
        body_generation: (clear.expected_generation + 1) as u64,
        message_count: 0,
        updated_at_ms: clear.changed_at_ms,
        automatic_title_pending: false,
        proxy: if row.role is Standard {
            None
        } else {
            row.proxy
        },
        ..row
    })
    &&& if row.title_origin is Generated {
        next.title@ == "New Session"@
    } else {
        next.title == row.title
    }
}

/// The condition of belonging to another session.
pub open spec fn feedback_elsewhere(session_id: Seq<char>) -> spec_fn(FeedbackRow) -> bool {
    |row: FeedbackRow| row.session_id@ != session_id
}

pub open spec fn goal_elsewhere(session_id: Seq<char>) -> spec_fn(StoredGoal) -> bool {
    |row: StoredGoal| row.session_id@ != session_id
}

pub open spec fn activation_elsewhere(session_id: Seq<char>) -> spec_fn(
    StoredSkillActivation,
) -> bool {
    |row: StoredSkillActivation| row.session_id@ != session_id
}

pub open spec fn selection_elsewhere(session_id: Seq<char>) -> spec_fn(McpSelectionRow) -> bool {
    |row: McpSelectionRow| row.session_id@ != session_id
}

pub open spec fn usage_elsewhere(session_id: Seq<char>) -> spec_fn(SessionUsageRow) -> bool {
    |row: SessionUsageRow| row.session_id@ != session_id
}

/// The session of a conversation.
pub open spec fn session_of_owner(owner: ConversationOwner) -> String {
    match owner {
        ConversationOwner::MainSession { session_id } => session_id,
        ConversationOwner::ChildTask { session_id, child_task_id } => session_id,
    }
}

pub open spec fn request_elsewhere(session_id: Seq<char>) -> spec_fn(ModelRequestRecord) -> bool {
    |row: ModelRequestRecord| session_of_owner(row.owner)@ != session_id
}

pub open spec fn head_elsewhere(session_id: Seq<char>) -> spec_fn(RecallHeadRow) -> bool {
    |row: RecallHeadRow| session_of_owner(row.owner)@ != session_id
}

/// The condition of belonging to another session, or to an operation.
pub open spec fn receipt_stays(session_id: Seq<char>, operation_id: Seq<char>) -> spec_fn(
    HistoryOperationRow,
) -> bool {
    |row: HistoryOperationRow|
        row.session_id@ != session_id || row.operation_id@ == operation_id
}

/// The condition of being an input of a session.
pub open spec fn is_input_of(session_id: Seq<char>) -> spec_fn(StoredInput) -> bool {
    |row: StoredInput| row.session_id@ == session_id
}

/// The inputs of a session.
pub open spec fn inputs_of(inputs: Seq<StoredInput>, session_id: Seq<char>) -> Seq<String> {
    kept(inputs, is_input_of(session_id)).map_values(input_key())
}

/// The tables without the history of a session, given those without its inputs.
pub open spec fn history_dropped(
    cut: StorageEngine,
    after: StorageEngine,
    session_id: Seq<char>,
) -> bool {
    &&& after.feedback@ == kept(cut.feedback@, feedback_elsewhere(session_id))
    &&& after.work_plans@ == kept(cut.work_plans@, is_plan_of_other(session_id))
    &&& after.work_plan_receipts@ == kept(cut.work_plan_receipts@, is_plan_of_other(session_id))
    &&& after.goals@ == kept(cut.goals@, goal_elsewhere(session_id))
    &&& after.skill_activations@ == kept(cut.skill_activations@, activation_elsewhere(session_id))
    &&& after.mcp_selections@ == kept(cut.mcp_selections@, selection_elsewhere(session_id))
    &&& after.request_records@ == kept(cut.request_records@, request_elsewhere(session_id))
    &&& after.recall_heads@ == kept(cut.recall_heads@, head_elsewhere(session_id))
}

/// The engine with the conversation of a session emptied. Given the engine without its inputs.
pub open spec fn emptied(
    cut: StorageEngine,
    after: StorageEngine,
    clear: SessionHistoryClear,
) -> bool {
    let place = place_of_session(cut, clear.session_id@);
    &&& after == (StorageEngine {
        sessions: after.sessions,
        feedback: after.feedback,
        work_plans: after.work_plans,
        work_plan_receipts: after.work_plan_receipts,
        goals: after.goals,
        skill_activations: after.skill_activations,
        mcp_selections: after.mcp_selections,
        request_records: after.request_records,
        recall_heads: after.recall_heads,
        session_usage: after.session_usage,
        history_operations: after.history_operations,
        unavailable_sessions: after.unavailable_sessions,
        ..cut
    })
    &&& after.sessions@ == cut.sessions@.update(place, after.sessions@[place])
    &&& is_emptied(cut.sessions@[place], after.sessions@[place], clear)
    &&& history_dropped(cut, after, clear.session_id@)
    &&& after.session_usage@ == kept(cut.session_usage@, usage_elsewhere(clear.session_id@)).push(
        SessionUsageRow {
            session_id: clear.session_id,
            usage: no_usage(),
            backfilled: true,
            updated_at_ms: clear.changed_at_ms,
        },
    )
    &&& after.history_operations@ == state_moved(
        kept(cut.history_operations@, receipt_stays(clear.session_id@, clear.operation_id@)),
        clear.operation_id@,
        HistoryState::Preparing,
        HistoryState::CleanupPending,
        None,
    )
    &&& after.unavailable_sessions@ == kept(
        cut.unavailable_sessions@,
        is_other_text(clear.session_id@),
    )
}

/// The condition of being another text.
pub open spec fn is_other_text(text: Seq<char>) -> spec_fn(String) -> bool {
    |other: String| other@ != text
}

/// Receipts with one moved on, if it is in the state to move on from.
pub open spec fn state_moved(
    rows: Seq<HistoryOperationRow>,
    operation_id: Seq<char>,
    from: HistoryState,
    to: HistoryState,
    finished_at_ms: Option<i64>,
) -> Seq<HistoryOperationRow> {
    match first(rows, is_operation(operation_id)) {
        Some(i) => if rows[i].state == from {
            rows.update(i, HistoryOperationRow { state: to, finished_at_ms, ..rows[i] })
        } else {
            rows
        },
        None => rows,
    }
}

/// Moves a receipt on, if it is in the state to move on from.
pub fn move_state(
    rows: &mut Vec<HistoryOperationRow>,
    operation_id: &String,
    from: HistoryState,
    to: HistoryState,
    finished_at_ms: Option<i64>,
)
    ensures
        final(rows)@ == state_moved(old(rows)@, operation_id@, from, to, finished_at_ms),
{
    let ghost before = rows@;
    match position(
        rows,
        Ghost(is_operation(operation_id@)),
        |row: &HistoryOperationRow| -> (found: bool)
            ensures
                found == (row.operation_id@ == operation_id@)
            { row.operation_id == *operation_id },
    ) {
        Some(place) => {
            if rows[place].state == from {
                rows[place].state = to;
                rows[place].finished_at_ms = finished_at_ms;
                proof {
                    assert(rows@ =~= state_moved(
                        before,
                        operation_id@,
                        from,
                        to,
                        finished_at_ms,
                    ));
                }
            }
        },
        None => {},
    }
}

/// The files of a clear were cleaned up, or not.
pub open spec fn cleanup_finished(
    before: StorageEngine,
    after: StorageEngine,
    operation_id: Seq<char>,
    cleaned: bool,
    finished_at_ms: i64,
    status: CleanupStatus,
) -> bool {
    if cleaned {
        &&& status is Completed
        &&& after == (StorageEngine { history_operations: after.history_operations, ..before })
        &&& after.history_operations@ == state_moved(
            before.history_operations@,
            operation_id,
            HistoryState::CleanupPending,
            HistoryState::Completed,
            Some(finished_at_ms),
        )
    } else {
        status is Pending && after == before
    }
}

/// A compaction without a result ended, or was refused to.
pub open spec fn compaction_finished(
    before: StorageEngine,
    after: StorageEngine,
    finish: CompactionFinish,
    outcome: Result<(), Refusal>,
) -> bool {
    match finish_outcome(before, finish) {
        Err(error) => after == before && outcome == Err::<(), _>(error),
        Ok(false) => outcome is Ok && after == before,
        Ok(true) => {
            &&& outcome is Ok
            &&& after == (StorageEngine {
                history_operations: after.history_operations,
                ..before
            })
            &&& after.history_operations@ == state_moved(
                before.history_operations@,
                finish.operation_id@,
                HistoryState::Preparing,
                finish_state(finish.kind),
                Some(finish.finished_at_ms),
            )
        },
    }
}

impl StorageEngine {
    fn operation_place(&self, operation_id: &String) -> (place: Option<usize>)
        ensures
            match place {
                Some(i) => i < self.history_operations@.len() && first(
                    self.history_operations@,
                    is_operation(operation_id@),
                ) == Some(i as int),
                None => first(self.history_operations@, is_operation(operation_id@)) is None
                    && !some_row(self.history_operations@, is_operation(operation_id@)),
            },
    {
        position(
            &self.history_operations,
            Ghost(is_operation(operation_id@)),
            |row: &HistoryOperationRow| -> (found: bool)
                ensures
                    found == (row.operation_id@ == operation_id@)
                { row.operation_id == *operation_id },
        )
    }

    /// The receipt of an operation, where there is one.
    pub fn history_operation(&self, operation_id: &String) -> (result: StorageResult<
        Option<HistoryOperation>,
    >)
        ensures
            match first(self.history_operations@, is_operation(operation_id@)) {
                None => result is Ok && result->Ok_0 is None,
                Some(i) => match receipt_refusal(self.history_operations@[i]) {
                    Some(error) => result is Err && result->Err_0@ == error,
                    None => result is Ok && result->Ok_0 == Some(
                        receipt_of(self.history_operations@[i]),
                    ),
                },
            },
    {
        match self.operation_place(operation_id) {
            None => Ok(None),
            Some(place) => match decode_history_operation(&self.history_operations[place]) {
                Ok(operation) => Ok(Some(operation)),
                Err(error) => Err(error),
            },
        }
    }

    fn check_snapshot(&self, clear: &SessionHistoryClear) -> (result: StorageResult<usize>)
        ensures
            match snapshot_refusal(*self, *clear) {
                Some(error) => result is Err && result->Err_0@ == error,
                None => result is Ok && result->Ok_0 == place_of_session(*self, clear.session_id@)
                    && result->Ok_0 < self.sessions@.len(),
            },
    {
        let place: usize = match self.session_place(&clear.session_id) {
            Some(place) => place,
            None => {
                return Err(conflict("clear session does not exist"));
            },
        };
        if !matches!(self.sessions[place].lifecycle, SessionLifecycle::Active)
            || self.sessions[place].role != clear.expected_role
            || self.sessions[place].body_generation != clear.expected_generation {
            return Err(conflict("clear session snapshot changed"));
        }
        match self.ensure_session_history_idle(&clear.session_id) {
            Ok(_) => Ok(place),
            Err(error) => Err(error),
        }
    }

    /// Announces that a conversation is to be emptied.
    pub fn prepare_clear(&mut self, clear: &SessionHistoryClear) -> (result: StorageResult<()>)
        ensures
            match clear_refusal(*old(self), *clear) {
                Some(error) => {
                    &&& result is Err && result->Err_0@ == error
                    &&& *final(self) == *old(self)
                },
                None => {
                    &&& result is Ok
                    &&& *final(self) == (StorageEngine {
                        history_operations: final(self).history_operations,
                        ..*old(self)
                    })
                    &&& final(self).history_operations@ == old(self).history_operations@.push(
                        clear_receipt(*clear, HistoryState::Preparing),
                    )
                },
            },
    {
        if !clear.skill_catalog_is_valid {
            return Err(invalid_input("clear skill catalog is invalid"));
        }
        let environment = match self.load_session_environment(&clear.session_id) {
            Ok(environment) => environment,
            Err(error) => {
                return Err(error);
            },
        };
        proof {
            assert(works_in(*self, clear.session_id@, environment));
            environments_agree(*self, *clear, environment);
        }
        if !is_same_environment(&environment, &clear.environment) {
            return Err(conflict("clear session environment changed"));
        }
        if clear.expected_generation == u64::MAX {
            return Err(conflict("clear session generation exhausted"));
        }
        let source_generation: i64 = match to_i64(
            clear.expected_generation,
            "clear source generation exceeds storage range",
        ) {
            Ok(value) => value,
            Err(error) => {
                return Err(error);
            },
        };
        let result_generation: i64 = match to_i64(
            clear.expected_generation + 1,
            "clear result generation exceeds storage range",
        ) {
            Ok(value) => value,
            Err(error) => {
                return Err(error);
            },
        };
        match self.check_snapshot(clear) {
            Ok(_) => {},
            Err(error) => {
                return Err(error);
            },
        }
        if self.operation_place(&clear.operation_id).is_some() {
            proof {
                first_is_found(self.history_operations@, is_operation(clear.operation_id@));
            }
            return Err(conflict("clear preparation receipt could not be created"));
        }
        self.history_operations.push(
            HistoryOperationRow {
                operation_id: clear.operation_id.clone(),
                session_id: clear.session_id.clone(),
                kind: HistoryKind::Clear,
                state: HistoryState::Preparing,
                source_generation,
                result_generation: Some(result_generation),
                compacted_message_count: None,
                retained_message_count: None,
                created_at_ms: clear.changed_at_ms,
                finished_at_ms: None,
            },
        );
        Ok(())
    }

    /// Gives up a change that was announced.
    pub fn mark_clear_interrupted(&mut self, operation_id: &String, finished_at_ms: i64)
        ensures
            *final(self) == (StorageEngine {
                history_operations: final(self).history_operations,
                ..*old(self)
            }),
            final(self).history_operations@ == state_moved(
                old(self).history_operations@,
                operation_id@,
                HistoryState::Preparing,
                HistoryState::Interrupted,
                Some(finished_at_ms),
            ),
    {
        move_state(
            &mut self.history_operations,
            operation_id,
            HistoryState::Preparing,
            HistoryState::Interrupted,
            Some(finished_at_ms),
        );
    }

    /// Lets the emptied conversation count, and drops all that followed from the old one.
    pub fn switch_clear(&mut self, clear: &SessionHistoryClear) -> (result: StorageResult<()>)
        ensures
            match switch_refusal(*old(self), *clear) {
                Some(error) => {
                    &&& result is Err && result->Err_0@ == error
                    &&& *final(self) == *old(self)
                },
                None => {
                    &&& result is Ok
                    &&& conversation_emptied(*old(self), *final(self), *clear)
                },
            },
    {
        if clear.expected_generation == u64::MAX {
            return Err(conflict("clear session generation exhausted"));
        }
        let place: usize = match self.check_snapshot(clear) {
            Ok(place) => place,
            Err(error) => {
                return Err(error);
            },
        };
        let session_id = &clear.session_id;
        let gone = listed(
            &self.inputs,
            Ghost(is_input_of(session_id@)),
            |row: &StoredInput| -> (goes: bool)
                ensures
                    goes == (row.session_id@ == session_id@)
                { row.session_id == *session_id },
            Ghost(input_key()),
            |row: &StoredInput| -> (id: String)
                ensures
                    id == row.input_id
                { row.input_id.clone() },
        );
        let _ = self.remove_inputs(&gone);
        let ghost cut = *self;
        self.empty_session(clear, place);
        self.drop_history(session_id);
        keep(
            &mut self.session_usage,
            Ghost(usage_elsewhere(session_id@)),
            |row: &SessionUsageRow| -> (other: bool)
                ensures
                    other == (row.session_id@ != session_id@)
                { !(row.session_id == *session_id) },
        );
        self.session_usage.push(
            SessionUsageRow {
                session_id: session_id.clone(),
                usage: empty_usage(),
                backfilled: true,
                updated_at_ms: clear.changed_at_ms,
            },
        );
        let operation_id = &clear.operation_id;
        keep(
            &mut self.history_operations,
            Ghost(receipt_stays(session_id@, operation_id@)),
            |row: &HistoryOperationRow| -> (stays: bool)
                ensures
                    stays == (row.session_id@ != session_id@ || row.operation_id@
                        == operation_id@)
                { row.session_id != *session_id || row.operation_id == *operation_id },
        );
        move_state(
            &mut self.history_operations,
            operation_id,
            HistoryState::Preparing,
            HistoryState::CleanupPending,
            None,
        );
        keep(
            &mut self.unavailable_sessions,
            Ghost(is_other_text(session_id@)),
            |other: &String| -> (stays: bool)
                ensures
                    stays == (other@ != session_id@)
                { !(*other == *session_id) },
        );
        proof {
            let all = inputs_of(old(self).inputs@, session_id@);
            assert(gone@ == all);
            assert(inputs_removed(*old(self), cut, all));
            assert(emptied(cut, *self, *clear));
            assert(conversation_emptied(*old(self), *self, *clear));
        }
        Ok(())
    }

    fn empty_session(&mut self, clear: &SessionHistoryClear, place: usize)
        requires
            place < old(self).sessions@.len(),
            clear.expected_generation < u64::MAX,
        ensures
            *final(self) == (StorageEngine { sessions: final(self).sessions, ..*old(self) }),
            final(self).sessions@ == old(self).sessions@.update(
                place as int,
                final(self).sessions@[place as int],
            ),
            is_emptied(
                old(self).sessions@[place as int],
                final(self).sessions@[place as int],
                *clear,
            ),
    {
        let ghost rows = self.sessions@;
        if matches!(self.sessions[place].title_origin, SessionTitleOrigin::Generated) {
            self.sessions[place].title = "New Session".to_owned();
        }
        self.sessions[place].system_prompt = clear.system_prompt.clone();
        self.sessions[place].skill_catalog = clear.skill_catalog.copy();
        self.sessions[place].body_generation = clear.expected_generation + 1;
        self.sessions[place].message_count = 0;
        self.sessions[place].updated_at_ms = clear.changed_at_ms;
        self.sessions[place].automatic_title_pending = false;
        if matches!(self.sessions[place].role, SessionRole::Standard) {
            self.sessions[place].proxy = None;
        }
        proof {
            assert(self.sessions@ =~= rows.update(place as int, self.sessions@[place as int]));
        }
    }

    pub(crate) fn drop_history(&mut self, session_id: &String)
        ensures
            *final(self) == (StorageEngine {
                feedback: final(self).feedback,
                work_plans: final(self).work_plans,
                work_plan_receipts: final(self).work_plan_receipts,
                goals: final(self).goals,
                skill_activations: final(self).skill_activations,
                mcp_selections: final(self).mcp_selections,
                request_records: final(self).request_records,
                recall_heads: final(self).recall_heads,
                ..*old(self)
            }),
            history_dropped(*old(self), *final(self), session_id@),
    {
        keep(
            &mut self.feedback,
            Ghost(feedback_elsewhere(session_id@)),
            |row: &FeedbackRow| -> (other: bool)
                ensures
                    other == (row.session_id@ != session_id@)
                { !(row.session_id == *session_id) },
        );
        keep(
            &mut self.work_plans,
            Ghost(is_plan_of_other(session_id@)),
            |row: &Arc<StoredWorkPlan>| -> (other: bool)
                ensures
                    other == (row.session_id@ != session_id@)
                { !(row.session_id == *session_id) },
        );
        keep(
            &mut self.work_plan_receipts,
            Ghost(is_plan_of_other(session_id@)),
            |row: &Arc<StoredWorkPlan>| -> (other: bool)
                ensures
                    other == (row.session_id@ != session_id@)
                { !(row.session_id == *session_id) },
        );
        keep(
            &mut self.goals,
            Ghost(goal_elsewhere(session_id@)),
            |row: &StoredGoal| -> (other: bool)
                ensures
                    other == (row.session_id@ != session_id@)
                { !(row.session_id == *session_id) },
        );
        keep(
            &mut self.skill_activations,
            Ghost(activation_elsewhere(session_id@)),
            |row: &StoredSkillActivation| -> (other: bool)
                ensures
                    other == (row.session_id@ != session_id@)
                { !(row.session_id == *session_id) },
        );
        keep(
            &mut self.mcp_selections,
            Ghost(selection_elsewhere(session_id@)),
            |row: &McpSelectionRow| -> (other: bool)
                ensures
                    other == (row.session_id@ != session_id@)
                { !(row.session_id == *session_id) },
        );
        keep(
            &mut self.request_records,
            Ghost(request_elsewhere(session_id@)),
            |row: &ModelRequestRecord| -> (other: bool)
                ensures
                    other == request_elsewhere(session_id@)(*row)
                { !(*owner_session(&row.owner) == *session_id) },
        );
        keep(
            &mut self.recall_heads,
            Ghost(head_elsewhere(session_id@)),
            |row: &RecallHeadRow| -> (other: bool)
                ensures
                    other == head_elsewhere(session_id@)(*row)
                { !(*owner_session(&row.owner) == *session_id) },
        );
    }
}

/// The engine with the conversation of a session emptied: its inputs went, and all that followed
/// from them.
pub open spec fn conversation_emptied(
    before: StorageEngine,
    after: StorageEngine,
    clear: SessionHistoryClear,
) -> bool {
    exists|cut: StorageEngine| #[trigger]
        inputs_removed(before, cut, inputs_of(before.inputs@, clear.session_id@)) && emptied(
            cut,
            after,
            clear,
        )
}

fn owner_session(owner: &ConversationOwner) -> (session_id: &String)
    ensures
        *session_id == session_of_owner(*owner),
{
    match owner {
        ConversationOwner::MainSession { session_id } => session_id,
        ConversationOwner::ChildTask { session_id, child_task_id } => session_id,
    }
}

proof fn environments_agree(
    engine: StorageEngine,
    clear: SessionHistoryClear,
    environment: SessionExecutionEnvironment,
)
    requires
        works_in(engine, clear.session_id@, environment),
    ensures
        matches_environment(engine, clear) == same_environment(environment, clear.environment),
{
    if matches_environment(engine, clear) {
        let other = choose|other: SessionExecutionEnvironment| #[trigger]
            works_in(engine, clear.session_id@, other) && same_environment(
                other,
                clear.environment,
            );
        assert(same_environment(environment, other));
    }
}

/// Why an emptied conversation cannot be shown.
pub open spec fn result_refusal(
    engine: StorageEngine,
    session_id: Seq<char>,
    result_generation: u64,
) -> Option<Refusal> {
    match first(engine.sessions@, is_session(session_id)) {
        None => Some(conflicting("clear session does not exist"@)),
        Some(i) => if engine.sessions@[i].body_generation != result_generation {
            Some(conflicting("clear result generation changed"@))
        } else {
            None
        },
    }
}

/// An emptied conversation, as it is answered.
pub open spec fn clear_answer(
    engine: StorageEngine,
    session_id: Seq<char>,
    source_generation: u64,
    result_generation: u64,
    cleanup_status: CleanupStatus,
) -> SessionHistoryClearResult {
    SessionHistoryClearResult {
        session: engine.sessions@[place_of_session(engine, session_id)],
        source_generation,
        result_generation,
        cleanup_status,
    }
}

/// The engine after an attempt to empty a conversation.
pub open spec fn clear_begun(
    before: StorageEngine,
    after: StorageEngine,
    clear: SessionHistoryClear,
    outcome: Result<ClearProgress, Refusal>,
) -> bool {
    match clear_refusal(before, clear) {
        Some(error) => after == before && outcome == Err::<ClearProgress, _>(error),
        None => if bodies(before.files@).contains_key(clear_path(before, clear)) {
            &&& outcome == Err::<ClearProgress, _>(
                failed("conversation file could not be created"@),
            )
            &&& after == (StorageEngine {
                history_operations: after.history_operations,
                ..before
            })
            &&& after.history_operations@ == state_moved(
                before.history_operations@.push(clear_receipt(clear, HistoryState::Preparing)),
                clear.operation_id@,
                HistoryState::Preparing,
                HistoryState::Interrupted,
                Some(clear.changed_at_ms),
            )
        } else {
            &&& outcome == Ok::<_, Refusal>(
                ClearProgress::AwaitsCleanup {
                    source_generation: clear.expected_generation,
                    result_generation: (clear.expected_generation + 1) as u64,
                },
            )
            &&& exists|opened: StorageEngine| #[trigger]
                clear_opened(before, opened, clear) && conversation_emptied(opened, after, clear)
        },
    }
}

/// The engine with the emptying of a conversation announced, and an empty body ready for it.
pub open spec fn clear_opened(
    before: StorageEngine,
    opened: StorageEngine,
    clear: SessionHistoryClear,
) -> bool {
    &&& opened == (StorageEngine {
        history_operations: opened.history_operations,
        files: opened.files,
        ..before
    })
    &&& opened.history_operations@ == before.history_operations@.push(
        clear_receipt(clear, HistoryState::Preparing),
    )
    &&& bodies(opened.files@) == bodies(before.files@).insert(
        clear_path(before, clear),
        Seq::empty(),
    )
}

/// The engine with the emptying of a conversation given up: the body that was ready for it is gone,
/// its receipt says that it was given up, and nothing else changed.
pub open spec fn clear_abandoned(
    before: StorageEngine,
    after: StorageEngine,
    clear: SessionHistoryClear,
) -> bool {
    &&& after == (StorageEngine {
        history_operations: after.history_operations,
        files: after.files,
        ..before
    })
    &&& after.history_operations@ == state_moved(
        before.history_operations@,
        clear.operation_id@,
        HistoryState::Preparing,
        HistoryState::Interrupted,
        Some(clear.changed_at_ms),
    )
    &&& bodies(after.files@) == if clear.expected_generation < u64::MAX && path_component(
        clear.session_id@,
    ) {
        bodies(before.files@).remove(clear_path(before, clear))
    } else {
        bodies(before.files@)
    }
}

/// The engine after an attempt to announce that a conversation is emptied.
pub open spec fn clear_announced(
    before: StorageEngine,
    after: StorageEngine,
    clear: SessionHistoryClear,
    outcome: Result<(), Refusal>,
) -> bool {
    match clear_refusal(before, clear) {
        Some(error) => after == before && outcome == Err::<(), _>(error),
        None => if bodies(before.files@).contains_key(clear_path(before, clear)) {
            &&& outcome == Err::<(), _>(failed("conversation file could not be created"@))
            &&& after == (StorageEngine {
                history_operations: after.history_operations,
                ..before
            })
            &&& after.history_operations@ == state_moved(
                before.history_operations@.push(clear_receipt(clear, HistoryState::Preparing)),
                clear.operation_id@,
                HistoryState::Preparing,
                HistoryState::Interrupted,
                Some(clear.changed_at_ms),
            )
        } else {
            outcome == Ok::<_, Refusal>(()) && clear_opened(before, after, clear)
        },
    }
}

/// The engine after the emptying of a conversation was announced and `stored` came of storing
/// that: the emptied conversation counts, or it is given up.
pub open spec fn clear_settled(
    before: StorageEngine,
    after: StorageEngine,
    clear: SessionHistoryClear,
    stored: Result<(), Refusal>,
    outcome: Result<ClearProgress, Refusal>,
) -> bool {
    match stored {
        Err(error) => outcome == Err::<ClearProgress, _>(error) && clear_abandoned(
            before,
            after,
            clear,
        ),
        Ok(_) => match switch_refusal(before, clear) {
            Some(error) => outcome == Err::<ClearProgress, _>(error) && clear_abandoned(
                before,
                after,
                clear,
            ),
            None => {
                &&& outcome == Ok::<_, Refusal>(
                    ClearProgress::AwaitsCleanup {
                        source_generation: clear.expected_generation,
                        result_generation: (clear.expected_generation + 1) as u64,
                    },
                )
                &&& conversation_emptied(before, after, clear)
            },
        },
    }
}

/// A request that repeats another under its operation.
pub open spec fn same_clear(operation: HistoryOperation, clear: SessionHistoryClear) -> bool {
    &&& operation.kind is Clear
    &&& operation.session_id@ == clear.session_id@
    &&& operation.source_generation == clear.expected_generation
}

/// The engine after a request to empty a conversation. A request that was carried out before is
/// answered; one that was given up starts over.
pub open spec fn clear_attempted(
    before: StorageEngine,
    after: StorageEngine,
    clear: SessionHistoryClear,
    outcome: Result<ClearProgress, Refusal>,
) -> bool {
    match first(before.history_operations@, is_operation(clear.operation_id@)) {
        None => clear_begun(before, after, clear, outcome),
        Some(i) => {
            let row = before.history_operations@[i];
            let operation = receipt_of(row);
            if receipt_refusal(row) is Some {
                after == before && outcome == Err::<ClearProgress, _>(receipt_refusal(row)->0)
            } else if !same_clear(operation, clear) {
                after == before && outcome == Err::<ClearProgress, _>(
                    conflicting("session history operation identity was reused"@),
                )
            } else {
                match operation.state {
                    HistoryState::Completed => after == before && outcome
                        == clear_replayed(before, clear, operation),
                    HistoryState::CleanupPending => after == before && outcome
                        == match operation.result_generation {
                        None => Err(corrupt("pending clear generation is missing"@)),
                        Some(result_generation) => Ok(
                            ClearProgress::AwaitsCleanup {
                                source_generation: operation.source_generation,
                                result_generation,
                            },
                        ),
                    },
                    HistoryState::Interrupted => exists|reset: StorageEngine| #[trigger]
                        receipt_dropped(before, reset, clear.operation_id@) && clear_begun(
                            reset,
                            after,
                            clear,
                            outcome,
                        ),
                    HistoryState::Preparing => after == before && outcome
                        == Err::<ClearProgress, _>(
                        conflicting("session history clear is already preparing"@),
                    ),
                    _ => after == before && outcome == Err::<ClearProgress, _>(
                        conflicting("session history operation has a different outcome"@),
                    ),
                }
            }
        },
    }
}

/// The engine without the receipt of an operation.
pub open spec fn receipt_dropped(
    before: StorageEngine,
    after: StorageEngine,
    operation_id: Seq<char>,
) -> bool {
    &&& after == (StorageEngine { history_operations: after.history_operations, ..before })
    &&& after.history_operations@ == kept(
        before.history_operations@,
        is_other_operation(operation_id),
    )
}

/// What is answered to a request that was carried out before.
pub open spec fn clear_replayed(
    engine: StorageEngine,
    clear: SessionHistoryClear,
    operation: HistoryOperation,
) -> Result<ClearProgress, Refusal> {
    match operation.result_generation {
        None => Err(corrupt("completed clear generation is missing"@)),
        Some(result_generation) => match result_refusal(
            engine,
            clear.session_id@,
            result_generation,
        ) {
            Some(error) => Err(error),
            None => Ok(
                ClearProgress::Finished(
                    clear_answer(
                        engine,
                        clear.session_id@,
                        operation.source_generation,
                        result_generation,
                        CleanupStatus::Completed,
                    ),
                ),
            ),
        },
    }
}

impl StorageEngine {
    /// Empties a conversation, files of the old one excepted. An operation takes effect once.
    pub fn clear_session_history(&mut self, clear: &SessionHistoryClear) -> (result: StorageResult<
        ClearProgress,
    >)
        ensures
            clear_attempted(*old(self), *final(self), *clear, outcome_of(result)),
    {
        let operation = match self.history_operation(&clear.operation_id) {
            Ok(Some(operation)) => operation,
            Ok(None) => {
                return self.begin_clear_session_history(clear);
            },
            Err(error) => {
                return Err(error);
            },
        };
        if !matches!(operation.kind, HistoryKind::Clear) || operation.session_id
            != clear.session_id || operation.source_generation != clear.expected_generation {
            return Err(conflict("session history operation identity was reused"));
        }
        match operation.state {
            HistoryState::Completed => match operation.result_generation {
                None => Err(invalid_data("completed clear generation is missing")),
                Some(result_generation) => match self.clear_result(
                    &clear.session_id,
                    operation.source_generation,
                    result_generation,
                    CleanupStatus::Completed,
                ) {
                    Ok(answer) => Ok(ClearProgress::Finished(answer)),
                    Err(error) => Err(error),
                },
            },
            HistoryState::CleanupPending => match operation.result_generation {
                None => Err(invalid_data("pending clear generation is missing")),
                Some(result_generation) => Ok(
                    ClearProgress::AwaitsCleanup {
                        source_generation: operation.source_generation,
                        result_generation,
                    },
                ),
            },
            HistoryState::Interrupted => {
                self.drop_receipt(&clear.operation_id);
                let ghost reset = *self;
                let result = self.begin_clear_session_history(clear);
                proof {
                    assert(receipt_dropped(*old(self), reset, clear.operation_id@));
                }
                result
            },
            HistoryState::Preparing => Err(conflict("session history clear is already preparing")),
            _ => Err(conflict("session history operation has a different outcome")),
        }
    }

    fn drop_receipt(&mut self, operation_id: &String)
        ensures
            receipt_dropped(*old(self), *final(self), operation_id@),
    {
        keep(
            &mut self.history_operations,
            Ghost(is_other_operation(operation_id@)),
            |row: &HistoryOperationRow| -> (other: bool)
                ensures
                    other == (row.operation_id@ != operation_id@)
                { !(row.operation_id == *operation_id) },
        );
    }

    /// Empties a conversation that no operation has emptied yet.
    pub fn begin_clear_session_history(&mut self, clear: &SessionHistoryClear) -> (result:
        StorageResult<ClearProgress>)
        ensures
            clear_begun(*old(self), *final(self), *clear, outcome_of(result)),
    {
        match self.announce_clear(clear) {
            Ok(_) => {},
            Err(error) => {
                return Err(error);
            },
        }
        let ghost opened = *self;
        let stored: StorageResult<()> = Ok(());
        let result = self.settle_clear(clear, stored);
        proof {
            assert(clear_opened(*old(self), opened, *clear));
            assert(snapshot_refusal(opened, *clear) == snapshot_refusal(*old(self), *clear));
        }
        result
    }

    /// Announces that a conversation is emptied, and opens an empty body for it. What the
    /// conversation is does not change yet.
    pub fn announce_clear(&mut self, clear: &SessionHistoryClear) -> (result: StorageResult<()>)
        ensures
            clear_announced(*old(self), *final(self), *clear, outcome_of(result)),
    {
        match self.prepare_clear(clear) {
            Ok(_) => {},
            Err(error) => {
                return Err(error);
            },
        }
        let result_generation: u64 = clear.expected_generation + 1;
        match self.open_clear_body(clear, result_generation) {
            Ok(_) => Ok(()),
            Err(error) => {
                self.mark_clear_interrupted(&clear.operation_id, clear.changed_at_ms);
                Err(error)
            },
        }
    }

    /// Lets an emptied conversation that was announced count, where that was stored. Where it was
    /// not, or the session has changed since, the emptying is given up: the body that was opened
    /// for it goes, and all else stays.
    pub fn settle_clear(&mut self, clear: &SessionHistoryClear, stored: StorageResult<()>) -> (result:
        StorageResult<ClearProgress>)
        ensures
            clear_settled(
                *old(self),
                *final(self),
                *clear,
                outcome_of(stored),
                outcome_of(result),
            ),
    {
        let error = match stored {
            Err(error) => error,
            Ok(_) => match self.switch_clear(clear) {
                Ok(_) => {
                    return Ok(
                        ClearProgress::AwaitsCleanup {
                            source_generation: clear.expected_generation,
                            result_generation: clear.expected_generation + 1,
                        },
                    );
                },
                Err(error) => error,
            },
        };
        self.abandon_clear(clear);
        Err(error)
    }

    /// Gives up the emptying of a conversation.
    fn abandon_clear(&mut self, clear: &SessionHistoryClear)
        ensures
            clear_abandoned(*old(self), *final(self), *clear),
    {
        if clear.expected_generation < u64::MAX {
            let target = ConversationStorageTarget::Session {
                session_id: clear.session_id.clone(),
                run_id: clear.session_id.clone(),
            };
            match self.target_body_path(&target, clear.expected_generation + 1) {
                Ok(path) => {
                    remove_body(&mut self.files, &path);
                },
                Err(_) => {},
            }
        }
        self.mark_clear_interrupted(&clear.operation_id, clear.changed_at_ms);
    }

    fn open_clear_body(&mut self, clear: &SessionHistoryClear, generation: u64) -> (result:
        StorageResult<()>)
        requires
            path_component(clear.session_id@),
        ensures
            ({
                let path = session_body_path(
                    old(self).sessions_directory@,
                    clear.session_id@,
                    generation,
                );
                if bodies(old(self).files@).contains_key(path) {
                    &&& result is Err && result->Err_0@ == failed(
                        "conversation file could not be created"@,
                    )
                    &&& *final(self) == *old(self)
                } else {
                    &&& result is Ok
                    &&& *final(self) == (StorageEngine { files: final(self).files, ..*old(self) })
                    &&& bodies(final(self).files@) == bodies(old(self).files@).insert(
                        path,
                        Seq::empty(),
                    )
                }
            }),
    {
        let target = ConversationStorageTarget::Session {
            session_id: clear.session_id.clone(),
            run_id: clear.session_id.clone(),
        };
        let path = match self.target_body_path(&target, generation) {
            Ok(path) => path,
            Err(error) => {
                return Err(error);
            },
        };
        if body_place(&self.files, &path).is_some() {
            return Err(internal_error("conversation file could not be created"));
        }
        let bytes: Vec<u8> = Vec::new();
        proof {
            assert(bytes@ =~= Seq::empty());
        }
        write_body(&mut self.files, &path, bytes);
        Ok(())
    }

    /// The emptied conversation of a session, as it is answered.
    pub fn clear_result(
        &self,
        session_id: &String,
        source_generation: u64,
        result_generation: u64,
        cleanup_status: CleanupStatus,
    ) -> (result: StorageResult<SessionHistoryClearResult>)
        ensures
            match result_refusal(*self, session_id@, result_generation) {
                Some(error) => result is Err && result->Err_0@ == error,
                None => result is Ok && result->Ok_0 == clear_answer(
                    *self,
                    session_id@,
                    source_generation,
                    result_generation,
                    cleanup_status,
                ),
            },
    {
        let place: usize = match self.session_place(session_id) {
            Some(place) => place,
            None => {
                return Err(conflict("clear session does not exist"));
            },
        };
        if self.sessions[place].body_generation != result_generation {
            return Err(conflict("clear result generation changed"));
        }
        Ok(
            SessionHistoryClearResult {
                session: self.sessions[place].copy(),
                source_generation,
                result_generation,
                cleanup_status,
            },
        )
    }

    /// Closes the receipt of an emptied conversation whose old files are gone; one whose files are
    /// not gone stays open.
    pub fn finish_clear_cleanup(
        &mut self,
        operation_id: &String,
        cleaned: bool,
        finished_at_ms: i64,
    ) -> (status: CleanupStatus)
        ensures
            cleanup_finished(
                *old(self),
                *final(self),
                operation_id@,
                cleaned,
                finished_at_ms,
                status,
            ),
            !cleaned ==> status is Pending && *final(self) == *old(self),
            cleaned ==> {
                &&& status is Completed
                &&& *final(self) == (StorageEngine {
                    history_operations: final(self).history_operations,
                    ..*old(self)
                })
                &&& final(self).history_operations@ == state_moved(
                    old(self).history_operations@,
                    operation_id@,
                    HistoryState::CleanupPending,
                    HistoryState::Completed,
                    Some(finished_at_ms),
                )
            },
    {
        if !cleaned {
            return CleanupStatus::Pending;
        }
        move_state(
            &mut self.history_operations,
            operation_id,
            HistoryState::CleanupPending,
            HistoryState::Completed,
            Some(finished_at_ms),
        );
        CleanupStatus::Completed
    }
}

/// Why a compaction cannot be announced.
pub open spec fn compaction_refusal(engine: StorageEngine, preparation: CompactionPreparation) -> Option<
    Refusal,
> {
    match first(engine.sessions@, is_session(preparation.session_id@)) {
        None => Some(conflicting("compact session does not exist"@)),
        Some(i) => if !(engine.sessions@[i].lifecycle is Active) {
            Some(conflicting("compact session snapshot changed"@))
        } else if preparation.expected_generation > STORED_MAX {
            Some(malformed("compact source generation exceeds storage range"@))
        } else if engine.sessions@[i].body_generation != preparation.expected_generation {
            Some(conflicting("compact session snapshot changed"@))
        } else if busy_for_history(engine, preparation.session_id@) {
            Some(conflicting("session history operation requires an idle session"@))
        } else if some_row(engine.history_operations@, is_operation(preparation.operation_id@)) {
            Some(conflicting("compact preparation receipt could not be created"@))
        } else {
            None
        },
    }
}

/// The receipt of a compaction that was announced.
pub open spec fn compaction_receipt(preparation: CompactionPreparation) -> HistoryOperationRow {
    HistoryOperationRow {
        operation_id: preparation.operation_id,
        session_id: preparation.session_id,
        kind: HistoryKind::Compact,
        state: HistoryState::Preparing,
        source_generation: preparation.expected_generation as i64,
        result_generation: None,
        compacted_message_count: None,
        retained_message_count: None,
        created_at_ms: preparation.created_at_ms,
        finished_at_ms: None,
    }
}

/// The engine after an attempt to announce a compaction.
pub open spec fn compaction_begun(
    before: StorageEngine,
    after: StorageEngine,
    preparation: CompactionPreparation,
    outcome: Result<CompactionPreparationResult, Refusal>,
) -> bool {
    match compaction_refusal(before, preparation) {
        Some(error) => after == before && outcome == Err::<CompactionPreparationResult, _>(error),
        None => {
            &&& outcome == Ok::<_, Refusal>(CompactionPreparationResult::Prepared)
            &&& after == (StorageEngine {
                history_operations: after.history_operations,
                ..before
            })
            &&& after.history_operations@ == before.history_operations@.push(
                compaction_receipt(preparation),
            )
        },
    }
}

/// How a compaction came out that was completed.
pub open spec fn compacted(operation: HistoryOperation) -> Result<
    CompactionPreparationResult,
    Refusal,
> {
    if operation.result_generation is None {
        Err(corrupt("completed compact generation is missing"@))
    } else if operation.compacted_message_count is None {
        Err(corrupt("completed compact message count is missing"@))
    } else if operation.retained_message_count is None {
        Err(corrupt("completed compact retained count is missing"@))
    } else {
        Ok(
            CompactionPreparationResult::Completed(
                CompactOutcome::Compacted {
                    source_generation: operation.source_generation,
                    result_generation: operation.result_generation->0,
                    compacted_message_count: operation.compacted_message_count->0,
                    retained_message_count: operation.retained_message_count->0,
                },
            ),
        )
    }
}

/// The engine after a request to compact a conversation.
pub open spec fn compaction_attempted(
    before: StorageEngine,
    after: StorageEngine,
    preparation: CompactionPreparation,
    outcome: Result<CompactionPreparationResult, Refusal>,
) -> bool {
    match first(before.history_operations@, is_operation(preparation.operation_id@)) {
        None => compaction_begun(before, after, preparation, outcome),
        Some(i) => {
            let row = before.history_operations@[i];
            let operation = receipt_of(row);
            if receipt_refusal(row) is Some {
                after == before && outcome == Err::<CompactionPreparationResult, _>(
                    receipt_refusal(row)->0,
                )
            } else if !(operation.kind is Compact) || operation.session_id@
                != preparation.session_id@ || operation.source_generation
                != preparation.expected_generation {
                after == before && outcome == Err::<CompactionPreparationResult, _>(
                    conflicting("session history operation identity was reused"@),
                )
            } else {
                match operation.state {
                    HistoryState::Completed => after == before && outcome == compacted(operation),
                    HistoryState::NoOp => after == before && outcome == Ok::<_, Refusal>(
                        CompactionPreparationResult::Completed(CompactOutcome::NoOp),
                    ),
                    HistoryState::Cancelled => after == before && outcome == Ok::<_, Refusal>(
                        CompactionPreparationResult::Completed(CompactOutcome::Cancelled),
                    ),
                    HistoryState::Interrupted => exists|reset: StorageEngine| #[trigger]
                        receipt_dropped(before, reset, preparation.operation_id@)
                            && compaction_begun(reset, after, preparation, outcome),
                    HistoryState::Preparing => after == before && outcome
                        == Err::<CompactionPreparationResult, _>(
                        conflicting("session compaction is already preparing"@),
                    ),
                    HistoryState::CleanupPending => after == before && outcome
                        == Err::<CompactionPreparationResult, _>(
                        conflicting("session history operation has a different outcome"@),
                    ),
                }
            }
        },
    }
}

/// The state that a compaction ends in.
pub open spec fn finish_state(kind: CompactionFinishKind) -> HistoryState {
    match kind {
        CompactionFinishKind::NoOp => HistoryState::NoOp,
        CompactionFinishKind::Cancelled => HistoryState::Cancelled,
        CompactionFinishKind::Interrupted => HistoryState::Interrupted,
    }
}

/// What the end of a compaction comes to: a refusal, or whether there is anything left to do.
pub open spec fn finish_outcome(engine: StorageEngine, finish: CompactionFinish) -> Result<
    bool,
    Refusal,
> {
    match first(engine.history_operations@, is_operation(finish.operation_id@)) {
        None => Err(conflicting("compact receipt does not exist"@)),
        Some(i) => {
            let row = engine.history_operations@[i];
            let place = first(engine.sessions@, is_session(finish.session_id@));
            if row.session_id@ != finish.session_id@ || !(row.kind is Compact) {
                Err(conflicting("session history operation identity was reused"@))
            } else if row.source_generation <= 0 {
                Err(corrupt("compact source generation is invalid"@))
            } else if row.source_generation != finish.expected_generation {
                Err(conflicting("session history operation identity was reused"@))
            } else if row.state == finish_state(finish.kind) {
                Ok(false)
            } else if !(row.state is Preparing) {
                Err(conflicting("compact receipt already has a different outcome"@))
            } else if place is None {
                Err(failed("compact generation could not be queried"@))
            } else if engine.sessions@[place->0].body_generation == 0 {
                Err(corrupt("compact generation is invalid"@))
            } else if engine.sessions@[place->0].body_generation != finish.expected_generation {
                Err(conflicting("compact generation changed before finish"@))
            } else if busy_for_history(engine, finish.session_id@) {
                Err(conflicting("session history operation requires an idle session"@))
            } else {
                Ok(true)
            }
        },
    }
}

impl StorageEngine {
    /// Announces a compaction, or tells how it came out. An operation takes effect once.
    pub fn prepare_session_compaction(&mut self, preparation: &CompactionPreparation) -> (result:
        StorageResult<CompactionPreparationResult>)
        ensures
            compaction_attempted(*old(self), *final(self), *preparation, outcome_of(result)),
    {
        let operation = match self.history_operation(&preparation.operation_id) {
            Ok(Some(operation)) => operation,
            Ok(None) => {
                return self.begin_session_compaction(preparation);
            },
            Err(error) => {
                return Err(error);
            },
        };
        if !matches!(operation.kind, HistoryKind::Compact) || operation.session_id
            != preparation.session_id || operation.source_generation
            != preparation.expected_generation {
            return Err(conflict("session history operation identity was reused"));
        }
        match operation.state {
            HistoryState::Completed => {
                let result_generation: u64 = match operation.result_generation {
                    Some(value) => value,
                    None => {
                        return Err(invalid_data("completed compact generation is missing"));
                    },
                };
                let compacted_message_count: u64 = match operation.compacted_message_count {
                    Some(value) => value,
                    None => {
                        return Err(invalid_data("completed compact message count is missing"));
                    },
                };
                let retained_message_count: u64 = match operation.retained_message_count {
                    Some(value) => value,
                    None => {
                        return Err(invalid_data("completed compact retained count is missing"));
                    },
                };
                Ok(
                    CompactionPreparationResult::Completed(
                        CompactOutcome::Compacted {
                            source_generation: operation.source_generation,
                            result_generation,
                            compacted_message_count,
                            retained_message_count,
                        },
                    ),
                )
            },
            HistoryState::NoOp => Ok(CompactionPreparationResult::Completed(CompactOutcome::NoOp)),
            HistoryState::Cancelled => Ok(
                CompactionPreparationResult::Completed(CompactOutcome::Cancelled),
            ),
            HistoryState::Interrupted => {
                self.drop_receipt(&preparation.operation_id);
                let ghost reset = *self;
                let result = self.begin_session_compaction(preparation);
                proof {
                    assert(receipt_dropped(*old(self), reset, preparation.operation_id@));
                }
                result
            },
            HistoryState::Preparing => Err(conflict("session compaction is already preparing")),
            HistoryState::CleanupPending => Err(
                conflict("session history operation has a different outcome"),
            ),
        }
    }

    fn begin_session_compaction(&mut self, preparation: &CompactionPreparation) -> (result:
        StorageResult<CompactionPreparationResult>)
        ensures
            compaction_begun(*old(self), *final(self), *preparation, outcome_of(result)),
    {
        let place: usize = match self.session_place(&preparation.session_id) {
            Some(place) => place,
            None => {
                return Err(conflict("compact session does not exist"));
            },
        };
        if !matches!(self.sessions[place].lifecycle, SessionLifecycle::Active) {
            return Err(conflict("compact session snapshot changed"));
        }
        let source_generation: i64 = match to_i64(
            preparation.expected_generation,
            "compact source generation exceeds storage range",
        ) {
            Ok(value) => value,
            Err(error) => {
                return Err(error);
            },
        };
        if self.sessions[place].body_generation != preparation.expected_generation {
            return Err(conflict("compact session snapshot changed"));
        }
        match self.ensure_session_history_idle(&preparation.session_id) {
            Ok(_) => {},
            Err(error) => {
                return Err(error);
            },
        }
        if self.operation_place(&preparation.operation_id).is_some() {
            proof {
                first_is_found(self.history_operations@, is_operation(preparation.operation_id@));
            }
            return Err(conflict("compact preparation receipt could not be created"));
        }
        self.history_operations.push(
            HistoryOperationRow {
                operation_id: preparation.operation_id.clone(),
                session_id: preparation.session_id.clone(),
                kind: HistoryKind::Compact,
                state: HistoryState::Preparing,
                source_generation,
                result_generation: None,
                compacted_message_count: None,
                retained_message_count: None,
                created_at_ms: preparation.created_at_ms,
                finished_at_ms: None,
            },
        );
        Ok(CompactionPreparationResult::Prepared)
    }

    /// Ends a compaction that leaves the conversation as it is.
    pub fn finish_session_compaction(&mut self, finish: &CompactionFinish) -> (result:
        StorageResult<()>)
        ensures
            compaction_finished(*old(self), *final(self), *finish, outcome_of(result)),
            match finish_outcome(*old(self), *finish) {
                Err(error) => {
                    &&& result is Err && result->Err_0@ == error
                    &&& *final(self) == *old(self)
                },
                Ok(false) => result is Ok && *final(self) == *old(self),
                Ok(true) => {
                    &&& result is Ok
                    &&& *final(self) == (StorageEngine {
                        history_operations: final(self).history_operations,
                        ..*old(self)
                    })
                    &&& final(self).history_operations@ == state_moved(
                        old(self).history_operations@,
                        finish.operation_id@,
                        HistoryState::Preparing,
                        finish_state(finish.kind),
                        Some(finish.finished_at_ms),
                    )
                },
            },
    {
        let state = match finish.kind {
            CompactionFinishKind::NoOp => HistoryState::NoOp,
            CompactionFinishKind::Cancelled => HistoryState::Cancelled,
            CompactionFinishKind::Interrupted => HistoryState::Interrupted,
        };
        let place: usize = match self.operation_place(&finish.operation_id) {
            Some(place) => place,
            None => {
                return Err(conflict("compact receipt does not exist"));
            },
        };
        let row = &self.history_operations[place];
        if row.session_id != finish.session_id || !matches!(row.kind, HistoryKind::Compact) {
            return Err(conflict("session history operation identity was reused"));
        }
        let source_generation: u64 = match positive(
            row.source_generation,
            "compact source generation is invalid",
        ) {
            Ok(value) => value,
            Err(error) => {
                return Err(error);
            },
        };
        if source_generation != finish.expected_generation {
            return Err(conflict("session history operation identity was reused"));
        }
        if row.state == state {
            return Ok(());
        }
        if !matches!(row.state, HistoryState::Preparing) {
            return Err(conflict("compact receipt already has a different outcome"));
        }
        let session: usize = match self.session_place(&finish.session_id) {
            Some(session) => session,
            None => {
                return Err(internal_error("compact generation could not be queried"));
            },
        };
        if self.sessions[session].body_generation == 0 {
            return Err(invalid_data("compact generation is invalid"));
        }
        if self.sessions[session].body_generation != finish.expected_generation {
            return Err(conflict("compact generation changed before finish"));
        }
        match self.ensure_session_history_idle(&finish.session_id) {
            Ok(_) => {},
            Err(error) => {
                return Err(error);
            },
        }
        move_state(
            &mut self.history_operations,
            &finish.operation_id,
            HistoryState::Preparing,
            state,
            Some(finish.finished_at_ms),
        );
        Ok(())
    }
}

} // verus!
