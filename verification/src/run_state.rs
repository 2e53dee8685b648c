//! Runs: their attempts, their start and their end.

use std::sync::Arc;
use std::time::{Duration, SystemTime, SystemTimeError};
use vstd::prelude::*;

use crate::append_effect::{
    continuation_of, is_terminal, settled, settlement_refusal, settlement_tables, terminal,
    AppendPurpose, ConversationStorageTarget, GoalSettlementEffect, RunSettlementEffect,
};
use crate::conversation::RecordedMessage;
use crate::engine::{has_input_id, has_run_id, is_run, StorageEngine};
use crate::error::{
    conflict, conflicting, corrupt, failed, internal_error, invalid_data, invalid_input, malformed,
    outcome_of, Refusal, StorageResult,
};
use crate::message::UserMessage;
use crate::numbers::STORED_MAX;
use crate::recovery::{append_attempted, CommittedBatch};
use crate::rows::{ApprovalMode, InputState, NewStoredInput, RunRow, StoredGoal, StoredInput};
use crate::run_loading::{shows, StoredRun};
use crate::run_projection::RunStatus;
use crate::table::{any, first, position, some_row};
use crate::tool_exchange::{PendingExchange, PendingTarget};

verus! {

/// [`SystemTime`], a point in time of the machine's clock.
#[verifier::external_type_specification]
#[verifier::external_body]
pub struct ExSystemTime(SystemTime);

/// [`SystemTimeError`], that one point in time does not come before another.
#[verifier::external_type_specification]
#[verifier::external_body]
pub struct ExSystemTimeError(SystemTimeError);

/// The current time, by [`SystemTime::now`]. Nothing is known of it.
#[verifier::external_body]
fn clock_time() -> SystemTime {
    SystemTime::now()
}

/// How far a point in time is from the Unix epoch, by [`SystemTime::duration_since`]; an error
/// where it comes before the epoch. Nothing is known of either.
#[verifier::external_body]
fn since_epoch(time: SystemTime) -> Result<Duration, SystemTimeError> {
    time.duration_since(SystemTime::UNIX_EPOCH)
}

/// The whole milliseconds of a span of time, by [`Duration::as_millis`]. Nothing is known of them.
#[verifier::external_body]
fn whole_millis(duration: Duration) -> u128 {
    duration.as_millis()
}

/// Milliseconds as a stored integer.
pub fn stored_millis(millis: u128) -> (result: StorageResult<i64>)
    ensures
        millis <= STORED_MAX ==> result is Ok && result->Ok_0 == millis,
        millis > STORED_MAX ==> result is Err && result->Err_0@ == failed(
            "system clock exceeds SQLite range"@,
        ),
{
    if millis <= STORED_MAX as u128 {
        Ok(millis as i64)
    } else {
        Err(internal_error("system clock exceeds SQLite range"))
    }
}

/// The milliseconds since the Unix epoch, by the machine's clock.
pub fn system_time_ms() -> (result: StorageResult<i64>)
    ensures
        exists|elapsed: Option<u128>| #[trigger]
            time_told(elapsed) == outcome_of(result),
{
    let elapsed: Option<u128> = match since_epoch(clock_time()) {
        Ok(duration) => Some(whole_millis(duration)),
        Err(_) => None,
    };
    let result = stored_time(elapsed);
    assert(time_told(elapsed) == outcome_of(result));
    result
}

/// What a clock tells: the milliseconds since the Unix epoch, where it shows a time that does not
/// come before the epoch and that can be stored.
pub open spec fn time_told(elapsed: Option<u128>) -> Result<i64, Refusal> {
    match elapsed {
        None => Err(failed("system clock is before the Unix epoch"@)),
        Some(millis) => if millis <= STORED_MAX {
            Ok(millis as i64)
        } else {
            Err(failed("system clock exceeds SQLite range"@))
        },
    }
}

/// What a clock tells that shows a time so many milliseconds after the Unix epoch, or one before it.
pub fn stored_time(elapsed: Option<u128>) -> (result: StorageResult<i64>)
    ensures
        outcome_of(result) == time_told(elapsed),
{
    match elapsed {
        Some(millis) => stored_millis(millis),
        None => Err(internal_error("system clock is before the Unix epoch")),
    }
}

/// Another attempt at the input of a run.
#[derive(Debug)]
pub struct NewRunAttempt {
    pub run_id: String,
    pub session_id: String,
    pub source_run_id: String,
    pub approval_mode: ApprovalMode,
    pub created_at_ms: i64,
}

/// A run that takes up its input. The first one brings the input's message into the conversation.
#[derive(Debug)]
pub struct UserMessageCommit {
    pub operation_id: String,
    pub input_id: String,
    pub run_id: String,
    pub session_id: String,
    pub message: Option<Arc<RecordedMessage>>,
    pub reasoning_effort: Option<String>,
    pub created_at_ms: i64,
}

/// The end of a run, with the messages that it leaves.
#[derive(Debug)]
pub struct RunSettlement {
    pub operation_id: String,
    pub run_id: String,
    pub session_id: String,
    pub effect: RunSettlementEffect,
    pub messages: Vec<Arc<RecordedMessage>>,
    pub message_step: Option<u32>,
    pub finished_at_ms: i64,
}

/// An input that was queued, with its first run.
#[derive(Debug, PartialEq, Eq)]
pub struct AcceptedInput {
    pub input: StoredInput,
    pub run: StoredRun,
    pub is_duplicate: bool,
}

/// What the end of a run set in motion.
#[derive(Debug, PartialEq, Eq)]
pub struct RunSettlementResult {
    pub goal: Option<StoredGoal>,
    pub continuation: Option<AcceptedInput>,
    pub accepted_proxy_report: Option<AcceptedInput>,
    pub resume_required: bool,
}

/// The highest attempt at an input, or zero.
pub open spec fn top_attempt(runs: Seq<RunRow>, input_id: Seq<char>) -> int
    decreases runs.len(),
{
    if runs.len() == 0 {
        0
    } else {
        let earlier = top_attempt(runs.drop_last(), input_id);
        if runs.last().input_id@ == input_id && runs.last().attempt > earlier {
            runs.last().attempt as int
        } else {
            earlier
        }
    }
}

/// Why a run cannot be tried again.
pub open spec fn attempt_refusal(engine: StorageEngine, attempt: NewRunAttempt) -> Option<Refusal> {
    match first(engine.runs@, is_run(attempt.session_id@, attempt.source_run_id@)) {
        None => Some(conflicting("source run does not exist"@)),
        Some(i) => {
            let source = engine.runs@[i];
            if !(source.status is Failed || source.status is Interrupted) {
                Some(conflicting("run is not retryable"@))
            } else if top_attempt(engine.runs@, source.input_id@) != source.attempt {
                Some(conflicting("only the latest run can be retried"@))
            } else if first(engine.inputs@, has_input_id(source.input_id@)) is None {
                Some(failed("run input variant could not be queried"@))
            } else if some_row(engine.runs@, has_run_id(attempt.run_id@)) {
                Some(conflicting("run attempt could not be created"@))
            } else if source.attempt == u32::MAX {
                Some(failed("run attempt exceeds runtime range"@))
            } else {
                None
            }
        },
    }
}

/// The next attempt at the input of a run.
pub open spec fn next_attempt(source: RunRow, attempt: NewRunAttempt) -> RunRow {
    RunRow {
        run_id: attempt.run_id,
        session_id: attempt.session_id,
        input_id: source.input_id,
        attempt: (source.attempt + 1) as u32,
        status: RunStatus::Accepted,
        cancel_requested: false,
        approval_mode: attempt.approval_mode,
        reasoning_effort: None,
        error: None,
        created_at_ms: attempt.created_at_ms,
        started_at_ms: None,
        finished_at_ms: None,
    }
}

/// The condition of being a run of a session that works on an input.
pub open spec fn is_run_for(session_id: Seq<char>, run_id: Seq<char>, input_id: Seq<char>) -> spec_fn(
    RunRow,
) -> bool {
    |row: RunRow|
        row.run_id@ == run_id && row.session_id@ == session_id && row.input_id@ == input_id
            && row.status is Accepted
}

/// The condition of being an input whose message is in the conversation.
pub open spec fn is_committed(input_id: Seq<char>) -> spec_fn(StoredInput) -> bool {
    |row: StoredInput| row.input_id@ == input_id && row.state is Committed
}

/// Why a further attempt cannot take up its input.
pub open spec fn resume_refusal(engine: StorageEngine, commit: UserMessageCommit) -> Option<
    Refusal,
> {
    if first(
        engine.runs@,
        is_run_for(commit.session_id@, commit.run_id@, commit.input_id@),
    ) is None || !some_row(engine.inputs@, is_committed(commit.input_id@)) {
        Some(conflicting("run cannot be started"@))
    } else {
        None
    }
}

/// The condition of being a tool exchange of a run.
pub open spec fn is_exchange_of_run(run_id: Seq<char>) -> spec_fn(Arc<PendingExchange>) -> bool {
    |row: Arc<PendingExchange>|
        match row.target {
            PendingTarget::Run { session_id, run_id: run } => run@ == run_id,
            _ => false,
        }
}

/// Why a run cannot end now.
pub open spec fn end_refusal(engine: StorageEngine, settlement: RunSettlement) -> Option<Refusal> {
    if !terminal(settlement.effect.status) {
        Some(malformed("run settlement status is not terminal"@))
    } else if some_row(engine.pending_exchanges@, is_exchange_of_run(settlement.run_id@)) {
        Some(conflicting("run has a pending tool exchange"@))
    } else {
        settlement_refusal(
            settlement_tables(engine),
            settlement.session_id@,
            settlement.run_id@,
            settlement.effect,
        )
    }
}

/// An input that was queued, as it is found by its identifier, with the run that is found by its.
pub open spec fn is_accepted(
    engine: StorageEngine,
    new: NewStoredInput,
    accepted: AcceptedInput,
) -> bool {
    let input = first(engine.inputs@, has_input_id(new.input_id@));
    let run = first(engine.runs@, has_run_id(new.run_id@));
    &&& input is Some
    &&& run is Some
    &&& accepted.input == engine.inputs@[input->0]
    &&& shows(engine, engine.runs@[run->0], accepted.run)
    &&& !accepted.is_duplicate
}

/// Why an input that should be queued cannot be shown.
pub open spec fn missing_refusal(
    engine: StorageEngine,
    new: NewStoredInput,
    no_input: Seq<char>,
    no_run: Seq<char>,
) -> Option<Refusal> {
    let run = first(engine.runs@, has_run_id(new.run_id@));
    if first(engine.inputs@, has_input_id(new.input_id@)) is None {
        Some(corrupt(no_input))
    } else if run is None || !some_row(
        engine.inputs@,
        has_input_id(engine.runs@[run->0].input_id@),
    ) {
        Some(corrupt(no_run))
    } else {
        None
    }
}

/// Why what the end of a run set in motion cannot be shown.
pub open spec fn answer_refusal(engine: StorageEngine, effect: RunSettlementEffect) -> Option<
    Refusal,
> {
    let continuation = match continuation_of(effect.goal_effect) {
        Some(next) => missing_refusal(
            engine,
            next,
            "Goal continuation input is missing"@,
            "Goal continuation Run is missing"@,
        ),
        None => None,
    };
    if continuation is Some {
        continuation
    } else {
        match effect.proxy_report {
            Some(report) => missing_refusal(
                engine,
                *report,
                "proxy report input is missing"@,
                "proxy report Run is missing"@,
            ),
            None => None,
        }
    }
}

/// What the end of a run set in motion.
pub open spec fn is_answer(
    engine: StorageEngine,
    effect: RunSettlementEffect,
    answer: RunSettlementResult,
) -> bool {
    &&& match effect.goal_effect {
        None => answer.goal is None && answer.continuation is None && !answer.resume_required,
        Some(goal_effect) => match *goal_effect {
            GoalSettlementEffect::Continue { goal, next_input, .. } => {
                &&& answer.goal == Some(goal)
                &&& answer.continuation is Some
                &&& is_accepted(engine, *next_input, answer.continuation->0)
                &&& !answer.resume_required
            },
            GoalSettlementEffect::Transition { goal, resume_required, .. } => {
                &&& answer.goal == Some(goal)
                &&& answer.continuation is None
                &&& answer.resume_required == resume_required
            },
        },
    }
    &&& match effect.proxy_report {
        Some(report) => answer.accepted_proxy_report is Some && is_accepted(
            engine,
            *report,
            answer.accepted_proxy_report->0,
        ),
        None => answer.accepted_proxy_report is None,
    }
}

/// The engine after a run ended, with what that set in motion or why it failed.
pub open spec fn run_settled(
    before: StorageEngine,
    after: StorageEngine,
    settlement: RunSettlement,
    outcome: Result<RunSettlementResult, Refusal>,
) -> bool {
    if end_refusal(before, settlement) is Some {
        after == before && outcome == Err::<RunSettlementResult, _>(
            end_refusal(before, settlement)->0,
        )
    } else if settlement.messages@.len() == 0 {
        &&& after == (StorageEngine {
            sessions: after.sessions,
            inputs: after.inputs,
            runs: after.runs,
            goals: after.goals,
            ..before
        })
        &&& settlement_tables(after) == settled(
            settlement_tables(before),
            settlement.session_id@,
            settlement.run_id@,
            settlement.effect,
            settlement.finished_at_ms,
        )
        &&& answered(after, settlement.effect, outcome)
    } else {
        exists|appended: Result<CommittedBatch, Refusal>| #[trigger]
            append_attempted(
                before,
                after,
                settlement.operation_id,
                ConversationStorageTarget::Session {
                    session_id: settlement.session_id,
                    run_id: settlement.run_id,
                },
                settlement.messages@,
                settlement.message_step,
                settlement.finished_at_ms,
                AppendPurpose::RunSettlement(settlement.effect),
                appended,
            ) && match appended {
                Err(error) => outcome == Err::<RunSettlementResult, _>(error),
                Ok(_) => answered(after, settlement.effect, outcome),
            }
    }
}

/// What is answered to the end of a run.
pub open spec fn answered(
    engine: StorageEngine,
    effect: RunSettlementEffect,
    outcome: Result<RunSettlementResult, Refusal>,
) -> bool {
    match answer_refusal(engine, effect) {
        Some(error) => outcome == Err::<RunSettlementResult, _>(error),
        None => outcome is Ok && is_answer(engine, effect, outcome->Ok_0),
    }
}

/// A run was attempted once more, or refused to be.
pub open spec fn attempt_made(
    before: StorageEngine,
    after: StorageEngine,
    attempt: NewRunAttempt,
    outcome: Result<StoredRun, Refusal>,
) -> bool {
    match attempt_refusal(before, attempt) {
        Some(error) => after == before && outcome == Err::<StoredRun, _>(error),
        None => {
            let source = before.runs@[first(
                before.runs@,
                is_run(attempt.session_id@, attempt.source_run_id@),
            )->0];
            let row = next_attempt(source, attempt);
            let run = outcome->Ok_0;
            &&& outcome is Ok
            &&& after == (StorageEngine { runs: after.runs, ..before })
            &&& after.runs@ == before.runs@.push(row)
            &&& run.run_id == row.run_id
            &&& run.session_id == row.session_id
            &&& run.input_id == row.input_id
            &&& run.attempt == row.attempt
            &&& run.status == row.status
            &&& run.agent_variant == before.inputs@[first(
                before.inputs@,
                has_input_id(source.input_id@),
            )->0].agent_variant
            &&& run.approval_mode == row.approval_mode
            &&& run.reasoning_effort is None
            &&& !run.cancel_requested
            &&& run.error is None
            &&& run.message_ids@.len() == 0
            &&& run.message_steps@.len() == 0
            &&& run.created_at_ms == row.created_at_ms
            &&& run.started_at_ms is None
            &&& run.finished_at_ms is None
        },
    }
}

/// A run was resumed for an input whose message is in the conversation, or refused to be.
pub open spec fn run_resumed(
    before: StorageEngine,
    after: StorageEngine,
    commit: UserMessageCommit,
    outcome: Result<Option<CommittedBatch>, Refusal>,
) -> bool {
    match resume_refusal(before, commit) {
        Some(error) => after == before && outcome == Err::<Option<CommittedBatch>, _>(error),
        None => {
            let place = first(
                before.runs@,
                is_run_for(commit.session_id@, commit.run_id@, commit.input_id@),
            )->0;
            &&& outcome is Ok && outcome->Ok_0 is None
            &&& after == (StorageEngine { runs: after.runs, ..before })
            &&& after.runs@ == before.runs@.update(
                place,
                RunRow {
                    status: RunStatus::Running,
                    started_at_ms: Some(commit.created_at_ms),
                    reasoning_effort: commit.reasoning_effort,
                    ..before.runs@[place]
                },
            )
        },
    }
}

impl StorageEngine {
    fn highest_attempt(&self, input_id: &String) -> (attempt: u32)
        ensures
            attempt == top_attempt(self.runs@, input_id@),
    {
        let mut attempt: u32 = 0;
        let mut i: usize = 0;
        proof {
            assert(self.runs@.take(0) =~= Seq::empty());
        }
        while i < self.runs.len()
            invariant
                i <= self.runs@.len(),
                attempt == top_attempt(self.runs@.take(i as int), input_id@),
            decreases self.runs@.len() - i,
        {
            proof {
                assert(self.runs@.take(i + 1).drop_last() =~= self.runs@.take(i as int));
                assert(self.runs@.take(i + 1).last() == self.runs@[i as int]);
            }
            if self.runs[i].input_id == *input_id && self.runs[i].attempt > attempt {
                attempt = self.runs[i].attempt;
            }
            i += 1;
        }
        proof {
            assert(self.runs@.take(self.runs@.len() as int) =~= self.runs@);
        }
        attempt
    }

    /// Tries the input of a failed or interrupted run again.
    pub fn create_run_attempt(&mut self, attempt: NewRunAttempt) -> (result: StorageResult<
        StoredRun,
    >)
        ensures
            attempt_made(*old(self), *final(self), attempt, outcome_of(result)),
            match attempt_refusal(*old(self), attempt) {
                Some(error) => {
                    &&& result is Err && result->Err_0@ == error
                    &&& *final(self) == *old(self)
                },
                None => {
                    let source = old(self).runs@[first(
                        old(self).runs@,
                        is_run(attempt.session_id@, attempt.source_run_id@),
                    )->0];
                    let row = next_attempt(source, attempt);
                    let run = result->Ok_0;
                    &&& result is Ok
                    &&& *final(self) == (StorageEngine { runs: final(self).runs, ..*old(self) })
                    &&& final(self).runs@ == old(self).runs@.push(row)
                    &&& run.run_id == row.run_id
                    &&& run.session_id == row.session_id
                    &&& run.input_id == row.input_id
                    &&& run.attempt == row.attempt
                    &&& run.status == row.status
                    &&& run.agent_variant == old(self).inputs@[first(
                        old(self).inputs@,
                        has_input_id(source.input_id@),
                    )->0].agent_variant
                    &&& run.approval_mode == row.approval_mode
                    &&& run.reasoning_effort is None
                    &&& !run.cancel_requested
                    &&& run.error is None
                    &&& run.message_ids@.len() == 0
                    &&& run.message_steps@.len() == 0
                    &&& run.created_at_ms == row.created_at_ms
                    &&& run.started_at_ms is None
                    &&& run.finished_at_ms is None
                },
            },
    {
        let source: usize = match self.run_place(&attempt.session_id, &attempt.source_run_id) {
            Some(place) => place,
            None => {
                return Err(conflict("source run does not exist"));
            },
        };
        if !matches!(self.runs[source].status, RunStatus::Failed | RunStatus::Interrupted) {
            return Err(conflict("run is not retryable"));
        }
        let input_id = self.runs[source].input_id.clone();
        let latest: u32 = self.runs[source].attempt;
        if self.highest_attempt(&input_id) != latest {
            return Err(conflict("only the latest run can be retried"));
        }
        let input: usize = match self.input_place(&input_id) {
            Some(place) => place,
            None => {
                return Err(internal_error("run input variant could not be queried"));
            },
        };
        let run_id = &attempt.run_id;
        if any(
            &self.runs,
            Ghost(has_run_id(run_id@)),
            |row: &RunRow| -> (same: bool)
                ensures
                    same == (row.run_id@ == run_id@)
                { row.run_id == *run_id },
        ) {
            return Err(conflict("run attempt could not be created"));
        }
        if latest == u32::MAX {
            return Err(internal_error("run attempt exceeds runtime range"));
        }
        let run = StoredRun {
            run_id: attempt.run_id.clone(),
            session_id: attempt.session_id.clone(),
            input_id: input_id.clone(),
            attempt: latest + 1,
            status: RunStatus::Accepted,
            agent_variant: self.inputs[input].agent_variant,
            approval_mode: attempt.approval_mode,
            reasoning_effort: None,
            cancel_requested: false,
            error: None,
            message_ids: Vec::new(),
            message_steps: Vec::new(),
            created_at_ms: attempt.created_at_ms,
            started_at_ms: None,
            finished_at_ms: None,
        };
        self.runs.push(
            RunRow {
                run_id: attempt.run_id,
                session_id: attempt.session_id,
                input_id,
                attempt: latest + 1,
                status: RunStatus::Accepted,
                cancel_requested: false,
                approval_mode: attempt.approval_mode,
                reasoning_effort: None,
                error: None,
                created_at_ms: attempt.created_at_ms,
                started_at_ms: None,
                finished_at_ms: None,
            },
        );
        Ok(run)
    }

    /// Lets a run take up its input. The first run of an input brings its message into the
    /// conversation; a further attempt finds it there.
    pub fn commit_user_message(&mut self, commit: UserMessageCommit) -> (result: StorageResult<
        Option<CommittedBatch>,
    >)
        ensures
            commit.message is None ==> run_resumed(
                *old(self),
                *final(self),
                commit,
                outcome_of(result),
            ),
            match commit.message {
                None => match resume_refusal(*old(self), commit) {
                    Some(error) => {
                        &&& result is Err && result->Err_0@ == error
                        &&& *final(self) == *old(self)
                    },
                    None => {
                        let place = first(
                            old(self).runs@,
                            is_run_for(commit.session_id@, commit.run_id@, commit.input_id@),
                        )->0;
                        &&& result is Ok && result->Ok_0 is None
                        &&& *final(self) == (StorageEngine {
                            runs: final(self).runs,
                            ..*old(self)
                        })
                        &&& final(self).runs@ == old(self).runs@.update(
                            place,
                            RunRow {
                                status: RunStatus::Running,
                                started_at_ms: Some(commit.created_at_ms),
                                reasoning_effort: commit.reasoning_effort,
                                ..old(self).runs@[place]
                            },
                        )
                    },
                },
                Some(message) => {
                    &&& result is Ok ==> result->Ok_0 is Some
                    &&& append_attempted(
                        *old(self),
                        *final(self),
                        commit.operation_id,
                        ConversationStorageTarget::Session {
                            session_id: commit.session_id,
                            run_id: commit.run_id,
                        },
                        seq![message],
                        None,
                        commit.created_at_ms,
                        AppendPurpose::UserMessage { reasoning_effort: commit.reasoning_effort },
                        match result {
                            Ok(batch) => Ok(batch->0),
                            Err(error) => Err(error@),
                        },
                    )
                },
            },
    {
        let message = match commit.message {
            Some(message) => message,
            None => {
                let session_id = &commit.session_id;
                let run_id = &commit.run_id;
                let input_id = &commit.input_id;
                let place: usize = match position(
                    &self.runs,
                    Ghost(is_run_for(session_id@, run_id@, input_id@)),
                    |row: &RunRow| -> (found: bool)
                        ensures
                            found == is_run_for(session_id@, run_id@, input_id@)(*row)
                        {
                            row.run_id == *run_id && row.session_id == *session_id && row.input_id
                                == *input_id && matches!(row.status, RunStatus::Accepted)
                        },
                ) {
                    Some(place) => place,
                    None => {
                        return Err(conflict("run cannot be started"));
                    },
                };
                if !any(
                    &self.inputs,
                    Ghost(is_committed(input_id@)),
                    |row: &StoredInput| -> (found: bool)
                        ensures
                            found == is_committed(input_id@)(*row)
                        { row.input_id == *input_id && matches!(row.state, InputState::Committed) },
                ) {
                    return Err(conflict("run cannot be started"));
                }
                let ghost rows = self.runs@;
                let ghost next = RunRow {
                    status: RunStatus::Running,
                    started_at_ms: Some(commit.created_at_ms),
                    reasoning_effort: commit.reasoning_effort,
                    ..rows[place as int]
                };
                self.runs[place].status = RunStatus::Running;
                self.runs[place].started_at_ms = Some(commit.created_at_ms);
                self.runs[place].reasoning_effort = commit.reasoning_effort;
                proof {
                    assert(self.runs@ =~= rows.update(place as int, next));
                }
                return Ok(None);
            },
        };
        let mut messages: Vec<Arc<RecordedMessage>> = Vec::new();
        messages.push(message);
        proof {
            assert(messages@ =~= seq![message]);
        }
        let target = ConversationStorageTarget::Session {
            session_id: commit.session_id,
            run_id: commit.run_id,
        };
        let purpose = AppendPurpose::UserMessage { reasoning_effort: commit.reasoning_effort };
        match self.append_to_target(
            commit.operation_id,
            target,
            messages,
            None,
            commit.created_at_ms,
            purpose,
        ) {
            Ok(batch) => Ok(Some(batch)),
            Err(error) => Err(error),
        }
    }

    fn accepted_input(
        &self,
        new: &NewStoredInput,
        no_input: &'static str,
        no_run: &'static str,
    ) -> (result: StorageResult<AcceptedInput>)
        ensures
            match missing_refusal(*self, *new, no_input@, no_run@) {
                Some(error) => result is Err && result->Err_0@ == error,
                None => result is Ok && is_accepted(*self, *new, result->Ok_0),
            },
    {
        let input: usize = match self.input_place(&new.input_id) {
            Some(place) => place,
            None => {
                return Err(invalid_data(no_input));
            },
        };
        let run_id = &new.run_id;
        let place: usize = match position(
            &self.runs,
            Ghost(has_run_id(run_id@)),
            |row: &RunRow| -> (same: bool)
                ensures
                    same == (row.run_id@ == run_id@)
                { row.run_id == *run_id },
        ) {
            Some(place) => place,
            None => {
                return Err(invalid_data(no_run));
            },
        };
        match self.show_run(&self.runs[place]) {
            Some(run) => Ok(
                AcceptedInput { input: self.inputs[input].copy(), run, is_duplicate: false },
            ),
            None => Err(invalid_data(no_run)),
        }
    }

    /// What the end of a run set in motion.
    pub fn run_settlement_result(&self, effect: &RunSettlementEffect) -> (result: StorageResult<
        RunSettlementResult,
    >)
        ensures
            answered(*self, *effect, outcome_of(result)),
    {
        let mut answer = RunSettlementResult {
            goal: None,
            continuation: None,
            accepted_proxy_report: None,
            resume_required: false,
        };
        match &effect.goal_effect {
            None => {},
            Some(goal_effect) => match &**goal_effect {
                GoalSettlementEffect::Continue { goal, next_input, .. } => {
                    match self.accepted_input(
                        next_input,
                        "Goal continuation input is missing",
                        "Goal continuation Run is missing",
                    ) {
                        Ok(accepted) => {
                            answer.continuation = Some(accepted);
                        },
                        Err(error) => {
                            return Err(error);
                        },
                    }
                    answer.goal = Some(goal.copy());
                },
                GoalSettlementEffect::Transition { goal, resume_required, .. } => {
                    answer.goal = Some(goal.copy());
                    answer.resume_required = *resume_required;
                },
            },
        }
        match &effect.proxy_report {
            Some(report) => match self.accepted_input(
                report,
                "proxy report input is missing",
                "proxy report Run is missing",
            ) {
                Ok(accepted) => {
                    answer.accepted_proxy_report = Some(accepted);
                },
                Err(error) => {
                    return Err(error);
                },
            },
            None => {},
        }
        Ok(answer)
    }

    /// Ends a run, together with the messages that it leaves. What can be foreseen to fail does so
    /// before any message reaches the body.
    pub fn settle_run(&mut self, settlement: RunSettlement) -> (result: StorageResult<
        RunSettlementResult,
    >)
        ensures
            run_settled(*old(self), *final(self), settlement, outcome_of(result)),
    {
        if !is_terminal(settlement.effect.status) {
            return Err(invalid_input("run settlement status is not terminal"));
        }
        let run_id = &settlement.run_id;
        if any(
            &self.pending_exchanges,
            Ghost(is_exchange_of_run(run_id@)),
            |row: &Arc<PendingExchange>| -> (found: bool)
                ensures
                    found == is_exchange_of_run(run_id@)(*row)
                {
                    match &row.target {
                        PendingTarget::Run { session_id, run_id: run } => *run == *run_id,
                        PendingTarget::ChildTask { session_id, child_task_id } => false,
                    }
                },
        ) {
            return Err(conflict("run has a pending tool exchange"));
        }
        match self.check_run_settlement(
            &settlement.session_id,
            &settlement.run_id,
            &settlement.effect,
        ) {
            Ok(_) => {},
            Err(error) => {
                return Err(error);
            },
        }
        if settlement.messages.len() == 0 {
            match self.apply_run_settlement(
                &settlement.session_id,
                &settlement.run_id,
                &settlement.effect,
                settlement.finished_at_ms,
            ) {
                Ok(_) => {},
                Err(error) => {
                    return Err(error);
                },
            }
            return self.run_settlement_result(&settlement.effect);
        }
        self.settle_with_messages(settlement)
    }

    fn settle_with_messages(&mut self, settlement: RunSettlement) -> (result: StorageResult<
        RunSettlementResult,
    >)
        requires
            end_refusal(*old(self), settlement) is None,
            settlement.messages@.len() > 0,
        ensures
            run_settled(*old(self), *final(self), settlement, outcome_of(result)),
    {
        let effect = settlement.effect;
        let target = ConversationStorageTarget::Session {
            session_id: settlement.session_id,
            run_id: settlement.run_id,
        };
        let appended = self.append_to_target(
            settlement.operation_id,
            target,
            settlement.messages,
            settlement.message_step,
            settlement.finished_at_ms,
            AppendPurpose::RunSettlement(effect.copy()),
        );
        let ghost outcome = outcome_of(appended);
        let result = match appended {
            Ok(_) => self.run_settlement_result(&effect),
            Err(error) => Err(error),
        };
        proof {
            assert(append_attempted(
                *old(self),
                *self,
                settlement.operation_id,
                ConversationStorageTarget::Session {
                    session_id: settlement.session_id,
                    run_id: settlement.run_id,
                },
                settlement.messages@,
                settlement.message_step,
                settlement.finished_at_ms,
                AppendPurpose::RunSettlement(settlement.effect),
                outcome,
            ));
        }
        result
    }
}

} // verus!
