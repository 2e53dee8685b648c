//! What a staged append is for, and the change of the tables that comes with it.

use std::sync::Arc;
use vstd::prelude::*;

use crate::engine::{has_input_id, has_run_id, is_run, is_session, StorageEngine};
use crate::error::{
    conflict, conflicting, corrupt, failed, internal_error, invalid_data, outcome_of, Refusal,
    StorageResult,
};
use crate::message::{share, UserMessage};
use crate::rows::{
    ConversationOwner, GoalInputBinding, GoalState, InputKind, InputState, NewStoredInput,
    PendingStart, RunError, RunRow, SessionRow, StoredGoal, StoredInput, StoredSkillActivation,
};
use crate::run_projection::RunStatus;
use crate::run_state::RunSettlement;
use crate::skill::{append_activations, check_activations, with_activations};
use crate::table::{any, first, keep, kept, position, some_row};
use crate::tool_exchange::{PendingExchange, PendingTarget};

verus! {

/// The conversation that an append goes to.
#[derive(Debug, PartialEq, Eq)]
pub enum ConversationStorageTarget {
    Session { session_id: String, run_id: String },
    ChildTask { session_id: String, child_task_id: String },
}

impl ConversationStorageTarget {
    /// The same value once more.
    pub fn copy(&self) -> (copy: ConversationStorageTarget)
        ensures
            copy == *self,
    {
        match self {
            ConversationStorageTarget::Session { session_id, run_id } => {
                ConversationStorageTarget::Session {
                    session_id: session_id.clone(),
                    run_id: run_id.clone(),
                }
            },
            ConversationStorageTarget::ChildTask { session_id, child_task_id } => {
                ConversationStorageTarget::ChildTask {
                    session_id: session_id.clone(),
                    child_task_id: child_task_id.clone(),
                }
            },
        }
    }
}

/// The session that a target belongs to.
pub open spec fn session_of(target: ConversationStorageTarget) -> String {
    match target {
        ConversationStorageTarget::Session { session_id, run_id } => session_id,
        ConversationStorageTarget::ChildTask { session_id, child_task_id } => session_id,
    }
}

/// The conversation of a target, as it is named in records.
pub open spec fn owner_of(target: ConversationStorageTarget) -> ConversationOwner {
    match target {
        ConversationStorageTarget::Session { session_id, run_id } => {
            ConversationOwner::MainSession { session_id }
        },
        ConversationStorageTarget::ChildTask { session_id, child_task_id } => {
            ConversationOwner::ChildTask { session_id, child_task_id }
        },
    }
}

/// How a settled run moves the goal of its session.
#[derive(Debug, PartialEq, Eq)]
pub enum GoalSettlementEffect {
    /// The goal goes on with another input.
    Continue {
        expected_goal_id: String,
        expected_generation: u64,
        goal: StoredGoal,
        next_input: Arc<NewStoredInput>,
    },
    /// The goal changes its state, or ends.
    Transition {
        expected_goal_id: String,
        expected_generation: u64,
        goal: StoredGoal,
        resume_required: bool,
    },
}

/// How a run ended.
#[derive(Debug, PartialEq, Eq)]
pub struct RunSettlementEffect {
    pub status: RunStatus,
    pub cancel_requested: bool,
    pub error: Option<RunError>,
    pub goal_effect: Option<Arc<GoalSettlementEffect>>,
    pub proxy_report: Option<Arc<NewStoredInput>>,
}

impl RunSettlementEffect {
    /// The same value once more.
    pub fn copy(&self) -> (copy: RunSettlementEffect)
        ensures
            copy == *self,
    {
        RunSettlementEffect {
            status: self.status,
            cancel_requested: self.cancel_requested,
            error: match &self.error {
                Some(error) => Some(error.copy()),
                None => None,
            },
            goal_effect: match &self.goal_effect {
                Some(effect) => Some(share(effect)),
                None => None,
            },
            proxy_report: match &self.proxy_report {
                Some(report) => Some(share(report)),
                None => None,
            },
        }
    }
}

/// The change of the tables that comes with an append.
#[derive(Debug, PartialEq, Eq)]
pub enum AppendPurpose {
    /// Nothing but the messages.
    Messages,
    /// The run takes up its input.
    UserMessage { reasoning_effort: Option<String> },
    /// The run ends.
    RunSettlement(RunSettlementEffect),
    /// The results of a tool exchange of a run are recorded.
    ToolExchange {
        receipt_id: String,
        skill_activations: Arc<Vec<StoredSkillActivation>>,
    },
    /// The results of a tool exchange of a delegated task are recorded.
    ChildToolExchange { receipt_id: String },
}

/// An append that has been announced and may or may not have reached its body.
#[derive(Debug, PartialEq, Eq)]
pub struct StagedAppend {
    pub operation_id: String,
    pub target: ConversationStorageTarget,
    pub body_generation: u64,
    pub base_byte_length: u64,
    pub payload: Vec<u8>,
    pub message_count_delta: u64,
    pub message_step: Option<u32>,
    pub created_at_ms: i64,
    pub purpose: Arc<AppendPurpose>,
}

/// A status that a run does not leave.
pub open spec fn terminal(status: RunStatus) -> bool {
    status is Completed || status is Failed || status is Cancelled || status is Interrupted
}

/// Whether a run does not leave a status.
pub fn is_terminal(status: RunStatus) -> (result: bool)
    ensures
        result == terminal(status),
{
    matches!(
        status,
        RunStatus::Completed | RunStatus::Failed | RunStatus::Cancelled | RunStatus::Interrupted
    )
}

/// The largest place in the queue that an input has, or zero.
pub open spec fn top_order(inputs: Seq<StoredInput>) -> int
    decreases inputs.len(),
{
    if inputs.len() == 0 {
        0
    } else {
        let earlier = top_order(inputs.drop_last());
        if inputs.last().queue_order > earlier {
            inputs.last().queue_order as int
        } else {
            earlier
        }
    }
}

/// The largest place in the queue that an input has, or zero.
pub fn last_order(inputs: &Vec<StoredInput>) -> (order: i64)
    ensures
        order == top_order(inputs@),
        order >= 0,
{
    let mut order: i64 = 0;
    let mut i: usize = 0;
    proof {
        assert(inputs@.take(0) =~= Seq::empty());
    }
    while i < inputs.len()
        invariant
            i <= inputs@.len(),
            order == top_order(inputs@.take(i as int)),
            order >= 0,
        decreases inputs@.len() - i,
    {
        proof {
            assert(inputs@.take(i + 1).drop_last() =~= inputs@.take(i as int));
            assert(inputs@.take(i + 1).last() == inputs@[i as int]);
        }
        if inputs[i].queue_order > order {
            order = inputs[i].queue_order;
        }
        i += 1;
    }
    proof {
        assert(inputs@.take(inputs@.len() as int) =~= inputs@);
    }
    order
}

/// A new input with its place in the queue.
pub open spec fn queued_input(new: NewStoredInput, order: i64) -> StoredInput {
    StoredInput {
        queue_order: order,
        kind: InputKind::Message,
        input_id: new.input_id,
        session_id: new.session_id,
        idempotency_key: new.idempotency_key,
        agent_variant: new.agent_variant,
        origin: new.origin,
        goal_binding: new.goal_binding,
        cross_session: new.cross_session,
        channel_source: new.channel_source,
        user_message_id: new.user_message_id,
        state: InputState::Queued,
        queued_message: Some(new.message),
        accepted_at_ms: new.accepted_at_ms,
    }
}

/// The first run for a new input.
pub open spec fn first_run(new: NewStoredInput) -> RunRow {
    RunRow {
        run_id: new.run_id,
        session_id: new.session_id,
        input_id: new.input_id,
        attempt: 1,
        status: RunStatus::Accepted,
        cancel_requested: false,
        approval_mode: new.approval_mode,
        reasoning_effort: None,
        error: None,
        created_at_ms: new.accepted_at_ms,
        started_at_ms: None,
        finished_at_ms: None,
    }
}

/// Inputs together with their runs.
pub struct WorkTables {
    pub inputs: Seq<StoredInput>,
    pub runs: Seq<RunRow>,
}

/// Why a new input cannot be queued.
pub open spec fn input_refusal(work: WorkTables, new: NewStoredInput) -> Option<Refusal> {
    if some_row(work.inputs, has_input_id(new.input_id@)) || some_row(
        work.runs,
        has_run_id(new.run_id@),
    ) {
        Some(conflicting("input could not be accepted"@))
    } else if top_order(work.inputs) >= i64::MAX {
        Some(failed("input queue is exhausted"@))
    } else {
        None
    }
}

/// The tables with one more input, and its first run.
pub open spec fn with_input(work: WorkTables, new: NewStoredInput) -> WorkTables {
    WorkTables {
        inputs: work.inputs.push(queued_input(new, (top_order(work.inputs) + 1) as i64)),
        runs: work.runs.push(first_run(new)),
    }
}

/// The tables that the end of a run touches.
pub struct SettlementTables {
    pub sessions: Seq<SessionRow>,
    pub work: WorkTables,
    pub goals: Seq<StoredGoal>,
}

/// The tables of an engine that the end of a run touches.
pub open spec fn settlement_tables(engine: StorageEngine) -> SettlementTables {
    SettlementTables {
        sessions: engine.sessions@,
        work: WorkTables { inputs: engine.inputs@, runs: engine.runs@ },
        goals: engine.goals@,
    }
}

/// The condition of being a goal of a session at a generation.
pub open spec fn is_goal(session_id: Seq<char>, goal_id: Seq<char>, generation: u64) -> spec_fn(
    StoredGoal,
) -> bool {
    |row: StoredGoal|
        row.session_id@ == session_id && row.goal_id@ == goal_id && row.generation == generation
}

/// An input belongs to the current turn of a goal.
pub open spec fn continues_goal(binding: Option<GoalInputBinding>, goal: StoredGoal) -> bool {
    binding is Some && binding->0.goal_id@ == goal.goal_id@ && binding->0.generation
        == goal.generation && binding->0.turn == goal.turn
}

/// Why the goal of a session cannot be moved.
pub open spec fn goal_refusal(
    goals: Seq<StoredGoal>,
    session_id: Seq<char>,
    effect: GoalSettlementEffect,
) -> Option<Refusal> {
    let (expected_goal_id, expected_generation, goal) = match effect {
        GoalSettlementEffect::Continue { expected_goal_id, expected_generation, goal, .. } => (
            expected_goal_id,
            expected_generation,
            goal,
        ),
        GoalSettlementEffect::Transition { expected_goal_id, expected_generation, goal, .. } => (
            expected_goal_id,
            expected_generation,
            goal,
        ),
    };
    if !some_row(goals, is_goal(session_id, expected_goal_id@, expected_generation)) {
        Some(conflicting("goal changed before settlement"@))
    } else if goal.session_id@ != session_id || goal.goal_id@ != expected_goal_id@ {
        Some(conflicting("goal settlement is invalid"@))
    } else {
        match effect {
            GoalSettlementEffect::Continue { next_input, .. } => if next_input.session_id@
                != session_id || !continues_goal(next_input.goal_binding, goal) {
                Some(conflicting("goal continuation is invalid"@))
            } else {
                None
            },
            _ => None,
        }
    }
}

/// The goals after one was moved. A completed goal is gone.
pub open spec fn moved_goals(
    goals: Seq<StoredGoal>,
    session_id: Seq<char>,
    effect: GoalSettlementEffect,
) -> Seq<StoredGoal> {
    let (expected_goal_id, expected_generation, goal) = match effect {
        GoalSettlementEffect::Continue { expected_goal_id, expected_generation, goal, .. } => (
            expected_goal_id,
            expected_generation,
            goal,
        ),
        GoalSettlementEffect::Transition { expected_goal_id, expected_generation, goal, .. } => (
            expected_goal_id,
            expected_generation,
            goal,
        ),
    };
    let place = first(goals, is_goal(session_id, expected_goal_id@, expected_generation))->0;
    if goal.state is Completed {
        goals.remove(place)
    } else {
        goals.update(place, goal)
    }
}

/// The input that a goal goes on with.
pub open spec fn continuation_of(effect: Option<Arc<GoalSettlementEffect>>) -> Option<
    NewStoredInput,
> {
    match effect {
        Some(effect) => match *effect {
            GoalSettlementEffect::Continue { next_input, .. } => Some(*next_input),
            _ => None,
        },
        None => None,
    }
}

/// The inputs and runs after the end of a run: with the input its goal goes on with, then with the
/// report to its controller.
pub open spec fn work_after(work: WorkTables, effect: RunSettlementEffect) -> WorkTables {
    let continued = match continuation_of(effect.goal_effect) {
        Some(next) => with_input(work, next),
        None => work,
    };
    match effect.proxy_report {
        Some(report) => with_input(continued, *report),
        None => continued,
    }
}

/// Why a run cannot end as it is meant to.
pub open spec fn settlement_refusal(
    tables: SettlementTables,
    session_id: Seq<char>,
    run_id: Seq<char>,
    effect: RunSettlementEffect,
) -> Option<Refusal> {
    let run = first(tables.work.runs, is_run(session_id, run_id));
    let continued = match continuation_of(effect.goal_effect) {
        Some(next) => with_input(tables.work, next),
        None => tables.work,
    };
    if run is None || terminal(tables.work.runs[run->0].status) {
        Some(conflicting("run cannot be settled"@))
    } else if first(tables.sessions, is_session(session_id)) is None {
        Some(conflicting("session does not exist"@))
    } else if effect.goal_effect is Some && goal_refusal(
        tables.goals,
        session_id,
        *effect.goal_effect->0,
    ) is Some {
        goal_refusal(tables.goals, session_id, *effect.goal_effect->0)
    } else if continuation_of(effect.goal_effect) is Some && input_refusal(
        tables.work,
        continuation_of(effect.goal_effect)->0,
    ) is Some {
        input_refusal(tables.work, continuation_of(effect.goal_effect)->0)
    } else if effect.proxy_report is Some {
        input_refusal(continued, *effect.proxy_report->0)
    } else {
        None
    }
}

/// The tables after a run has ended: the run has its outcome, and its session was last active then.
pub open spec fn settled(
    tables: SettlementTables,
    session_id: Seq<char>,
    run_id: Seq<char>,
    effect: RunSettlementEffect,
    finished_at_ms: i64,
) -> SettlementTables {
    let run = first(tables.work.runs, is_run(session_id, run_id))->0;
    let session = first(tables.sessions, is_session(session_id))->0;
    let work = work_after(tables.work, effect);
    SettlementTables {
        sessions: tables.sessions.update(
            session,
            SessionRow { updated_at_ms: finished_at_ms, ..tables.sessions[session] },
        ),
        work: WorkTables {
            inputs: work.inputs,
            runs: work.runs.update(
                run,
                RunRow {
                    status: effect.status,
                    cancel_requested: effect.cancel_requested,
                    error: effect.error,
                    finished_at_ms: Some(finished_at_ms),
                    ..tables.work.runs[run]
                },
            ),
        },
        goals: match effect.goal_effect {
            Some(effect) => moved_goals(tables.goals, session_id, *effect),
            None => tables.goals,
        },
    }
}

proof fn some_row_after_push<R>(rows: Seq<R>, row: R, condition: spec_fn(R) -> bool)
    ensures
        some_row(rows.push(row), condition) == (some_row(rows, condition) || condition(row)),
{
    if some_row(rows, condition) {
        let i = choose|i: int| 0 <= i < rows.len() && condition(#[trigger] rows[i]);
        assert(rows.push(row)[i] == rows[i]);
    }
    if condition(row) {
        assert(rows.push(row)[rows.len() as int] == row);
    }
    if some_row(rows.push(row), condition) {
        let i = choose|i: int|
            0 <= i < rows.push(row).len() && condition(#[trigger] rows.push(row)[i]);
        if i < rows.len() {
            assert(condition(rows[i]));
        }
    }
}

fn same_binding(binding: &Option<GoalInputBinding>, goal: &StoredGoal) -> (result: bool)
    ensures
        result == continues_goal(*binding, *goal),
{
    match binding {
        Some(binding) => binding.goal_id == goal.goal_id && binding.generation == goal.generation
            && binding.turn == goal.turn,
        None => false,
    }
}

/// An input was taken in, or refused to be.
pub open spec fn input_inserted(
    before: StorageEngine,
    after: StorageEngine,
    new: NewStoredInput,
    outcome: Result<(), Refusal>,
) -> bool {
    let work = WorkTables { inputs: before.inputs@, runs: before.runs@ };
    match input_refusal(work, new) {
        Some(error) => after == before && outcome == Err::<(), _>(error),
        None => {
            &&& outcome is Ok
            &&& after == (StorageEngine { inputs: after.inputs, runs: after.runs, ..before })
            &&& (WorkTables { inputs: after.inputs@, runs: after.runs@ }) == with_input(work, new)
        },
    }
}

impl StorageEngine {
    fn check_input(&self, new: &NewStoredInput) -> (result: StorageResult<()>)
        ensures
            match input_refusal(WorkTables { inputs: self.inputs@, runs: self.runs@ }, *new) {
                Some(error) => result is Err && result->Err_0@ == error,
                None => result is Ok,
            },
    {
        if any(
            &self.inputs,
            Ghost(has_input_id(new.input_id@)),
            |row: &StoredInput| -> (same: bool)
                ensures
                    same == (row.input_id@ == new.input_id@)
                { row.input_id == new.input_id },
        ) || any(
            &self.runs,
            Ghost(has_run_id(new.run_id@)),
            |row: &RunRow| -> (same: bool)
                ensures
                    same == (row.run_id@ == new.run_id@)
                { row.run_id == new.run_id },
        ) {
            return Err(conflict("input could not be accepted"));
        }
        if last_order(&self.inputs) == i64::MAX {
            return Err(internal_error("input queue is exhausted"));
        }
        Ok(())
    }

    fn check_second_input(&self, earlier: &NewStoredInput, new: &NewStoredInput) -> (result:
        StorageResult<()>)
        requires
            input_refusal(
                WorkTables { inputs: self.inputs@, runs: self.runs@ },
                *earlier,
            ) is None,
        ensures
            match input_refusal(
                with_input(WorkTables { inputs: self.inputs@, runs: self.runs@ }, *earlier),
                *new,
            ) {
                Some(error) => result is Err && result->Err_0@ == error,
                None => result is Ok,
            },
    {
        let ghost work = WorkTables { inputs: self.inputs@, runs: self.runs@ };
        let ghost after = with_input(work, *earlier);
        proof {
            some_row_after_push(
                work.inputs,
                queued_input(*earlier, (top_order(work.inputs) + 1) as i64),
                has_input_id(new.input_id@),
            );
            some_row_after_push(work.runs, first_run(*earlier), has_run_id(new.run_id@));
            assert(after.inputs.drop_last() =~= work.inputs);
        }
        let order: i64 = last_order(&self.inputs);
        assert(top_order(after.inputs) == order + 1);
        if any(
            &self.inputs,
            Ghost(has_input_id(new.input_id@)),
            |row: &StoredInput| -> (same: bool)
                ensures
                    same == (row.input_id@ == new.input_id@)
                { row.input_id == new.input_id },
        ) || any(
            &self.runs,
            Ghost(has_run_id(new.run_id@)),
            |row: &RunRow| -> (same: bool)
                ensures
                    same == (row.run_id@ == new.run_id@)
                { row.run_id == new.run_id },
        ) || earlier.input_id == new.input_id || earlier.run_id == new.run_id {
            return Err(conflict("input could not be accepted"));
        }
        if order == i64::MAX - 1 {
            return Err(internal_error("input queue is exhausted"));
        }
        Ok(())
    }

    /// Queues an input, with the run that will work on it.
    pub fn insert_input(&mut self, new: &NewStoredInput) -> (result: StorageResult<()>)
        ensures
            input_inserted(*old(self), *final(self), *new, outcome_of(result)),
            match input_refusal(WorkTables { inputs: old(self).inputs@, runs: old(self).runs@ }, *new) {
                Some(error) => {
                    &&& result is Err && result->Err_0@ == error
                    &&& *final(self) == *old(self)
                },
                None => {
                    &&& result is Ok
                    &&& *final(self) == (StorageEngine {
                        inputs: final(self).inputs,
                        runs: final(self).runs,
                        ..*old(self)
                    })
                    &&& (WorkTables { inputs: final(self).inputs@, runs: final(self).runs@ })
                        == with_input(
                        WorkTables { inputs: old(self).inputs@, runs: old(self).runs@ },
                        *new,
                    )
                },
            },
    {
        match self.check_input(new) {
            Ok(_) => {},
            Err(error) => {
                return Err(error);
            },
        }
        let order: i64 = last_order(&self.inputs) + 1;
        self.inputs.push(
            StoredInput {
                queue_order: order,
                kind: InputKind::Message,
                input_id: new.input_id.clone(),
                session_id: new.session_id.clone(),
                idempotency_key: new.idempotency_key.clone(),
                agent_variant: new.agent_variant,
                origin: new.origin,
                goal_binding: match &new.goal_binding {
                    Some(binding) => Some(binding.copy()),
                    None => None,
                },
                cross_session: match &new.cross_session {
                    Some(binding) => Some(binding.copy()),
                    None => None,
                },
                channel_source: new.channel_source.clone(),
                user_message_id: new.user_message_id.clone(),
                state: InputState::Queued,
                queued_message: Some(share(&new.message)),
                accepted_at_ms: new.accepted_at_ms,
            },
        );
        self.runs.push(
            RunRow {
                run_id: new.run_id.clone(),
                session_id: new.session_id.clone(),
                input_id: new.input_id.clone(),
                attempt: 1,
                status: RunStatus::Accepted,
                cancel_requested: false,
                approval_mode: new.approval_mode,
                reasoning_effort: None,
                error: None,
                created_at_ms: new.accepted_at_ms,
                started_at_ms: None,
                finished_at_ms: None,
            },
        );
        Ok(())
    }

    fn check_goal(&self, session_id: &String, effect: &GoalSettlementEffect) -> (result:
        StorageResult<usize>)
        ensures
            match goal_refusal(self.goals@, session_id@, *effect) {
                Some(error) => result is Err && result->Err_0@ == error,
                None => {
                    let (goal_id, generation) = match *effect {
                        GoalSettlementEffect::Continue {
                            expected_goal_id,
                            expected_generation,
                            ..
                        } => (expected_goal_id, expected_generation),
                        GoalSettlementEffect::Transition {
                            expected_goal_id,
                            expected_generation,
                            ..
                        } => (expected_goal_id, expected_generation),
                    };
                    &&& result is Ok
                    &&& result->Ok_0 < self.goals@.len()
                    &&& first(self.goals@, is_goal(session_id@, goal_id@, generation)) == Some(
                        result->Ok_0 as int,
                    )
                },
            },
    {
        let (goal_id, generation, goal) = match effect {
            GoalSettlementEffect::Continue { expected_goal_id, expected_generation, goal, .. } => (
                expected_goal_id,
                *expected_generation,
                goal,
            ),
            GoalSettlementEffect::Transition { expected_goal_id, expected_generation, goal, .. }
            => (expected_goal_id, *expected_generation, goal),
        };
        let place = match position(
            &self.goals,
            Ghost(is_goal(session_id@, goal_id@, generation)),
            |row: &StoredGoal| -> (found: bool)
                ensures
                    found == (row.session_id@ == session_id@ && row.goal_id@ == goal_id@
                        && row.generation == generation)
                {
                    row.session_id == *session_id && row.goal_id == *goal_id && row.generation
                        == generation
                },
        ) {
            Some(place) => place,
            None => {
                return Err(conflict("goal changed before settlement"));
            },
        };
        if goal.session_id != *session_id || goal.goal_id != *goal_id {
            return Err(conflict("goal settlement is invalid"));
        }
        match effect {
            GoalSettlementEffect::Continue { next_input, .. } => {
                if next_input.session_id != *session_id || !same_binding(
                    &next_input.goal_binding,
                    goal,
                ) {
                    return Err(conflict("goal continuation is invalid"));
                }
            },
            _ => {},
        }
        Ok(place)
    }

    /// Whether a run can end as it is meant to.
    pub fn check_run_settlement(
        &self,
        session_id: &String,
        run_id: &String,
        effect: &RunSettlementEffect,
    ) -> (result: StorageResult<()>)
        ensures
            match settlement_refusal(settlement_tables(*self), session_id@, run_id@, *effect) {
                Some(error) => result is Err && result->Err_0@ == error,
                None => result is Ok,
            },
    {
        match self.run_place(session_id, run_id) {
            None => {
                return Err(conflict("run cannot be settled"));
            },
            Some(place) => {
                if is_terminal(self.runs[place].status) {
                    return Err(conflict("run cannot be settled"));
                }
            },
        }
        if self.session_place(session_id).is_none() {
            return Err(conflict("session does not exist"));
        }
        let mut continuation: Option<Arc<NewStoredInput>> = None;
        match &effect.goal_effect {
            Some(goal_effect) => {
                match self.check_goal(session_id, goal_effect) {
                    Ok(_) => {},
                    Err(error) => {
                        return Err(error);
                    },
                }
                match &**goal_effect {
                    GoalSettlementEffect::Continue { next_input, .. } => {
                        match self.check_input(next_input) {
                            Ok(_) => {},
                            Err(error) => {
                                return Err(error);
                            },
                        }
                        continuation = Some(share(next_input));
                    },
                    _ => {},
                }
            },
            None => {},
        }
        match &effect.proxy_report {
            Some(report) => match &continuation {
                Some(earlier) => self.check_second_input(earlier, report),
                None => self.check_input(report),
            },
            None => Ok(()),
        }
    }

    fn move_goal(&mut self, session_id: &String, effect: &GoalSettlementEffect)
        requires
            goal_refusal(old(self).goals@, session_id@, *effect) is None,
        ensures
            *final(self) == (StorageEngine { goals: final(self).goals, ..*old(self) }),
            final(self).goals@ == moved_goals(old(self).goals@, session_id@, *effect),
    {
        let place: usize = match self.check_goal(session_id, effect) {
            Ok(place) => place,
            Err(error) => {
                return ;
            },
        };
        let goal = match effect {
            GoalSettlementEffect::Continue { goal, .. } => goal,
            GoalSettlementEffect::Transition { goal, .. } => goal,
        };
        if matches!(goal.state, GoalState::Completed) {
            self.goals.remove(place);
        } else {
            self.goals[place] = goal.copy();
        }
    }

    fn accept_follow_ups(&mut self, effect: &RunSettlementEffect)
        requires
            ({
                let work = WorkTables { inputs: old(self).inputs@, runs: old(self).runs@ };
                let next = continuation_of(effect.goal_effect);
                let continued = match next {
                    Some(next) => with_input(work, next),
                    None => work,
                };
                &&& next is Some ==> input_refusal(work, next->0) is None
                &&& effect.proxy_report is Some ==> input_refusal(
                    continued,
                    *effect.proxy_report->0,
                ) is None
            }),
        ensures
            *final(self) == (StorageEngine {
                inputs: final(self).inputs,
                runs: final(self).runs,
                ..*old(self)
            }),
            (WorkTables { inputs: final(self).inputs@, runs: final(self).runs@ }) == work_after(
                WorkTables { inputs: old(self).inputs@, runs: old(self).runs@ },
                *effect,
            ),
    {
        match &effect.goal_effect {
            Some(goal_effect) => {
                match &**goal_effect {
                    GoalSettlementEffect::Continue { next_input, .. } => {
                        let _ = self.insert_input(next_input);
                    },
                    _ => {},
                }
            },
            None => {},
        }
        match &effect.proxy_report {
            Some(report) => {
                let _ = self.insert_input(report);
            },
            None => {},
        }
    }

    /// Ends a run: with its outcome, the move of its session's goal and the report to its
    /// session's controller, all or none.
    pub fn apply_run_settlement(
        &mut self,
        session_id: &String,
        run_id: &String,
        effect: &RunSettlementEffect,
        finished_at_ms: i64,
    ) -> (result: StorageResult<()>)
        ensures
            match settlement_refusal(settlement_tables(*old(self)), session_id@, run_id@, *effect) {
                Some(error) => {
                    &&& result is Err && result->Err_0@ == error
                    &&& *final(self) == *old(self)
                },
                None => {
                    &&& result is Ok
                    &&& *final(self) == (StorageEngine {
                        sessions: final(self).sessions,
                        inputs: final(self).inputs,
                        runs: final(self).runs,
                        goals: final(self).goals,
                        ..*old(self)
                    })
                    &&& settlement_tables(*final(self)) == settled(
                        settlement_tables(*old(self)),
                        session_id@,
                        run_id@,
                        *effect,
                        finished_at_ms,
                    )
                },
            },
    {
        let ghost tables = settlement_tables(*self);
        match self.check_run_settlement(session_id, run_id, effect) {
            Ok(_) => {},
            Err(error) => {
                return Err(error);
            },
        }
        let run: usize = match self.run_place(session_id, run_id) {
            Some(place) => place,
            None => {
                return Err(conflict("run cannot be settled"));
            },
        };
        let session: usize = match self.session_place(session_id) {
            Some(place) => place,
            None => {
                return Err(conflict("session does not exist"));
            },
        };
        match &effect.goal_effect {
            Some(goal_effect) => self.move_goal(session_id, goal_effect),
            None => {},
        }
        self.accept_follow_ups(effect);
        let ghost work = WorkTables { inputs: self.inputs@, runs: self.runs@ };
        assert(work == work_after(tables.work, *effect));
        assert(self.runs@[run as int] == tables.work.runs[run as int]);
        self.runs[run].status = effect.status;
        self.runs[run].cancel_requested = effect.cancel_requested;
        self.runs[run].error = match &effect.error {
            Some(error) => Some(error.copy()),
            None => None,
        };
        self.runs[run].finished_at_ms = Some(finished_at_ms);
        self.sessions[session].updated_at_ms = finished_at_ms;
        proof {
            let after = settled(tables, session_id@, run_id@, *effect, finished_at_ms);
            assert(self.runs@ =~= after.work.runs);
            assert(self.sessions@ =~= after.sessions);
        }
        Ok(())
    }
}

/// The tables that the purpose of an append touches.
pub struct PurposeTables {
    pub settlement: SettlementTables,
    pub exchanges: Seq<Arc<PendingExchange>>,
    pub starts: Seq<PendingStart>,
    pub child_exchanges: Seq<Arc<PendingExchange>>,
    pub child_starts: Seq<PendingStart>,
    pub activations: Seq<StoredSkillActivation>,
}

/// The tables of an engine that the purpose of an append touches.
pub open spec fn purpose_tables(engine: StorageEngine) -> PurposeTables {
    PurposeTables {
        settlement: settlement_tables(engine),
        exchanges: engine.pending_exchanges@,
        starts: engine.pending_starts@,
        child_exchanges: engine.child_pending_exchanges@,
        child_starts: engine.child_pending_starts@,
        activations: engine.skill_activations@,
    }
}

/// The condition of being the tool exchange of a run.
pub open spec fn is_run_exchange(
    receipt_id: Seq<char>,
    session_id: Seq<char>,
    run_id: Seq<char>,
) -> spec_fn(Arc<PendingExchange>) -> bool {
    |row: Arc<PendingExchange>|
        row.receipt_id@ == receipt_id && match row.target {
            PendingTarget::Run { session_id: session, run_id: run } => session@ == session_id
                && run@ == run_id,
            _ => false,
        }
}

/// The condition of being the tool exchange of a delegated task.
pub open spec fn is_child_exchange(
    receipt_id: Seq<char>,
    session_id: Seq<char>,
    child_task_id: Seq<char>,
) -> spec_fn(Arc<PendingExchange>) -> bool {
    |row: Arc<PendingExchange>|
        row.receipt_id@ == receipt_id && match row.target {
            PendingTarget::ChildTask { session_id: session, child_task_id: child } => session@
                == session_id && child@ == child_task_id,
            _ => false,
        }
}

/// The condition of having another receipt.
pub open spec fn has_other_receipt(receipt_id: Seq<char>) -> spec_fn(Arc<PendingExchange>) -> bool {
    |row: Arc<PendingExchange>| row.receipt_id@ != receipt_id
}

/// The condition of being the start of a call of another exchange.
pub open spec fn starts_other_receipt(receipt_id: Seq<char>) -> spec_fn(PendingStart) -> bool {
    |row: PendingStart| row.receipt_id@ != receipt_id
}

/// Why a run cannot take up its input.
pub open spec fn start_refusal(work: WorkTables, session_id: Seq<char>, run_id: Seq<char>) -> Option<
    Refusal,
> {
    let run = first(work.runs, is_run(session_id, run_id));
    if run is None || !(work.runs[run->0].status is Accepted) {
        Some(conflicting("run cannot be started"@))
    } else {
        let input = first(work.inputs, has_input_id(work.runs[run->0].input_id@));
        if input is None || !(work.inputs[input->0].state is Queued) {
            Some(conflicting("run cannot be started"@))
        } else {
            None
        }
    }
}

/// The tables after a run took up its input: the run is under way, and the input is committed.
pub open spec fn started(
    work: WorkTables,
    session_id: Seq<char>,
    run_id: Seq<char>,
    reasoning_effort: Option<String>,
    started_at_ms: i64,
) -> WorkTables {
    let run = first(work.runs, is_run(session_id, run_id))->0;
    let input = first(work.inputs, has_input_id(work.runs[run].input_id@))->0;
    WorkTables {
        inputs: work.inputs.update(
            input,
            StoredInput {
                state: InputState::Committed,
                queued_message: None,
                ..work.inputs[input]
            },
        ),
        runs: work.runs.update(
            run,
            RunRow {
                status: RunStatus::Running,
                started_at_ms: Some(started_at_ms),
                reasoning_effort,
                ..work.runs[run]
            },
        ),
    }
}

/// Why the purpose of an append cannot be carried out.
pub open spec fn purpose_refusal(
    tables: PurposeTables,
    target: ConversationStorageTarget,
    purpose: AppendPurpose,
) -> Option<Refusal> {
    match (target, purpose) {
        (_, AppendPurpose::Messages) => None,
        (
            ConversationStorageTarget::Session { session_id, run_id },
            AppendPurpose::UserMessage { reasoning_effort },
        ) => start_refusal(tables.settlement.work, session_id@, run_id@),
        (
            ConversationStorageTarget::Session { session_id, run_id },
            AppendPurpose::RunSettlement(effect),
        ) => settlement_refusal(tables.settlement, session_id@, run_id@, effect),
        (
            ConversationStorageTarget::Session { session_id, run_id },
            AppendPurpose::ToolExchange { receipt_id, skill_activations },
        ) => if !some_row(
            tables.exchanges,
            is_run_exchange(receipt_id@, session_id@, run_id@),
        ) {
            Some(conflicting("pending tool exchange does not exist"@))
        } else {
            match with_activations(tables.activations, skill_activations@) {
                Ok(_) => None,
                Err(error) => Some(error),
            }
        },
        (
            ConversationStorageTarget::ChildTask { session_id, child_task_id },
            AppendPurpose::ChildToolExchange { receipt_id },
        ) => if !some_row(
            tables.child_exchanges,
            is_child_exchange(receipt_id@, session_id@, child_task_id@),
        ) {
            Some(conflicting("pending tool exchange does not exist"@))
        } else {
            None
        },
        _ => Some(corrupt("append purpose does not match its target"@)),
    }
}

/// The tables after the purpose of an append was carried out.
pub open spec fn purpose_applied(
    tables: PurposeTables,
    target: ConversationStorageTarget,
    purpose: AppendPurpose,
    created_at_ms: i64,
) -> PurposeTables {
    match (target, purpose) {
        (
            ConversationStorageTarget::Session { session_id, run_id },
            AppendPurpose::UserMessage { reasoning_effort },
        ) => PurposeTables {
            settlement: SettlementTables {
                work: started(
                    tables.settlement.work,
                    session_id@,
                    run_id@,
                    reasoning_effort,
                    created_at_ms,
                ),
                ..tables.settlement
            },
            ..tables
        },
        (
            ConversationStorageTarget::Session { session_id, run_id },
            AppendPurpose::RunSettlement(effect),
        ) => PurposeTables {
            settlement: settled(
                tables.settlement,
                session_id@,
                run_id@,
                effect,
                created_at_ms,
            ),
            ..tables
        },
        (
            ConversationStorageTarget::Session { session_id, run_id },
            AppendPurpose::ToolExchange { receipt_id, skill_activations },
        ) => PurposeTables {
            exchanges: kept(tables.exchanges, has_other_receipt(receipt_id@)),
            starts: kept(tables.starts, starts_other_receipt(receipt_id@)),
            activations: tables.activations + skill_activations@,
            ..tables
        },
        (
            ConversationStorageTarget::ChildTask { session_id, child_task_id },
            AppendPurpose::ChildToolExchange { receipt_id },
        ) => PurposeTables {
            child_exchanges: kept(tables.child_exchanges, has_other_receipt(receipt_id@)),
            child_starts: kept(tables.child_starts, starts_other_receipt(receipt_id@)),
            ..tables
        },
        _ => tables,
    }
}

/// The frame of a purpose: the tables that it may touch are those of `after`.
pub open spec fn purpose_frame(before: StorageEngine, after: StorageEngine) -> StorageEngine {
    StorageEngine {
        sessions: after.sessions,
        inputs: after.inputs,
        runs: after.runs,
        goals: after.goals,
        pending_exchanges: after.pending_exchanges,
        pending_starts: after.pending_starts,
        child_pending_exchanges: after.child_pending_exchanges,
        child_pending_starts: after.child_pending_starts,
        skill_activations: after.skill_activations,
        ..before
    }
}

fn drop_exchange(
    exchanges: &mut Vec<Arc<PendingExchange>>,
    starts: &mut Vec<PendingStart>,
    receipt_id: &String,
)
    ensures
        final(exchanges)@ == kept(old(exchanges)@, has_other_receipt(receipt_id@)),
        final(starts)@ == kept(old(starts)@, starts_other_receipt(receipt_id@)),
{
    keep(
        exchanges,
        Ghost(has_other_receipt(receipt_id@)),
        |row: &Arc<PendingExchange>| -> (other: bool)
            ensures
                other == (row.receipt_id@ != receipt_id@)
            { !(row.receipt_id == *receipt_id) },
    );
    keep(
        starts,
        Ghost(starts_other_receipt(receipt_id@)),
        |row: &PendingStart| -> (other: bool)
            ensures
                other == (row.receipt_id@ != receipt_id@)
            { !(row.receipt_id == *receipt_id) },
    );
}

impl StorageEngine {
    fn start_places(&self, session_id: &String, run_id: &String) -> (result: StorageResult<
        (usize, usize),
    >)
        ensures
            match start_refusal(
                WorkTables { inputs: self.inputs@, runs: self.runs@ },
                session_id@,
                run_id@,
            ) {
                Some(error) => result is Err && result->Err_0@ == error,
                None => {
                    &&& result is Ok
                    &&& result->Ok_0.0 < self.runs@.len()
                    &&& result->Ok_0.1 < self.inputs@.len()
                    &&& first(self.runs@, is_run(session_id@, run_id@)) == Some(
                        result->Ok_0.0 as int,
                    )
                    &&& first(
                        self.inputs@,
                        has_input_id(self.runs@[result->Ok_0.0 as int].input_id@),
                    ) == Some(result->Ok_0.1 as int)
                },
            },
    {
        let run: usize = match self.run_place(session_id, run_id) {
            Some(place) => place,
            None => {
                return Err(conflict("run cannot be started"));
            },
        };
        if !matches!(self.runs[run].status, RunStatus::Accepted) {
            return Err(conflict("run cannot be started"));
        }
        let input: usize = match self.input_place(&self.runs[run].input_id) {
            Some(place) => place,
            None => {
                return Err(conflict("run cannot be started"));
            },
        };
        if !matches!(self.inputs[input].state, InputState::Queued) {
            return Err(conflict("run cannot be started"));
        }
        Ok((run, input))
    }

    fn has_run_exchange(&self, receipt_id: &String, session_id: &String, run_id: &String) -> (result:
        bool)
        ensures
            result == some_row(
                self.pending_exchanges@,
                is_run_exchange(receipt_id@, session_id@, run_id@),
            ),
    {
        any(
            &self.pending_exchanges,
            Ghost(is_run_exchange(receipt_id@, session_id@, run_id@)),
            |row: &Arc<PendingExchange>| -> (found: bool)
                ensures
                    found == is_run_exchange(receipt_id@, session_id@, run_id@)(*row)
                {
                    row.receipt_id == *receipt_id && match &row.target {
                        PendingTarget::Run { session_id: session, run_id: run } => *session
                            == *session_id && *run == *run_id,
                        _ => false,
                    }
                },
        )
    }

    fn has_child_exchange(
        &self,
        receipt_id: &String,
        session_id: &String,
        child_task_id: &String,
    ) -> (result: bool)
        ensures
            result == some_row(
                self.child_pending_exchanges@,
                is_child_exchange(receipt_id@, session_id@, child_task_id@),
            ),
    {
        any(
            &self.child_pending_exchanges,
            Ghost(is_child_exchange(receipt_id@, session_id@, child_task_id@)),
            |row: &Arc<PendingExchange>| -> (found: bool)
                ensures
                    found == is_child_exchange(receipt_id@, session_id@, child_task_id@)(*row)
                {
                    row.receipt_id == *receipt_id && match &row.target {
                        PendingTarget::ChildTask { session_id: session, child_task_id: child } => {
                            *session == *session_id && *child == *child_task_id
                        },
                        _ => false,
                    }
                },
        )
    }

    /// Whether the purpose of an append can be carried out.
    pub fn check_purpose(
        &self,
        target: &ConversationStorageTarget,
        purpose: &AppendPurpose,
    ) -> (result: StorageResult<()>)
        ensures
            match purpose_refusal(purpose_tables(*self), *target, *purpose) {
                Some(error) => result is Err && result->Err_0@ == error,
                None => result is Ok,
            },
    {
        match (target, purpose) {
            (_, AppendPurpose::Messages) => Ok(()),
            (
                ConversationStorageTarget::Session { session_id, run_id },
                AppendPurpose::UserMessage { reasoning_effort },
            ) => match self.start_places(session_id, run_id) {
                Ok(_) => Ok(()),
                Err(error) => Err(error),
            },
            (
                ConversationStorageTarget::Session { session_id, run_id },
                AppendPurpose::RunSettlement(effect),
            ) => self.check_run_settlement(session_id, run_id, effect),
            (
                ConversationStorageTarget::Session { session_id, run_id },
                AppendPurpose::ToolExchange { receipt_id, skill_activations },
            ) => {
                if !self.has_run_exchange(receipt_id, session_id, run_id) {
                    return Err(conflict("pending tool exchange does not exist"));
                }
                check_activations(&self.skill_activations, skill_activations)
            },
            (
                ConversationStorageTarget::ChildTask { session_id, child_task_id },
                AppendPurpose::ChildToolExchange { receipt_id },
            ) => {
                if !self.has_child_exchange(receipt_id, session_id, child_task_id) {
                    return Err(conflict("pending tool exchange does not exist"));
                }
                Ok(())
            },
            _ => Err(invalid_data("append purpose does not match its target")),
        }
    }

    fn start_run(
        &mut self,
        session_id: &String,
        run_id: &String,
        reasoning_effort: &Option<String>,
        started_at_ms: i64,
    ) -> (result: StorageResult<()>)
        ensures
            match start_refusal(
                WorkTables { inputs: old(self).inputs@, runs: old(self).runs@ },
                session_id@,
                run_id@,
            ) {
                Some(error) => {
                    &&& result is Err && result->Err_0@ == error
                    &&& *final(self) == *old(self)
                },
                None => {
                    &&& result is Ok
                    &&& *final(self) == (StorageEngine {
                        inputs: final(self).inputs,
                        runs: final(self).runs,
                        ..*old(self)
                    })
                    &&& (WorkTables { inputs: final(self).inputs@, runs: final(self).runs@ })
                        == started(
                        WorkTables { inputs: old(self).inputs@, runs: old(self).runs@ },
                        session_id@,
                        run_id@,
                        *reasoning_effort,
                        started_at_ms,
                    )
                },
            },
    {
        let (run, input) = match self.start_places(session_id, run_id) {
            Ok(places) => places,
            Err(error) => {
                return Err(error);
            },
        };
        let ghost after = started(
            WorkTables { inputs: self.inputs@, runs: self.runs@ },
            session_id@,
            run_id@,
            *reasoning_effort,
            started_at_ms,
        );
        self.runs[run].status = RunStatus::Running;
        self.runs[run].started_at_ms = Some(started_at_ms);
        self.runs[run].reasoning_effort = reasoning_effort.clone();
        self.inputs[input].state = InputState::Committed;
        self.inputs[input].queued_message = None;
        proof {
            assert(self.runs@ =~= after.runs);
            assert(self.inputs@ =~= after.inputs);
        }
        Ok(())
    }

    /// Carries out the purpose of an append, or changes nothing.
    pub fn apply_purpose(
        &mut self,
        target: &ConversationStorageTarget,
        purpose: &AppendPurpose,
        created_at_ms: i64,
    ) -> (result: StorageResult<()>)
        ensures
            match purpose_refusal(purpose_tables(*old(self)), *target, *purpose) {
                Some(error) => {
                    &&& result is Err && result->Err_0@ == error
                    &&& *final(self) == *old(self)
                },
                None => {
                    &&& result is Ok
                    &&& *final(self) == purpose_frame(*old(self), *final(self))
                    &&& purpose_tables(*final(self)) == purpose_applied(
                        purpose_tables(*old(self)),
                        *target,
                        *purpose,
                        created_at_ms,
                    )
                },
            },
    {
        match self.check_purpose(target, purpose) {
            Ok(_) => {},
            Err(error) => {
                return Err(error);
            },
        }
        match (target, purpose) {
            (
                ConversationStorageTarget::Session { session_id, run_id },
                AppendPurpose::UserMessage { reasoning_effort },
            ) => {
                return self.start_run(session_id, run_id, reasoning_effort, created_at_ms);
            },
            (
                ConversationStorageTarget::Session { session_id, run_id },
                AppendPurpose::RunSettlement(effect),
            ) => {
                return self.apply_run_settlement(session_id, run_id, effect, created_at_ms);
            },
            (
                ConversationStorageTarget::Session { session_id, run_id },
                AppendPurpose::ToolExchange { receipt_id, skill_activations },
            ) => {
                drop_exchange(&mut self.pending_exchanges, &mut self.pending_starts, receipt_id);
                append_activations(&mut self.skill_activations, skill_activations);
            },
            (
                ConversationStorageTarget::ChildTask { session_id, child_task_id },
                AppendPurpose::ChildToolExchange { receipt_id },
            ) => {
                drop_exchange(
                    &mut self.child_pending_exchanges,
                    &mut self.child_pending_starts,
                    receipt_id,
                );
            },
            _ => {},
        }
        Ok(())
    }
}

} // verus!
