//! How runs are taken up, started, retried and ended.

use vstd::prelude::*;

use crate::append_effect::{
    goal_refusal, input_inserted, input_refusal, is_goal, moved_goals, settled, settlement_refusal,
    start_refusal, started, terminal, top_order, with_input, GoalSettlementEffect,
    RunSettlementEffect, SettlementTables, WorkTables,
};
use crate::engine::{has_input_id, has_run_id, is_run, is_session, StorageEngine};
use crate::error::Refusal;
use crate::message::held;
use crate::recovery::CommittedBatch;
use crate::relations::{
    found_leads, goal_at, goal_is_found, input_at, input_is_found, leader_is_found, none_of, run_at,
    run_is_found, session_stands_where_found, stands_at,
};
use crate::rewriting_laws::{is_first_run, is_next_order, next_order_is_behind_all};
use crate::rows::{NewStoredInput, RunRow, SessionRow, StoredGoal, StoredInput};
use crate::run_loading::StoredRun;
use crate::run_projection::RunStatus;
use crate::run_state::{
    attempt_made, attempt_refusal, end_refusal, is_committed, is_exchange_of_run, is_run_for,
    next_attempt, resume_refusal, run_resumed, time_told, top_attempt, NewRunAttempt, RunSettlement,
    UserMessageCommit,
};
use crate::table::{first, first_is_found, some_row};
use crate::tool_exchange::PendingTarget;

verus! {

/// The row of an input that waits for its run.
pub open spec fn is_queued_input(row: StoredInput, new: NewStoredInput) -> bool {
    &&& row.kind is Message
    &&& row.input_id == new.input_id
    &&& row.session_id == new.session_id
    &&& row.idempotency_key == new.idempotency_key
    &&& row.agent_variant == new.agent_variant
    &&& row.origin == new.origin
    &&& row.goal_binding == new.goal_binding
    &&& row.cross_session == new.cross_session
    &&& row.channel_source == new.channel_source
    &&& row.user_message_id == new.user_message_id
    &&& row.state is Queued
    &&& row.queued_message == Some(new.message)
    &&& row.accepted_at_ms == new.accepted_at_ms
}

/// An input is taken in under identifiers that are free, as long as the queue has a place left.
pub open spec fn can_be_taken_in(work: WorkTables, new: NewStoredInput) -> bool {
    &&& forall|i: int|
        0 <= i < work.inputs.len() ==> (#[trigger] work.inputs[i]).input_id@ != new.input_id@
            && work.inputs[i].queue_order < i64::MAX
    &&& forall|i: int|
        0 <= i < work.runs.len() ==> (#[trigger] work.runs[i]).run_id@ != new.run_id@
}

/// An input is taken in exactly where its identifiers are free and the queue has a place left. It
/// comes behind all others, with a first run, and nothing else changes.
pub proof fn new_input_comes_last(work: WorkTables, new: NewStoredInput)
    ensures
        input_refusal(work, new) is None <==> can_be_taken_in(work, new),
        input_refusal(work, new) is None ==> {
            let after = with_input(work, new);
            &&& after.inputs.len() == work.inputs.len() + 1
            &&& after.inputs.drop_last() == work.inputs
            &&& is_queued_input(after.inputs.last(), new)
            &&& is_next_order(work.inputs, after.inputs.last().queue_order)
            &&& after.runs.len() == work.runs.len() + 1
            &&& after.runs.drop_last() == work.runs
            &&& is_first_run(after.runs.last(), new)
        },
{
    input_is_found(work.inputs, new.input_id@);
    let named = |run: RunRow| run.run_id@ == new.run_id@;
    leader_is_found(work.runs, has_run_id(new.run_id@), named);
    top_is_below(work.inputs, i64::MAX as int);
    if input_refusal(work, new) is None {
        next_order_is_behind_all(work.inputs);
        let after = with_input(work, new);
        assert(after.inputs.drop_last() =~= work.inputs);
        assert(after.runs.drop_last() =~= work.runs);
        assert forall|i: int| 0 <= i < work.inputs.len() implies (
        #[trigger] work.inputs[i]).input_id@ != new.input_id@ by {
            assert(!has_input_id(new.input_id@)(work.inputs[i]));
        }
        assert forall|i: int| 0 <= i < work.runs.len() implies (#[trigger] work.runs[i]).run_id@
            != new.run_id@ by {
            assert(!has_run_id(new.run_id@)(work.runs[i]));
        }
    }
    if can_be_taken_in(work, new) {
        if first(work.inputs, has_input_id(new.input_id@)) is Some {
            let i = first(work.inputs, has_input_id(new.input_id@))->0;
            assert(input_at(work.inputs, i, new.input_id@));
            assert(work.inputs[i].input_id@ == new.input_id@);
        }
        if first(work.runs, has_run_id(new.run_id@)) is Some {
            let i = first(work.runs, has_run_id(new.run_id@))->0;
            assert(named(work.runs[i]));
        }
    }
}

proof fn top_is_below(inputs: Seq<StoredInput>, limit: int)
    requires
        limit > 0,
    ensures
        top_order(inputs) < limit <==> forall|i: int|
            0 <= i < inputs.len() ==> (#[trigger] inputs[i]).queue_order < limit,
    decreases inputs.len(),
{
    if inputs.len() > 0 {
        let shorter = inputs.drop_last();
        top_is_below(shorter, limit);
        assert(inputs.last() == inputs[inputs.len() - 1]);
        if top_order(inputs) < limit {
            assert forall|i: int| 0 <= i < inputs.len() implies (
            #[trigger] inputs[i]).queue_order < limit by {
                if i < shorter.len() {
                    assert(shorter[i] == inputs[i]);
                }
            }
        }
        if forall|i: int| 0 <= i < inputs.len() ==> (#[trigger] inputs[i]).queue_order < limit {
            assert forall|i: int| 0 <= i < shorter.len() implies (
            #[trigger] shorter[i]).queue_order < limit by {
                assert(shorter[i] == inputs[i]);
            }
        }
    }
}

/// A run is started with its message exactly where it is accepted and its input waits. Then it runs,
/// its input waits no longer, and no other run or input changes.
pub proof fn accepted_runs_are_started(
    work: WorkTables,
    session_id: Seq<char>,
    run_id: Seq<char>,
    reasoning_effort: Option<String>,
    started_at_ms: i64,
)
    ensures
        start_refusal(work, session_id, run_id) is None <==> exists|i: int, k: int|
            #[trigger] run_at(work.runs, i, session_id, run_id) && #[trigger] input_at(
                work.inputs,
                k,
                work.runs[i].input_id@,
            ) && work.runs[i].status is Accepted && work.inputs[k].state is Queued,
        start_refusal(work, session_id, run_id) is None ==> forall|i: int, k: int|
            #[trigger] run_at(work.runs, i, session_id, run_id) && #[trigger] input_at(
                work.inputs,
                k,
                work.runs[i].input_id@,
            ) ==> {
                let after = started(work, session_id, run_id, reasoning_effort, started_at_ms);
                &&& after.runs.len() == work.runs.len()
                &&& after.inputs.len() == work.inputs.len()
                &&& after.runs[i].status is Running
                &&& after.runs[i].started_at_ms == Some(started_at_ms)
                &&& after.runs[i].reasoning_effort == reasoning_effort
                &&& after.runs[i] == (RunRow {
                    status: after.runs[i].status,
                    started_at_ms: after.runs[i].started_at_ms,
                    reasoning_effort: after.runs[i].reasoning_effort,
                    ..work.runs[i]
                })
                &&& after.inputs[k].state is Committed
                &&& after.inputs[k].queued_message is None
                &&& after.inputs[k] == (StoredInput {
                    state: after.inputs[k].state,
                    queued_message: None,
                    ..work.inputs[k]
                })
                &&& forall|j: int|
                    0 <= j < work.runs.len() && j != i ==> #[trigger] after.runs[j] == work.runs[j]
                &&& forall|j: int|
                    0 <= j < work.inputs.len() && j != k ==> #[trigger] after.inputs[j]
                        == work.inputs[j]
            },
{
    run_is_found(work.runs, session_id, run_id);
    if first(work.runs, is_run(session_id, run_id)) is Some {
        let i = first(work.runs, is_run(session_id, run_id))->0;
        input_is_found(work.inputs, work.runs[i].input_id@);
        assert(run_at(work.runs, i, session_id, run_id));
        if first(work.inputs, has_input_id(work.runs[i].input_id@)) is Some {
            let k = first(work.inputs, has_input_id(work.runs[i].input_id@))->0;
            assert(input_at(work.inputs, k, work.runs[i].input_id@));
        }
    }
}

/// A run that has not ended.
pub open spec fn goes_on(run: RunRow) -> bool {
    run.status is Accepted || run.status is Running || run.status is Cancelling
        || run.status is CompactionRequired
}

/// A state in which a run can be left: completed, failed, cancelled or interrupted.
pub proof fn runs_end_in_four_ways(status: RunStatus)
    ensures
        terminal(status) <==> !(status is Accepted || status is Running || status is Cancelling
            || status is CompactionRequired),
{
}

/// The end of a run is recorded in the run and in the time of its session, whatever else the end
/// sets in motion. Runs and inputs that were there stay as they are; new ones come behind them.
pub proof fn ended_runs_are_left_as_told(
    tables: SettlementTables,
    session_id: Seq<char>,
    run_id: Seq<char>,
    effect: RunSettlementEffect,
    finished_at_ms: i64,
    i: int,
    s: int,
)
    requires
        settlement_refusal(tables, session_id, run_id, effect) is None,
        run_at(tables.work.runs, i, session_id, run_id),
        stands_at(tables.sessions, s, session_id),
    ensures
        ({
            let after = settled(tables, session_id, run_id, effect, finished_at_ms);
            &&& goes_on(tables.work.runs[i])
            &&& after.work.runs.len() >= tables.work.runs.len()
            &&& after.work.inputs.len() >= tables.work.inputs.len()
            &&& after.work.runs[i].status == effect.status
            &&& after.work.runs[i].cancel_requested == effect.cancel_requested
            &&& after.work.runs[i].error == effect.error
            &&& after.work.runs[i].finished_at_ms == Some(finished_at_ms)
            &&& after.work.runs[i] == (RunRow {
                status: effect.status,
                cancel_requested: effect.cancel_requested,
                error: effect.error,
                finished_at_ms: Some(finished_at_ms),
                ..tables.work.runs[i]
            })
            &&& forall|j: int|
                0 <= j < tables.work.runs.len() && j != i ==> #[trigger] after.work.runs[j]
                    == tables.work.runs[j]
            &&& forall|j: int|
                0 <= j < tables.work.inputs.len() ==> #[trigger] after.work.inputs[j]
                    == tables.work.inputs[j]
            &&& after.sessions.len() == tables.sessions.len()
            &&& after.sessions[s] == (SessionRow {
                updated_at_ms: finished_at_ms,
                ..tables.sessions[s]
            })
            &&& forall|j: int|
                0 <= j < tables.sessions.len() && j != s ==> #[trigger] after.sessions[j]
                    == tables.sessions[j]
        }),
        effect.goal_effect is None ==> settled(
            tables,
            session_id,
            run_id,
            effect,
            finished_at_ms,
        ).goals == tables.goals,
{
    run_is_found(tables.work.runs, session_id, run_id);
    session_stands_where_found(tables.sessions, session_id);
}

/// What the end of a run sets in motion: first the continuation of a goal, then a report to the
/// session that the work was done for. Each is a new input with a first run, behind all others.
pub proof fn ended_runs_set_the_next_in_motion(
    tables: SettlementTables,
    session_id: Seq<char>,
    run_id: Seq<char>,
    effect: RunSettlementEffect,
    finished_at_ms: i64,
)
    requires
        settlement_refusal(tables, session_id, run_id, effect) is None,
    ensures
        ({
            let after = settled(tables, session_id, run_id, effect, finished_at_ms);
            let old_inputs = tables.work.inputs;
            let old_runs = tables.work.runs;
            let n = old_inputs.len() as int;
            let m = old_runs.len() as int;
            match (next_of_goal(effect), effect.proxy_report) {
                (None, None) => after.work.inputs.len() == n && after.work.runs.len() == m,
                (Some(new), None) => {
                    &&& after.work.inputs.len() == n + 1
                    &&& after.work.runs.len() == m + 1
                    &&& is_queued_input(after.work.inputs[n], new)
                    &&& is_next_order(old_inputs, after.work.inputs[n].queue_order)
                    &&& is_first_run(after.work.runs[m], new)
                },
                (None, Some(report)) => {
                    &&& after.work.inputs.len() == n + 1
                    &&& after.work.runs.len() == m + 1
                    &&& is_queued_input(after.work.inputs[n], held(report))
                    &&& is_next_order(old_inputs, after.work.inputs[n].queue_order)
                    &&& is_first_run(after.work.runs[m], held(report))
                },
                (Some(new), Some(report)) => {
                    &&& after.work.inputs.len() == n + 2
                    &&& after.work.runs.len() == m + 2
                    &&& is_queued_input(after.work.inputs[n], new)
                    &&& is_next_order(old_inputs, after.work.inputs[n].queue_order)
                    &&& is_first_run(after.work.runs[m], new)
                    &&& is_queued_input(after.work.inputs[n + 1], held(report))
                    &&& after.work.inputs[n + 1].queue_order == after.work.inputs[n].queue_order + 1
                    &&& is_first_run(after.work.runs[m + 1], held(report))
                },
            }
        }),
{
    run_is_found(tables.work.runs, session_id, run_id);
    match next_of_goal(effect) {
        Some(new) => {
            new_input_comes_last(tables.work, new);
            let continued = with_input(tables.work, new);
            assert(continued.inputs[tables.work.inputs.len() as int] == continued.inputs.last());
            match effect.proxy_report {
                Some(report) => {
                    new_input_comes_last(continued, held(report));
                    let reported = with_input(continued, held(report));
                    let n = tables.work.inputs.len() as int;
                    assert(reported.inputs.last() == reported.inputs[n + 1]);
                    assert(reported.inputs[n + 1].queue_order > reported.inputs[n].queue_order) by {
                        assert(continued.inputs[n].queue_order
                            < reported.inputs.last().queue_order);
                    }
                    let top = reported.inputs[n + 1].queue_order;
                    let j = choose|j: int|
                        0 <= j < continued.inputs.len() && (
                        #[trigger] continued.inputs[j]).queue_order == top - 1;
                    if j < n {
                        assert(tables.work.inputs[j] == continued.inputs[j]);
                    }
                },
                None => {},
            }
        },
        None => {
            match effect.proxy_report {
                Some(report) => {
                    new_input_comes_last(tables.work, held(report));
                    let reported = with_input(tables.work, held(report));
                    assert(reported.inputs[tables.work.inputs.len() as int]
                        == reported.inputs.last());
                },
                None => {},
            }
        },
    }
}

/// The input by which a goal goes on, where it goes on.
pub open spec fn next_of_goal(effect: RunSettlementEffect) -> Option<NewStoredInput> {
    match effect.goal_effect {
        Some(effect) => match held(effect) {
            GoalSettlementEffect::Continue { next_input, .. } => Some(held(next_input)),
            GoalSettlementEffect::Transition { .. } => None,
        },
        None => None,
    }
}

/// What the end of a run expects of a goal and makes of it: identifier, generation, new value.
pub open spec fn goal_step(effect: GoalSettlementEffect) -> (Seq<char>, u64, StoredGoal) {
    match effect {
        GoalSettlementEffect::Continue { expected_goal_id, expected_generation, goal, .. } => (
            expected_goal_id@,
            expected_generation,
            goal,
        ),
        GoalSettlementEffect::Transition { expected_goal_id, expected_generation, goal, .. } => (
            expected_goal_id@,
            expected_generation,
            goal,
        ),
    }
}

/// The goal that the end of a run is about takes the value that the end gives it, and is gone where
/// that is completed. Other goals stay.
pub proof fn ended_runs_move_their_goal(
    goals: Seq<StoredGoal>,
    session_id: Seq<char>,
    effect: GoalSettlementEffect,
    g: int,
)
    requires
        goal_at(goals, g, session_id, goal_step(effect).0, goal_step(effect).1),
    ensures
        goal_step(effect).2.state is Completed ==> moved_goals(goals, session_id, effect)
            == goals.subrange(0, g) + goals.subrange(g + 1, goals.len() as int),
        !(goal_step(effect).2.state is Completed) ==> {
            let after = moved_goals(goals, session_id, effect);
            &&& after.len() == goals.len()
            &&& after[g] == goal_step(effect).2
            &&& forall|j: int|
                0 <= j < goals.len() && j != g ==> #[trigger] after[j] == goals[j]
        },
{
    goal_is_found(goals, session_id, goal_step(effect).0, goal_step(effect).1);
    assert(goals.remove(g) =~= goals.subrange(0, g) + goals.subrange(
        g + 1,
        goals.len() as int,
    ));
}

/// A goal moves exactly where it is still the one that the end of the run expects, keeps its session
/// and identifier, and goes on, if it does, with an input of its session for its next turn.
pub proof fn goals_move_as_expected(
    goals: Seq<StoredGoal>,
    session_id: Seq<char>,
    effect: GoalSettlementEffect,
)
    ensures
        goal_refusal(goals, session_id, effect) is None <==> {
            let (goal_id, generation, goal) = goal_step(effect);
            &&& exists|g: int| #[trigger] goal_at(goals, g, session_id, goal_id, generation)
            &&& goal.session_id@ == session_id
            &&& goal.goal_id@ == goal_id
            &&& match effect {
                GoalSettlementEffect::Continue { next_input, .. } => {
                    let binding = held(next_input).goal_binding;
                    &&& held(next_input).session_id@ == session_id
                    &&& binding is Some
                    &&& binding->0.goal_id@ == goal_id
                    &&& binding->0.generation == goal.generation
                    &&& binding->0.turn == goal.turn
                },
                GoalSettlementEffect::Transition { .. } => true,
            }
        },
{
    let (goal_id, generation, goal) = goal_step(effect);
    goal_is_found(goals, session_id, goal_id, generation);
    if first(goals, is_goal(session_id, goal_id, generation)) is Some {
        assert(goal_at(
            goals,
            first(goals, is_goal(session_id, goal_id, generation))->0,
            session_id,
            goal_id,
            generation,
        ));
    }
}

/// The end of a run takes effect exactly where the run goes on, its session is there, its goal moves
/// as expected, and what it sets in motion can be taken in.
pub proof fn runs_end_once(
    tables: SettlementTables,
    session_id: Seq<char>,
    run_id: Seq<char>,
    effect: RunSettlementEffect,
)
    ensures
        settlement_refusal(tables, session_id, run_id, effect) is None <==> {
            &&& exists|i: int| #[trigger]
                run_at(tables.work.runs, i, session_id, run_id) && goes_on(tables.work.runs[i])
            &&& exists|s: int| #[trigger] stands_at(tables.sessions, s, session_id)
            &&& match effect.goal_effect {
                Some(goal_effect) => goal_refusal(
                    tables.goals,
                    session_id,
                    held(goal_effect),
                ) is None,
                None => true,
            }
            &&& match next_of_goal(effect) {
                Some(new) => can_be_taken_in(tables.work, new),
                None => true,
            }
            &&& match effect.proxy_report {
                Some(report) => can_be_taken_in(
                    match next_of_goal(effect) {
                        Some(new) => with_input(tables.work, new),
                        None => tables.work,
                    },
                    held(report),
                ),
                None => true,
            }
        },
{
    run_is_found(tables.work.runs, session_id, run_id);
    session_stands_where_found(tables.sessions, session_id);
    if first(tables.work.runs, is_run(session_id, run_id)) is Some {
        assert(run_at(
            tables.work.runs,
            first(tables.work.runs, is_run(session_id, run_id))->0,
            session_id,
            run_id,
        ));
    }
    if first(tables.sessions, is_session(session_id)) is Some {
        assert(stands_at(
            tables.sessions,
            first(tables.sessions, is_session(session_id))->0,
            session_id,
        ));
    }
    match next_of_goal(effect) {
        Some(new) => {
            new_input_comes_last(tables.work, new);
            match effect.proxy_report {
                Some(report) => {
                    new_input_comes_last(with_input(tables.work, new), held(report));
                },
                None => {},
            }
        },
        None => {
            match effect.proxy_report {
                Some(report) => {
                    new_input_comes_last(tables.work, held(report));
                },
                None => {},
            }
        },
    }
}

/// A run is retried exactly where it failed or was interrupted, no later attempt was made for its
/// input, the input is there and the new identifier is free.
pub proof fn last_attempts_are_retried(engine: StorageEngine, attempt: NewRunAttempt)
    ensures
        attempt_refusal(engine, attempt) is None <==> exists|i: int, k: int|
            {
                &&& #[trigger] run_at(
                    engine.runs@,
                    i,
                    attempt.session_id@,
                    attempt.source_run_id@,
                )
                &&& #[trigger] input_at(engine.inputs@, k, engine.runs@[i].input_id@)
                &&& engine.runs@[i].status is Failed || engine.runs@[i].status is Interrupted
                &&& engine.runs@[i].attempt < u32::MAX
                &&& is_last_attempt(engine.runs@, engine.runs@[i])
                &&& is_free_run_id(engine.runs@, attempt.run_id@)
            },
{
    run_is_found(engine.runs@, attempt.session_id@, attempt.source_run_id@);
    if first(engine.runs@, is_run(attempt.session_id@, attempt.source_run_id@)) is Some {
        let i = first(engine.runs@, is_run(attempt.session_id@, attempt.source_run_id@))->0;
        let source = engine.runs@[i];
        assert(run_at(engine.runs@, i, attempt.session_id@, attempt.source_run_id@));
        attempts_are_bounded(engine.runs@, source.input_id@);
        if top_attempt(engine.runs@, source.input_id@) == source.attempt {
            assert(is_last_attempt(engine.runs@, source));
        }
        if is_last_attempt(engine.runs@, source) {
            assert(top_attempt(engine.runs@, source.input_id@) == source.attempt);
        }
        input_is_found(engine.inputs@, source.input_id@);
        if first(engine.inputs@, has_input_id(source.input_id@)) is Some {
            assert(input_at(
                engine.inputs@,
                first(engine.inputs@, has_input_id(source.input_id@))->0,
                source.input_id@,
            ));
        }
    }
    let named = |run: RunRow| run.run_id@ == attempt.run_id@;
    found_leads(engine.runs@, has_run_id(attempt.run_id@), named);
    if is_free_run_id(engine.runs@, attempt.run_id@) {
        assert(none_of(engine.runs@, named));
    } else {
        let k = choose|k: int|
            0 <= k < engine.runs@.len() && (#[trigger] engine.runs@[k]).run_id@ == attempt.run_id@;
        assert(named(engine.runs@[k]));
    }
}

/// No later attempt was made for the input of a run.
pub open spec fn is_last_attempt(runs: Seq<RunRow>, run: RunRow) -> bool {
    forall|k: int|
        0 <= k < runs.len() && (#[trigger] runs[k]).input_id@ == run.input_id@ ==> runs[k].attempt
            <= run.attempt
}

/// An identifier that no run has.
pub open spec fn is_free_run_id(runs: Seq<RunRow>, run_id: Seq<char>) -> bool {
    forall|k: int| 0 <= k < runs.len() ==> (#[trigger] runs[k]).run_id@ != run_id
}

proof fn attempts_are_bounded(runs: Seq<RunRow>, input_id: Seq<char>)
    ensures
        top_attempt(runs, input_id) >= 0,
        forall|k: int|
            0 <= k < runs.len() && (#[trigger] runs[k]).input_id@ == input_id ==> runs[k].attempt
                <= top_attempt(runs, input_id),
        top_attempt(runs, input_id) == 0 || exists|k: int|
            0 <= k < runs.len() && (#[trigger] runs[k]).input_id@ == input_id && runs[k].attempt
                == top_attempt(runs, input_id),
    decreases runs.len(),
{
    if runs.len() > 0 {
        let shorter = runs.drop_last();
        attempts_are_bounded(shorter, input_id);
        assert forall|k: int|
            0 <= k < runs.len() && (#[trigger] runs[k]).input_id@ == input_id implies runs[k].attempt
            <= top_attempt(runs, input_id) by {
            if k < shorter.len() {
                assert(shorter[k] == runs[k]);
            }
        }
        if top_attempt(runs, input_id) != 0 {
            if top_attempt(runs, input_id) == top_attempt(shorter, input_id) {
                let k = choose|k: int|
                    0 <= k < shorter.len() && (#[trigger] shorter[k]).input_id@ == input_id
                        && shorter[k].attempt == top_attempt(shorter, input_id);
                assert(runs[k] == shorter[k]);
            } else {
                assert(runs[runs.len() - 1].attempt == top_attempt(runs, input_id));
            }
        }
    }
}

/// The next attempt of a run is a new one for the same input that has not begun.
pub proof fn next_attempts_start_afresh(source: RunRow, attempt: NewRunAttempt)
    requires
        source.attempt < u32::MAX,
    ensures
        ({
            let row = next_attempt(source, attempt);
            &&& row.run_id == attempt.run_id
            &&& row.session_id == attempt.session_id
            &&& row.input_id == source.input_id
            &&& row.attempt == source.attempt + 1
            &&& row.status is Accepted
            &&& !row.cancel_requested
            &&& row.approval_mode == attempt.approval_mode
            &&& row.reasoning_effort is None
            &&& row.error is None
            &&& row.created_at_ms == attempt.created_at_ms
            &&& row.started_at_ms is None
            &&& row.finished_at_ms is None
        }),
{
}

/// A run is resumed without a message exactly where it is accepted for that input in that session
/// and the input's message is in the conversation.
pub proof fn committed_inputs_are_resumed(engine: StorageEngine, commit: UserMessageCommit)
    ensures
        resume_refusal(engine, commit) is None <==> {
            &&& exists|i: int|
                0 <= i < engine.runs@.len() && (#[trigger] engine.runs@[i]).run_id@
                    == commit.run_id@ && engine.runs@[i].session_id@ == commit.session_id@
                    && engine.runs@[i].input_id@ == commit.input_id@
                    && engine.runs@[i].status is Accepted
            &&& exists|k: int|
                0 <= k < engine.inputs@.len() && (#[trigger] engine.inputs@[k]).input_id@
                    == commit.input_id@ && engine.inputs@[k].state is Committed
        },
{
    let run = is_run_for(commit.session_id@, commit.run_id@, commit.input_id@);
    first_is_found(engine.runs@, run);
    if exists|i: int|
        0 <= i < engine.runs@.len() && (#[trigger] engine.runs@[i]).run_id@ == commit.run_id@
            && engine.runs@[i].session_id@ == commit.session_id@ && engine.runs@[i].input_id@
            == commit.input_id@ && engine.runs@[i].status is Accepted {
        let i = choose|i: int|
            0 <= i < engine.runs@.len() && (#[trigger] engine.runs@[i]).run_id@ == commit.run_id@
                && engine.runs@[i].session_id@ == commit.session_id@ && engine.runs@[i].input_id@
                == commit.input_id@ && engine.runs@[i].status is Accepted;
        assert(run(engine.runs@[i]));
    }
    if exists|k: int|
        0 <= k < engine.inputs@.len() && (#[trigger] engine.inputs@[k]).input_id@
            == commit.input_id@ && engine.inputs@[k].state is Committed {
        let k = choose|k: int|
            0 <= k < engine.inputs@.len() && (#[trigger] engine.inputs@[k]).input_id@
                == commit.input_id@ && engine.inputs@[k].state is Committed;
        assert(is_committed(commit.input_id@)(engine.inputs@[k]));
    }
    if some_row(engine.inputs@, is_committed(commit.input_id@)) {
        let k = choose|k: int|
            0 <= k < engine.inputs@.len() && is_committed(commit.input_id@)(
                #[trigger] engine.inputs@[k],
            );
        assert(engine.inputs@[k].input_id@ == commit.input_id@);
    }
}

/// A time that was measured is told as it is where it can be stored, and not told else.
pub proof fn times_are_told_as_measured(elapsed: Option<u128>)
    ensures
        time_told(elapsed) is Ok <==> elapsed is Some && elapsed->0 <= i64::MAX,
        time_told(elapsed) is Ok ==> time_told(elapsed)->Ok_0 == elapsed->0,
{
}

/// A run is ended exactly where it is left in a state that ends it, no tool exchange of it waits,
/// and its end can take effect.
pub proof fn runs_end_without_open_exchanges(engine: StorageEngine, settlement: RunSettlement)
    ensures
        end_refusal(engine, settlement) is None <==> {
            &&& !(settlement.effect.status is Accepted)
            &&& !(settlement.effect.status is Running)
            &&& !(settlement.effect.status is Cancelling)
            &&& !(settlement.effect.status is CompactionRequired)
            &&& forall|k: int|
                0 <= k < engine.pending_exchanges@.len() ==> match held(
                    #[trigger] engine.pending_exchanges@[k],
                ).target {
                    PendingTarget::Run { run_id, .. } => run_id@ != settlement.run_id@,
                    PendingTarget::ChildTask { .. } => true,
                }
            &&& settlement_refusal(
                SettlementTables {
                    sessions: engine.sessions@,
                    work: WorkTables { inputs: engine.inputs@, runs: engine.runs@ },
                    goals: engine.goals@,
                },
                settlement.session_id@,
                settlement.run_id@,
                settlement.effect,
            ) is None
        },
{
    let open = is_exchange_of_run(settlement.run_id@);
    if some_row(engine.pending_exchanges@, open) {
        let k = choose|k: int|
            0 <= k < engine.pending_exchanges@.len() && open(#[trigger] engine.pending_exchanges@[k]);
        assert(held(engine.pending_exchanges@[k]).target is Run);
    } else {
        assert forall|k: int| 0 <= k < engine.pending_exchanges@.len() implies match held(
            #[trigger] engine.pending_exchanges@[k],
        ).target {
            PendingTarget::Run { run_id, .. } => run_id@ != settlement.run_id@,
            PendingTarget::ChildTask { .. } => true,
        } by {
            assert(!open(engine.pending_exchanges@[k]));
        }
    }
}

/// An input that is taken in comes behind all others, with a first run; nothing else changes. It is
/// taken in exactly where its identifiers are free and the queue has a place left.
pub proof fn inputs_are_taken_in_behind_all_others(
    before: StorageEngine,
    after: StorageEngine,
    new: NewStoredInput,
    outcome: Result<(), Refusal>,
)
    requires
        input_inserted(before, after, new, outcome),
    ensures
        outcome is Ok <==> can_be_taken_in(
            WorkTables { inputs: before.inputs@, runs: before.runs@ },
            new,
        ),
        outcome is Err ==> after == before,
        outcome is Ok ==> {
            &&& after == (StorageEngine { inputs: after.inputs, runs: after.runs, ..before })
            &&& after.inputs@.len() == before.inputs@.len() + 1
            &&& after.inputs@.drop_last() == before.inputs@
            &&& is_queued_input(after.inputs@.last(), new)
            &&& is_next_order(before.inputs@, after.inputs@.last().queue_order)
            &&& after.runs@.len() == before.runs@.len() + 1
            &&& after.runs@.drop_last() == before.runs@
            &&& is_first_run(after.runs@.last(), new)
        },
{
    let work = WorkTables { inputs: before.inputs@, runs: before.runs@ };
    new_input_comes_last(work, new);
}

/// The next attempt comes behind the other runs and is told to the caller, with nothing done yet.
pub proof fn attempts_are_added_and_told(
    before: StorageEngine,
    after: StorageEngine,
    attempt: NewRunAttempt,
    outcome: Result<StoredRun, Refusal>,
    i: int,
    k: int,
)
    requires
        attempt_made(before, after, attempt, outcome),
        run_at(before.runs@, i, attempt.session_id@, attempt.source_run_id@),
        input_at(before.inputs@, k, before.runs@[i].input_id@),
    ensures
        outcome is Err ==> after == before,
        outcome is Ok ==> {
            let row = after.runs@.last();
            let run = outcome->Ok_0;
            &&& after == (StorageEngine { runs: after.runs, ..before })
            &&& after.runs@.len() == before.runs@.len() + 1
            &&& after.runs@.drop_last() == before.runs@
            &&& row.run_id == attempt.run_id
            &&& row.session_id == attempt.session_id
            &&& row.input_id == before.runs@[i].input_id
            &&& row.attempt == before.runs@[i].attempt + 1
            &&& row.status is Accepted
            &&& run.run_id == attempt.run_id
            &&& run.session_id == attempt.session_id
            &&& run.input_id == before.runs@[i].input_id
            &&& run.attempt == before.runs@[i].attempt + 1
            &&& run.status is Accepted
            &&& run.agent_variant == before.inputs@[k].agent_variant
            &&& run.approval_mode == attempt.approval_mode
            &&& run.reasoning_effort is None
            &&& !run.cancel_requested
            &&& run.error is None
            &&& run.message_ids@.len() == 0
            &&& run.message_steps@.len() == 0
            &&& run.created_at_ms == attempt.created_at_ms
            &&& run.started_at_ms is None
            &&& run.finished_at_ms is None
        },
{
    run_is_found(before.runs@, attempt.session_id@, attempt.source_run_id@);
    input_is_found(before.inputs@, before.runs@[i].input_id@);
    if outcome is Ok {
        assert(after.runs@.drop_last() =~= before.runs@);
        next_attempts_start_afresh(before.runs@[i], attempt);
    }
}

/// A run that is resumed runs, since then and with the effort given; nothing else of it changes, and
/// no other run or input.
pub proof fn resumed_runs_run(
    before: StorageEngine,
    after: StorageEngine,
    commit: UserMessageCommit,
    outcome: Result<Option<CommittedBatch>, Refusal>,
)
    requires
        run_resumed(before, after, commit, outcome),
    ensures
        outcome is Err ==> after == before,
        outcome is Ok ==> outcome->Ok_0 is None,
        outcome is Ok ==> after == (StorageEngine { runs: after.runs, ..before }),
        outcome is Ok ==> after.runs@.len() == before.runs@.len() && exists|i: int|
            {
                &&& 0 <= i < before.runs@.len()
                &&& (#[trigger] before.runs@[i]).run_id@ == commit.run_id@
                &&& before.runs@[i].session_id@ == commit.session_id@
                &&& before.runs@[i].input_id@ == commit.input_id@
                &&& before.runs@[i].status is Accepted
                &&& after.runs@[i] == (RunRow {
                    status: RunStatus::Running,
                    started_at_ms: Some(commit.created_at_ms),
                    reasoning_effort: commit.reasoning_effort,
                    ..before.runs@[i]
                })
                &&& forall|j: int|
                    0 <= j < before.runs@.len() && j != i ==> #[trigger] after.runs@[j]
                        == before.runs@[j]
            },
{
    let condition = is_run_for(commit.session_id@, commit.run_id@, commit.input_id@);
    first_is_found(before.runs@, condition);
    if outcome is Ok {
        let i = first(before.runs@, condition)->0;
        assert(condition(before.runs@[i]));
        assert(before.runs@[i].run_id@ == commit.run_id@);
    }
}

} // verus!
