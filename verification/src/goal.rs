//! Goals across a restart.

use vstd::prelude::*;

use crate::cascade::inputs_removed;
use crate::engine::StorageEngine;
use crate::error::{conflict, conflicting, StorageResult};
use crate::rows::{GoalPauseReason, GoalState, InputOrigin, InputState, StoredGoal, StoredInput};
use crate::session_rewrite::input_key;
use crate::table::{any, kept, listed, some_row};
use crate::text::{holds_text, lists};

verus! {

/// A goal that runs, of one session or of any.
pub open spec fn is_running(scope: Option<String>, goal: StoredGoal) -> bool {
    goal.state is Running && (scope is None || goal.session_id@ == scope->0@)
}

/// The condition of being a goal that runs.
pub open spec fn runs_in(scope: Option<String>) -> spec_fn(StoredGoal) -> bool {
    |goal: StoredGoal| is_running(scope, goal)
}

/// The condition of being a goal that runs and cannot change any more.
pub open spec fn is_exhausted(scope: Option<String>) -> spec_fn(StoredGoal) -> bool {
    |goal: StoredGoal| is_running(scope, goal) && goal.generation == u64::MAX
}

/// A goal after a restart: one that ran waits for its user.
pub open spec fn after_restart(scope: Option<String>, goal: StoredGoal) -> StoredGoal {
    if is_running(scope, goal) {
        StoredGoal {
            state: GoalState::Paused,
            pause_reason: Some(GoalPauseReason::RecoveryRequired),
            generation: (goal.generation + 1) as u64,
            ..goal
        }
    } else {
        goal
    }
}

pub open spec fn goal_key() -> spec_fn(StoredGoal) -> String {
    |goal: StoredGoal| goal.goal_id
}

/// The goals that run.
pub open spec fn running_goals(goals: Seq<StoredGoal>, scope: Option<String>) -> Seq<String> {
    kept(goals, runs_in(scope)).map_values(goal_key())
}

/// The condition of being an input that the runtime queued for a goal of a list.
pub open spec fn is_stale_continuation(goals: Seq<String>) -> spec_fn(StoredInput) -> bool {
    |row: StoredInput|
        row.state is Queued && row.origin is Runtime && row.goal_binding is Some && lists(
            goals,
            row.goal_binding->0.goal_id@,
        )
}

/// The inputs that the runtime queued for goals of a list.
pub open spec fn stale_continuations(inputs: Seq<StoredInput>, goals: Seq<String>) -> Seq<String> {
    kept(inputs, is_stale_continuation(goals)).map_values(input_key())
}

/// The engine with the goals that ran waiting for their users, and without what was queued for
/// them.
pub open spec fn goals_paused(
    before: StorageEngine,
    after: StorageEngine,
    scope: Option<String>,
) -> bool {
    let gone = stale_continuations(before.inputs@, running_goals(before.goals@, scope));
    exists|cut: StorageEngine| #[trigger]
        inputs_removed(before, cut, gone) && after == (StorageEngine {
            goals: after.goals,
            ..cut
        }) && after.goals@ == before.goals@.map_values(
            |goal: StoredGoal| after_restart(scope, goal),
        )
}

impl StorageEngine {
    /// Lets the goals that ran before a restart, of one session or of all, wait for their users.
    pub fn pause_running_goals_for_recovery(&mut self, scope: &Option<String>) -> (result:
        StorageResult<()>)
        ensures
            some_row(old(self).goals@, is_exhausted(*scope)) ==> {
                &&& result is Err && result->Err_0@ == conflicting("goal generation is exhausted"@)
                &&& *final(self) == *old(self)
            },
            !some_row(old(self).goals@, is_exhausted(*scope)) ==> result is Ok && goals_paused(
                *old(self),
                *final(self),
                *scope,
            ),
    {
        if any(
            &self.goals,
            Ghost(is_exhausted(*scope)),
            |goal: &StoredGoal| -> (found: bool)
                ensures
                    found == is_exhausted(*scope)(*goal)
                { runs(scope, goal) && goal.generation == u64::MAX },
        ) {
            return Err(conflict("goal generation is exhausted"));
        }
        let ids = listed(
            &self.goals,
            Ghost(runs_in(*scope)),
            |goal: &StoredGoal| -> (found: bool)
                ensures
                    found == is_running(*scope, *goal)
                { runs(scope, goal) },
            Ghost(goal_key()),
            |goal: &StoredGoal| -> (id: String)
                ensures
                    id == goal.goal_id
                { goal.goal_id.clone() },
        );
        let gone = listed(
            &self.inputs,
            Ghost(is_stale_continuation(ids@)),
            |row: &StoredInput| -> (found: bool)
                ensures
                    found == is_stale_continuation(ids@)(*row)
                {
                    matches!(row.state, InputState::Queued) && matches!(
                        row.origin,
                        InputOrigin::Runtime
                    ) && match &row.goal_binding {
                        Some(binding) => holds_text(&ids, binding.goal_id.as_str()),
                        None => false,
                    }
                },
            Ghost(input_key()),
            |row: &StoredInput| -> (id: String)
                ensures
                    id == row.input_id
                { row.input_id.clone() },
        );
        let _ = self.remove_inputs(&gone);
        let ghost cut = *self;
        let mut i: usize = 0;
        while i < self.goals.len()
            invariant
                i <= self.goals@.len(),
                *self == (StorageEngine { goals: self.goals, ..cut }),
                self.goals@.len() == cut.goals@.len(),
                !some_row(cut.goals@, is_exhausted(*scope)),
                forall|k: int|
                    0 <= k < i ==> #[trigger] self.goals@[k] == after_restart(
                        *scope,
                        cut.goals@[k],
                    ),
                forall|k: int|
                    i <= k < cut.goals@.len() ==> #[trigger] self.goals@[k] == cut.goals@[k],
            decreases self.goals@.len() - i,
        {
            if runs(scope, &self.goals[i]) {
                proof {
                    assert(self.goals@[i as int] == cut.goals@[i as int]);
                    assert(!is_exhausted(*scope)(cut.goals@[i as int]));
                }
                self.goals[i].state = GoalState::Paused;
                self.goals[i].pause_reason = Some(GoalPauseReason::RecoveryRequired);
                self.goals[i].generation = self.goals[i].generation + 1;
            }
            i += 1;
        }
        proof {
            assert(self.goals@ =~= cut.goals@.map_values(
                |goal: StoredGoal| after_restart(*scope, goal),
            ));
            let all = stale_continuations(
                old(self).inputs@,
                running_goals(old(self).goals@, *scope),
            );
            assert(gone@ == all);
            assert(inputs_removed(*old(self), cut, all));
        }
        Ok(())
    }
}

fn runs(scope: &Option<String>, goal: &StoredGoal) -> (result: bool)
    ensures
        result == is_running(*scope, *goal),
{
    matches!(goal.state, GoalState::Running) && match scope {
        None => true,
        Some(session_id) => goal.session_id == *session_id,
    }
}

/// A goal that waits since a restart is left alone by the next one.
pub proof fn goals_pause_once(scope: Option<String>, goal: StoredGoal)
    ensures
        after_restart(scope, after_restart(scope, goal)) == after_restart(scope, goal),
{
}

} // verus!
