//! Taking a conversation back to an earlier input: what came after it goes, and another input
//! takes its place.

use std::sync::Arc;
use vstd::prelude::*;

use crate::append_effect::{first_run, is_goal, top_order, ConversationStorageTarget};
use crate::append_laws::{generations_do_not_share_bodies, written_replacement_is_read};
use crate::cascade::{child_out, children_of, input_out, inputs_removed, run_out, runs_of};
use crate::conversation::RecordedMessage;
use crate::engine::{
    bodies, child_body_path, current_conversation, has_input_id, has_run_id, is_session,
    lies_in_a_task, path_component, remove_body, session_body_path, session_path, task_directory,
    task_paths, StorageEngine,
};
use crate::error::{
    conflict, conflicting, failed, internal_error, invalid_input, malformed, outcome_of, Refusal,
    StorageResult,
};
use crate::idle::working;
use crate::message::{key_of, message_id, share};
use crate::numbers::{to_i64, STORED_MAX};
use crate::recovery::{
    main_target, planned, replacement_refusal, replacement_written, resolved, ReplacementPlan,
};
use crate::rows::{
    ChildTaskRow, InputKind, InputOrigin, InputState, NewStoredInput, RunMessageRef, RunRow,
    SessionLifecycle, SessionRow, SkillActivationOwner, StoredGoal, StoredInput,
    StoredSkillActivation,
};
use crate::run_loading::StoredRun;
use crate::run_projection::RunStatus;
use crate::session_management::place_of_session;
use crate::table::{
    any, first, first_after_update, first_is_found, keep, kept, kept_rows, listed, position,
    some_kept_row, some_row,
};
use crate::text::{has_prefix, holds_text, lists};

verus! {

/// A goal that pauses because the turn it followed from is taken back.
#[derive(Debug, PartialEq, Eq)]
pub struct GoalPause {
    pub expected_goal_id: String,
    pub expected_generation: u64,
    pub goal: StoredGoal,
}

/// A conversation to go on with instead, ending with the message of another input.
#[derive(Debug)]
pub struct ConversationRewrite {
    pub session_id: String,
    pub target_user_message_id: String,
    pub conversation: Vec<Arc<RecordedMessage>>,
    pub input: NewStoredInput,
    pub goal_effect: Option<GoalPause>,
    pub changed_at_ms: i64,
}

/// The input and run that a conversation goes on with, and the tasks that went with what it took
/// back.
#[derive(Debug)]
pub struct RewriteResult {
    pub input: StoredInput,
    pub run: StoredRun,
    pub body_generation: u64,
    pub removed_child_task_ids: Vec<String>,
}

/// The condition of being the committed input of a session that a message came from.
pub open spec fn is_source_of(session_id: Seq<char>, message_id: Seq<char>) -> spec_fn(
    StoredInput,
) -> bool {
    |row: StoredInput|
        row.session_id@ == session_id && row.user_message_id@ == message_id
            && row.state is Committed
}

/// The condition of being an input of a session that is not before a place in the queue.
pub open spec fn is_taken_back(session_id: Seq<char>, order: i64) -> spec_fn(StoredInput) -> bool {
    |row: StoredInput| row.session_id@ == session_id && row.queue_order >= order
}

/// The inputs of a session that are not before a place in the queue.
pub open spec fn taken_back(inputs: Seq<StoredInput>, session_id: Seq<char>, order: i64) -> Seq<
    String,
> {
    kept(inputs, is_taken_back(session_id, order)).map_values(input_key())
}

pub open spec fn input_key() -> spec_fn(StoredInput) -> String {
    |row: StoredInput| row.input_id
}

/// Why a request to rewrite makes no sense.
pub open spec fn request_refusal(engine: StorageEngine, rewrite: ConversationRewrite) -> Option<
    Refusal,
> {
    let messages = rewrite.conversation@;
    if rewrite.input.session_id@ != rewrite.session_id@ || messages.len() == 0 || key_of(
        *messages.last().message,
    )@ != rewrite.input.user_message_id@ {
        Some(malformed("replacement input does not match conversation"@))
    } else if first(
        engine.inputs@,
        is_source_of(rewrite.session_id@, rewrite.target_user_message_id@),
    ) is None {
        Some(conflicting("target user message does not belong to an input"@))
    } else {
        None
    }
}

/// The place in the queue from which on inputs are taken back.
pub open spec fn target_order(engine: StorageEngine, rewrite: ConversationRewrite) -> i64 {
    engine.inputs@[first(
        engine.inputs@,
        is_source_of(rewrite.session_id@, rewrite.target_user_message_id@),
    )->0].queue_order
}

/// The condition of being an activation that a conversation still bears out.
pub open spec fn is_borne_out(
    session_id: Seq<char>,
    messages: Seq<Arc<RecordedMessage>>,
) -> spec_fn(StoredSkillActivation) -> bool {
    |row: StoredSkillActivation|
        row.session_id@ != session_id || !(row.owner is Session) || records_message(
            messages,
            row.message_id@,
        )
}

/// Some record is of the message with an identifier.
pub open spec fn records_message(messages: Seq<Arc<RecordedMessage>>, id: Seq<char>) -> bool {
    exists|i: int|
        0 <= i < messages.len() && key_of(*(#[trigger] messages[i]).message)@ == id
}

/// Why a conversation that is written cannot take the place of the one that counts.
pub open spec fn rewrite_refusal(
    engine: StorageEngine,
    plan: ReplacementPlan,
    rewrite: ConversationRewrite,
    order: i64,
) -> Option<Refusal> {
    let gone = taken_back(engine.inputs@, rewrite.session_id@, order);
    let inputs = kept(engine.inputs@, input_out(gone));
    let runs = kept(engine.runs@, run_out(gone));
    let place = first(engine.sessions@, is_session(plan.session_id@));
    if !path_component(plan.session_id@) {
        Some(malformed("session id is not a directory name"@))
    } else if plan.new_generation > STORED_MAX {
        Some(malformed("body generation exceeds SQLite range"@))
    } else if plan.message_count > STORED_MAX {
        Some(malformed("message count exceeds SQLite range"@))
    } else if plan.previous_generation > STORED_MAX {
        Some(malformed("body generation exceeds SQLite range"@))
    } else if place is None || engine.sessions@[place->0].body_generation
        != plan.previous_generation || !(engine.sessions@[place->0].lifecycle is Active)
        || working(engine, plan.session_id@) {
        Some(conflicting("session is not available for history replacement"@))
    } else if rewrite.goal_effect is Some && pause_refusal(
        engine.goals@,
        rewrite.session_id@,
        rewrite.goal_effect->0,
    ) is Some {
        pause_refusal(engine.goals@, rewrite.session_id@, rewrite.goal_effect->0)
    } else if some_row(inputs, has_input_id(rewrite.input.input_id@)) {
        Some(conflicting("replacement input could not be created"@))
    } else if top_order(inputs) >= i64::MAX {
        Some(failed("queue order exceeds runtime range"@))
    } else if some_row(runs, has_run_id(rewrite.input.run_id@)) {
        Some(conflicting("replacement run could not be created"@))
    } else {
        None
    }
}

/// Why a goal cannot be paused.
pub open spec fn pause_refusal(
    goals: Seq<StoredGoal>,
    session_id: Seq<char>,
    pause: GoalPause,
) -> Option<Refusal> {
    if first(
        goals,
        is_goal(session_id, pause.expected_goal_id@, pause.expected_generation),
    ) is None || pause.goal.session_id@ != session_id || pause.goal.goal_id@
        != pause.expected_goal_id@ {
        Some(conflicting("goal changed before rewrite"@))
    } else {
        None
    }
}

/// The input that a conversation goes on with. Its message is in the conversation already.
pub open spec fn replacing_input(new: NewStoredInput, order: i64) -> StoredInput {
    StoredInput {
        queue_order: order,
        kind: InputKind::Message,
        input_id: new.input_id,
        session_id: new.session_id,
        idempotency_key: new.idempotency_key,
        agent_variant: new.agent_variant,
        origin: InputOrigin::User,
        goal_binding: None,
        cross_session: None,
        channel_source: new.channel_source,
        user_message_id: new.user_message_id,
        state: InputState::Committed,
        queued_message: None,
        accepted_at_ms: new.accepted_at_ms,
    }
}

/// The engine with the conversation taken back: its written continuation counts, and nothing is
/// left of the inputs behind it.
pub open spec fn rewritten(
    before: StorageEngine,
    after: StorageEngine,
    plan: ReplacementPlan,
    rewrite: ConversationRewrite,
    order: i64,
) -> bool {
    let gone = taken_back(before.inputs@, rewrite.session_id@, order);
    exists|cut: StorageEngine| #[trigger]
        inputs_removed(before, cut, gone) && went_on(
            cut,
            after,
            plan,
            rewrite,
            tasks_of(before, gone),
        )
}

/// The tasks that were delegated for inputs of a list.
pub open spec fn tasks_of(engine: StorageEngine, gone: Seq<String>) -> Seq<String> {
    children_of(engine.child_tasks@, runs_of(engine.runs@, gone))
}

/// The engine with another input in the place of those taken back, and without the bodies of the
/// tasks that were delegated for them.
pub open spec fn went_on(
    cut: StorageEngine,
    after: StorageEngine,
    plan: ReplacementPlan,
    rewrite: ConversationRewrite,
    tasks: Seq<String>,
) -> bool {
    let place = place_of_session(cut, plan.session_id@);
    &&& after == (StorageEngine {
        files: after.files,
        sessions: after.sessions,
        goals: after.goals,
        skill_activations: after.skill_activations,
        inputs: after.inputs,
        runs: after.runs,
        run_message_refs: after.run_message_refs,
        ..cut
    })
    &&& after.sessions@ == cut.sessions@.update(
        place,
        SessionRow {
            body_generation: plan.new_generation,
            message_count: plan.message_count,
            current_variant: rewrite.input.agent_variant,
            ..cut.sessions@[place]
        },
    )
    &&& after.goals@ == match rewrite.goal_effect {
        Some(pause) => cut.goals@.update(
            first(
                cut.goals@,
                is_goal(
                    rewrite.session_id@,
                    pause.expected_goal_id@,
                    pause.expected_generation,
                ),
            )->0,
            pause.goal,
        ),
        None => cut.goals@,
    }
    &&& after.skill_activations@ == kept(
        cut.skill_activations@,
        is_borne_out(rewrite.session_id@, rewrite.conversation@),
    )
    &&& after.inputs@ == cut.inputs@.push(
        replacing_input(rewrite.input, (top_order(cut.inputs@) + 1) as i64),
    )
    &&& after.runs@ == cut.runs@.push(first_run(rewrite.input))
    &&& after.run_message_refs@ == cut.run_message_refs@.push(
        RunMessageRef {
            run_id: rewrite.input.run_id,
            message_id: rewrite.input.user_message_id,
            step: None,
        },
    )
    &&& bodies(after.files@) == bodies(cut.files@).remove(
        session_body_path(
            cut.sessions_directory@,
            plan.session_id@,
            plan.previous_generation,
        ),
    ).remove_keys(task_paths(cut.sessions_directory@, plan.session_id@, tasks))
}

/// The input and run that a conversation goes on with, as the runtime sees them.
pub open spec fn is_rewrite_result(
    before: StorageEngine,
    plan: ReplacementPlan,
    rewrite: ConversationRewrite,
    order: i64,
    result: RewriteResult,
) -> bool {
    let gone = taken_back(before.inputs@, rewrite.session_id@, order);
    let inputs = kept(before.inputs@, input_out(gone));
    let run = first_run(rewrite.input);
    &&& result.input == (StoredInput {
        origin: rewrite.input.origin,
        goal_binding: rewrite.input.goal_binding,
        cross_session: rewrite.input.cross_session,
        ..replacing_input(rewrite.input, (top_order(inputs) + 1) as i64)
    })
    &&& result.run.run_id == run.run_id
    &&& result.run.session_id == run.session_id
    &&& result.run.input_id == run.input_id
    &&& result.run.attempt == 1
    &&& result.run.status is Accepted
    &&& result.run.agent_variant == rewrite.input.agent_variant
    &&& result.run.approval_mode == run.approval_mode
    &&& result.run.reasoning_effort is None
    &&& !result.run.cancel_requested
    &&& result.run.error is None
    &&& result.run.message_ids@ == seq![rewrite.input.user_message_id]
    &&& result.run.message_steps@.len() == 0
    &&& result.run.created_at_ms == run.created_at_ms
    &&& result.run.started_at_ms is None
    &&& result.run.finished_at_ms is None
    &&& result.body_generation == plan.new_generation
    &&& result.removed_child_task_ids@ == tasks_of(before, gone)
}

/// The engine after a request to rewrite. A written continuation that cannot count is removed
/// again.
pub open spec fn rewrite_attempted(
    before: StorageEngine,
    after: StorageEngine,
    rewrite: ConversationRewrite,
    outcome: Result<RewriteResult, Refusal>,
) -> bool {
    if request_refusal(before, rewrite) is Some {
        after == before && outcome == Err::<RewriteResult, _>(request_refusal(before, rewrite)->0)
    } else if replacement_refusal(before, rewrite.session_id, rewrite.conversation@) is Some {
        after == before && outcome == Err::<RewriteResult, _>(
            replacement_refusal(before, rewrite.session_id, rewrite.conversation@)->0,
        )
    } else {
        let plan = planned(
            before,
            rewrite.session_id,
            rewrite.conversation@,
            rewrite.changed_at_ms,
        );
        exists|prepared: StorageEngine| #[trigger]
            replacement_written(
                before,
                prepared,
                rewrite.session_id,
                rewrite.conversation@,
                plan,
            ) && rewrite_committed(
                prepared,
                after,
                plan,
                rewrite,
                target_order(before, rewrite),
                outcome,
            )
    }
}

/// The engine after an attempt to let a written continuation count.
pub open spec fn rewrite_committed(
    prepared: StorageEngine,
    after: StorageEngine,
    plan: ReplacementPlan,
    rewrite: ConversationRewrite,
    order: i64,
    outcome: Result<RewriteResult, Refusal>,
) -> bool {
    match rewrite_refusal(prepared, plan, rewrite, order) {
        Some(error) => {
            &&& outcome == Err::<RewriteResult, _>(error)
            &&& after == (StorageEngine { files: after.files, ..prepared })
            &&& bodies(after.files@) == bodies(prepared.files@).remove(
                session_body_path(
                    prepared.sessions_directory@,
                    plan.session_id@,
                    plan.new_generation,
                ),
            )
        },
        None => {
            &&& outcome is Ok
            &&& is_rewrite_result(prepared, plan, rewrite, order, outcome->Ok_0)
            &&& rewritten(prepared, after, plan, rewrite, order)
        },
    }
}

fn order_without(inputs: &Vec<StoredInput>, gone: &Vec<String>) -> (order: i64)
    ensures
        order == top_order(kept(inputs@, input_out(gone@))),
        order >= 0,
{
    let ghost condition = input_out(gone@);
    let mut order: i64 = 0;
    let mut i: usize = 0;
    proof {
        assert(inputs@.take(0) =~= Seq::empty());
    }
    while i < inputs.len()
        invariant
            i <= inputs@.len(),
            condition == input_out(gone@),
            order == top_order(kept(inputs@.take(i as int), condition)),
            order >= 0,
        decreases inputs@.len() - i,
    {
        let ghost earlier = kept(inputs@.take(i as int), condition);
        proof {
            assert(inputs@.take(i + 1).drop_last() =~= inputs@.take(i as int));
            assert(inputs@.take(i + 1).last() == inputs@[i as int]);
            assert(earlier.push(inputs@[i as int]).drop_last() =~= earlier);
        }
        if !holds_text(gone, inputs[i].input_id.as_str()) && inputs[i].queue_order > order {
            order = inputs[i].queue_order;
        }
        i += 1;
    }
    proof {
        assert(inputs@.take(inputs@.len() as int) =~= inputs@);
    }
    order
}

fn holds_record_of(messages: &Vec<Arc<RecordedMessage>>, id: &String) -> (result: bool)
    ensures
        result == records_message(messages@, id@),
{
    let mut i: usize = 0;
    while i < messages.len()
        invariant
            i <= messages@.len(),
            forall|j: int| 0 <= j < i ==> key_of(*(#[trigger] messages@[j]).message)@ != id@,
        decreases messages@.len() - i,
    {
        if *message_id(&messages[i].message) == *id {
            return true;
        }
        i += 1;
    }
    false
}

impl StorageEngine {
    /// Takes a conversation back to the message of an input, and lets it go on with another one.
    pub fn rewrite_from_user(
        &mut self,
        rewrite: &ConversationRewrite,
    ) -> (result: StorageResult<RewriteResult>)
        ensures
            rewrite_attempted(*old(self), *final(self), *rewrite, outcome_of(result)),
    {
        let length: usize = rewrite.conversation.len();
        if rewrite.input.session_id != rewrite.session_id || length == 0 || *message_id(
            &rewrite.conversation[length - 1].message,
        ) != rewrite.input.user_message_id {
            return Err(invalid_input("replacement input does not match conversation"));
        }
        let session_id = &rewrite.session_id;
        let source_id = &rewrite.target_user_message_id;
        let order: i64 = match position(
            &self.inputs,
            Ghost(is_source_of(session_id@, source_id@)),
            |row: &StoredInput| -> (found: bool)
                ensures
                    found == is_source_of(session_id@, source_id@)(*row)
                {
                    row.session_id == *session_id && row.user_message_id == *source_id && matches!(
                        row.state,
                        InputState::Committed
                    )
                },
        ) {
            Some(place) => self.inputs[place].queue_order,
            None => {
                return Err(conflict("target user message does not belong to an input"));
            },
        };
        let mut messages: Vec<Arc<RecordedMessage>> = Vec::new();
        let mut i: usize = 0;
        while i < rewrite.conversation.len()
            invariant
                i <= rewrite.conversation@.len(),
                messages@ =~= rewrite.conversation@.take(i as int),
            decreases rewrite.conversation@.len() - i,
        {
            messages.push(share(&rewrite.conversation[i]));
            i += 1;
        }
        proof {
            assert(messages@ =~= rewrite.conversation@);
        }
        let plan = match self.begin_replacement(session_id, messages, rewrite.changed_at_ms) {
            Ok(plan) => plan,
            Err(error) => {
                return Err(error);
            },
        };
        let ghost prepared = *self;
        let result = match self.commit_rewrite(&plan, rewrite, order) {
            Ok(result) => Ok(result),
            Err(error) => {
                let target = ConversationStorageTarget::Session {
                    session_id: session_id.clone(),
                    run_id: session_id.clone(),
                };
                match self.target_body_path(&target, plan.new_generation) {
                    Ok(path) => remove_body(&mut self.files, &path),
                    Err(_) => {},
                }
                Err(error)
            },
        };
        proof {
            assert(replacement_written(
                *old(self),
                prepared,
                *session_id,
                rewrite.conversation@,
                plan,
            ));
            assert(rewrite_committed(
                prepared,
                *self,
                plan,
                *rewrite,
                order,
                outcome_of(result),
            ));
        }
        result
    }

    fn check_rewrite(
        &self,
        plan: &ReplacementPlan,
        rewrite: &ConversationRewrite,
        gone: &Vec<String>,
        Ghost(order): Ghost<i64>,
    ) -> (result: StorageResult<(usize, Option<usize>)>)
        requires
            gone@ == taken_back(self.inputs@, rewrite.session_id@, order),
        ensures
            match rewrite_refusal(*self, *plan, *rewrite, order) {
                Some(error) => result is Err && result->Err_0@ == error,
                None => {
                    &&& result is Ok
                    &&& result->Ok_0.0 == place_of_session(*self, plan.session_id@)
                    &&& result->Ok_0.0 < self.sessions@.len()
                    &&& match rewrite.goal_effect {
                        Some(pause) => result->Ok_0.1 is Some && result->Ok_0.1->0
                            < self.goals@.len() && first(
                            self.goals@,
                            is_goal(
                                rewrite.session_id@,
                                pause.expected_goal_id@,
                                pause.expected_generation,
                            ),
                        ) == Some(result->Ok_0.1->0 as int),
                        None => result->Ok_0.1 is None,
                    }
                },
            },
    {
        match self.session_directory(&plan.session_id) {
            Ok(_) => {},
            Err(error) => {
                return Err(error);
            },
        }
        match to_i64(plan.new_generation, "body generation exceeds SQLite range") {
            Ok(_) => {},
            Err(error) => {
                return Err(error);
            },
        }
        match to_i64(plan.message_count, "message count exceeds SQLite range") {
            Ok(_) => {},
            Err(error) => {
                return Err(error);
            },
        }
        match to_i64(plan.previous_generation, "body generation exceeds SQLite range") {
            Ok(_) => {},
            Err(error) => {
                return Err(error);
            },
        }
        let place: usize = match self.session_place(&plan.session_id) {
            Some(place) => place,
            None => {
                return Err(conflict("session is not available for history replacement"));
            },
        };
        if self.sessions[place].body_generation != plan.previous_generation || !matches!(
            self.sessions[place].lifecycle,
            SessionLifecycle::Active
        ) || self.is_working(&plan.session_id) {
            return Err(conflict("session is not available for history replacement"));
        }
        let session_id = &rewrite.session_id;
        let goal: Option<usize> = match &rewrite.goal_effect {
            None => None,
            Some(pause) => match position(
                &self.goals,
                Ghost(is_goal(session_id@, pause.expected_goal_id@, pause.expected_generation)),
                |row: &StoredGoal| -> (found: bool)
                    ensures
                        found == is_goal(
                            session_id@,
                            pause.expected_goal_id@,
                            pause.expected_generation,
                        )(*row)
                    {
                        row.session_id == *session_id && row.goal_id == pause.expected_goal_id
                            && row.generation == pause.expected_generation
                    },
            ) {
                Some(goal) => {
                    if pause.goal.session_id != *session_id || pause.goal.goal_id
                        != pause.expected_goal_id {
                        return Err(conflict("goal changed before rewrite"));
                    }
                    Some(goal)
                },
                None => {
                    return Err(conflict("goal changed before rewrite"));
                },
            },
        };
        let input_id = &rewrite.input.input_id;
        let run_id = &rewrite.input.run_id;
        let ghost input_stays = |row: StoredInput|
            !lists(gone@, row.input_id@) && row.input_id@ == input_id@;
        let ghost run_stays = |row: RunRow| !lists(gone@, row.input_id@) && row.run_id@ == run_id@;
        proof {
            some_kept_row(
                self.inputs@,
                input_out(gone@),
                has_input_id(input_id@),
                input_stays,
            );
            some_kept_row(self.runs@, run_out(gone@), has_run_id(run_id@), run_stays);
        }
        if any(
            &self.inputs,
            Ghost(input_stays),
            |row: &StoredInput| -> (same: bool)
                ensures
                    same == (!lists(gone@, row.input_id@) && row.input_id@ == input_id@)
                { !holds_text(gone, row.input_id.as_str()) && row.input_id == *input_id },
        ) {
            return Err(conflict("replacement input could not be created"));
        }
        if order_without(&self.inputs, gone) == i64::MAX {
            return Err(internal_error("queue order exceeds runtime range"));
        }
        if any(
            &self.runs,
            Ghost(run_stays),
            |row: &RunRow| -> (same: bool)
                ensures
                    same == (!lists(gone@, row.input_id@) && row.run_id@ == run_id@)
                { !holds_text(gone, row.input_id.as_str()) && row.run_id == *run_id },
        ) {
            return Err(conflict("replacement run could not be created"));
        }
        Ok((place, goal))
    }

    /// Lets a written continuation count, in the place of what is taken back.
    pub fn commit_rewrite(
        &mut self,
        plan: &ReplacementPlan,
        rewrite: &ConversationRewrite,
        order: i64,
    ) -> (result: StorageResult<RewriteResult>)
        ensures
            match rewrite_refusal(*old(self), *plan, *rewrite, order) {
                Some(error) => {
                    &&& result is Err && result->Err_0@ == error
                    &&& *final(self) == *old(self)
                },
                None => {
                    &&& result is Ok
                    &&& is_rewrite_result(*old(self), *plan, *rewrite, order, result->Ok_0)
                    &&& rewritten(*old(self), *final(self), *plan, *rewrite, order)
                },
            },
    {
        let session_id = &rewrite.session_id;
        let gone = listed(
            &self.inputs,
            Ghost(is_taken_back(session_id@, order)),
            |row: &StoredInput| -> (goes: bool)
                ensures
                    goes == is_taken_back(session_id@, order)(*row)
                { row.session_id == *session_id && row.queue_order >= order },
            Ghost(input_key()),
            |row: &StoredInput| -> (id: String)
                ensures
                    id == row.input_id
                { row.input_id.clone() },
        );
        let (place, goal) = match self.check_rewrite(plan, rewrite, &gone, Ghost(order)) {
            Ok(places) => places,
            Err(error) => {
                return Err(error);
            },
        };
        let queue_order: i64 = order_without(&self.inputs, &gone) + 1;
        let removed_child_task_ids = self.remove_inputs(&gone);
        let ghost cut = *self;
        self.go_on(plan, rewrite, place, goal, queue_order, &removed_child_task_ids);
        proof {
            assert(inputs_removed(*old(self), cut, gone@));
        }
        let mut message_ids: Vec<String> = Vec::new();
        message_ids.push(rewrite.input.user_message_id.clone());
        proof {
            assert(message_ids@ =~= seq![rewrite.input.user_message_id]);
        }
        Ok(
            RewriteResult {
                input: StoredInput {
                    queue_order,
                    kind: InputKind::Message,
                    input_id: rewrite.input.input_id.clone(),
                    session_id: rewrite.input.session_id.clone(),
                    idempotency_key: rewrite.input.idempotency_key.clone(),
                    agent_variant: rewrite.input.agent_variant,
                    origin: rewrite.input.origin,
                    goal_binding: match &rewrite.input.goal_binding {
                        Some(binding) => Some(binding.copy()),
                        None => None,
                    },
                    cross_session: match &rewrite.input.cross_session {
                        Some(binding) => Some(binding.copy()),
                        None => None,
                    },
                    channel_source: rewrite.input.channel_source.clone(),
                    user_message_id: rewrite.input.user_message_id.clone(),
                    state: InputState::Committed,
                    queued_message: None,
                    accepted_at_ms: rewrite.input.accepted_at_ms,
                },
                run: StoredRun {
                    run_id: rewrite.input.run_id.clone(),
                    session_id: rewrite.input.session_id.clone(),
                    input_id: rewrite.input.input_id.clone(),
                    attempt: 1,
                    status: RunStatus::Accepted,
                    agent_variant: rewrite.input.agent_variant,
                    approval_mode: rewrite.input.approval_mode,
                    reasoning_effort: None,
                    cancel_requested: false,
                    error: None,
                    message_ids,
                    message_steps: Vec::new(),
                    created_at_ms: rewrite.input.accepted_at_ms,
                    started_at_ms: None,
                    finished_at_ms: None,
                },
                body_generation: plan.new_generation,
                removed_child_task_ids,
            },
        )
    }

    fn go_on(
        &mut self,
        plan: &ReplacementPlan,
        rewrite: &ConversationRewrite,
        place: usize,
        goal: Option<usize>,
        queue_order: i64,
        tasks: &Vec<String>,
    )
        requires
            path_component(plan.session_id@),
            place == place_of_session(*old(self), plan.session_id@),
            place < old(self).sessions@.len(),
            queue_order == top_order(old(self).inputs@) + 1,
            match rewrite.goal_effect {
                Some(pause) => goal is Some && goal->0 < old(self).goals@.len() && first(
                    old(self).goals@,
                    is_goal(
                        rewrite.session_id@,
                        pause.expected_goal_id@,
                        pause.expected_generation,
                    ),
                ) == Some(goal->0 as int),
                None => goal is None,
            },
        ensures
            went_on(*old(self), *final(self), *plan, *rewrite, tasks@),
    {
        let ghost rows = self.sessions@;
        self.sessions[place].body_generation = plan.new_generation;
        self.sessions[place].message_count = plan.message_count;
        self.sessions[place].current_variant = rewrite.input.agent_variant;
        proof {
            assert(self.sessions@ =~= rows.update(
                place as int,
                SessionRow {
                    body_generation: plan.new_generation,
                    message_count: plan.message_count,
                    current_variant: rewrite.input.agent_variant,
                    ..rows[place as int]
                },
            ));
        }
        match (&rewrite.goal_effect, goal) {
            (Some(pause), Some(goal)) => {
                self.goals[goal] = pause.goal.copy();
            },
            _ => {},
        }
        let session_id = &rewrite.session_id;
        let conversation = &rewrite.conversation;
        keep(
            &mut self.skill_activations,
            Ghost(is_borne_out(session_id@, conversation@)),
            |row: &StoredSkillActivation| -> (stays: bool)
                ensures
                    stays == is_borne_out(session_id@, conversation@)(*row)
                {
                    row.session_id != *session_id || !matches!(
                        row.owner,
                        SkillActivationOwner::Session(_)
                    ) || holds_record_of(conversation, &row.message_id)
                },
        );
        self.inputs.push(
            StoredInput {
                queue_order,
                kind: InputKind::Message,
                input_id: rewrite.input.input_id.clone(),
                session_id: rewrite.input.session_id.clone(),
                idempotency_key: rewrite.input.idempotency_key.clone(),
                agent_variant: rewrite.input.agent_variant,
                origin: InputOrigin::User,
                goal_binding: None,
                cross_session: None,
                channel_source: rewrite.input.channel_source.clone(),
                user_message_id: rewrite.input.user_message_id.clone(),
                state: InputState::Committed,
                queued_message: None,
                accepted_at_ms: rewrite.input.accepted_at_ms,
            },
        );
        self.runs.push(
            RunRow {
                run_id: rewrite.input.run_id.clone(),
                session_id: rewrite.input.session_id.clone(),
                input_id: rewrite.input.input_id.clone(),
                attempt: 1,
                status: RunStatus::Accepted,
                cancel_requested: false,
                approval_mode: rewrite.input.approval_mode,
                reasoning_effort: None,
                error: None,
                created_at_ms: rewrite.input.accepted_at_ms,
                started_at_ms: None,
                finished_at_ms: None,
            },
        );
        self.run_message_refs.push(
            RunMessageRef {
                run_id: rewrite.input.run_id.clone(),
                message_id: rewrite.input.user_message_id.clone(),
                step: None,
            },
        );
        let target = ConversationStorageTarget::Session {
            session_id: plan.session_id.clone(),
            run_id: plan.session_id.clone(),
        };
        match self.target_body_path(&target, plan.previous_generation) {
            Ok(path) => remove_body(&mut self.files, &path),
            Err(_) => {},
        }
        self.remove_task_bodies(&plan.session_id, tasks);
    }
}

/// After a rewrite the conversation is the continuation that was given.
pub proof fn rewritten_conversation_is_read_back(
    before: StorageEngine,
    prepared: StorageEngine,
    after: StorageEngine,
    rewrite: ConversationRewrite,
    order: i64,
)
    requires
        replacement_refusal(before, rewrite.session_id, rewrite.conversation@) is None,
        replacement_written(
            before,
            prepared,
            rewrite.session_id,
            rewrite.conversation@,
            planned(before, rewrite.session_id, rewrite.conversation@, rewrite.changed_at_ms),
        ),
        rewrite_refusal(
            prepared,
            planned(before, rewrite.session_id, rewrite.conversation@, rewrite.changed_at_ms),
            rewrite,
            order,
        ) is None,
        rewritten(
            prepared,
            after,
            planned(before, rewrite.session_id, rewrite.conversation@, rewrite.changed_at_ms),
            rewrite,
            order,
        ),
    ensures
        current_conversation(after, main_target(rewrite.session_id)) == Ok::<_, Refusal>(
            resolved(before.known@, rewrite.conversation@),
        ),
{
    let plan = planned(
        before,
        rewrite.session_id,
        rewrite.conversation@,
        rewrite.changed_at_ms,
    );
    let gone = taken_back(prepared.inputs@, rewrite.session_id@, order);
    let cut = choose|cut: StorageEngine| #[trigger]
        inputs_removed(prepared, cut, gone) && went_on(
            cut,
            after,
            plan,
            rewrite,
            tasks_of(prepared, gone),
        );
    written_replacement_is_read(
        before,
        prepared,
        rewrite.session_id,
        rewrite.conversation@,
        rewrite.changed_at_ms,
    );
    let rows = cut.sessions@;
    first_is_found(rows, is_session(plan.session_id@));
    let place = first(rows, is_session(plan.session_id@))->0;
    first_after_update(rows, is_session(plan.session_id@), place, after.sessions@[place]);
    generations_do_not_share_bodies(
        before.sessions_directory@,
        plan.session_id@,
        plan.new_generation,
        plan.previous_generation,
    );
    sessions_have_no_body_in_a_task(
        before.sessions_directory@,
        plan.session_id@,
        plan.new_generation,
        tasks_of(prepared, gone),
    );
}

/// The body of a session lies in the directory of no delegated task.
pub proof fn sessions_have_no_body_in_a_task(
    directory: Seq<char>,
    session_id: Seq<char>,
    generation: u64,
    tasks: Seq<String>,
)
    ensures
        !lies_in_a_task(
            directory,
            session_id,
            tasks,
            session_body_path(directory, session_id, generation),
        ),
{
    let path = session_body_path(directory, session_id, generation);
    let parent = session_path(directory, session_id);
    reveal_strlit("/conversation.");
    reveal_strlit("/child-tasks/");
    assert(path[parent.len() as int + 2] == 'o');
    assert forall|i: int| 0 <= i < tasks.len() implies !has_prefix(
        path,
        task_directory(directory, session_id, (#[trigger] tasks[i])@),
    ) by {
        let prefix = task_directory(directory, session_id, tasks[i]@);
        assert(prefix[parent.len() as int + 2] == 'h');
        if has_prefix(path, prefix) {
            assert(path.take(prefix.len() as int)[parent.len() as int + 2] == 'o');
        }
    }
}

/// After a rewrite no body is left of a task that was delegated for what was taken back.
pub proof fn removed_tasks_leave_no_body(
    before: StorageEngine,
    after: StorageEngine,
    plan: ReplacementPlan,
    rewrite: ConversationRewrite,
    order: i64,
    place: int,
    generation: u64,
)
    requires
        rewritten(before, after, plan, rewrite, order),
        ({
            let gone = taken_back(before.inputs@, rewrite.session_id@, order);
            0 <= place < tasks_of(before, gone).len()
        }),
    ensures
        ({
            let gone = taken_back(before.inputs@, rewrite.session_id@, order);
            !bodies(after.files@).contains_key(
                child_body_path(
                    before.sessions_directory@,
                    plan.session_id@,
                    tasks_of(before, gone)[place]@,
                    generation,
                ),
            )
        }),
{
    let gone = taken_back(before.inputs@, rewrite.session_id@, order);
    let tasks = tasks_of(before, gone);
    let directory = before.sessions_directory@;
    let path = child_body_path(directory, plan.session_id@, tasks[place]@, generation);
    let prefix = task_directory(directory, plan.session_id@, tasks[place]@);
    reveal_strlit("/");
    reveal_strlit("/body-");
    assert(path.take(prefix.len() as int) =~= prefix);
    assert(has_prefix(path, prefix));
    assert(lies_in_a_task(directory, plan.session_id@, tasks, path));
}

/// Nothing that works on an input that was taken back is left.
pub proof fn nothing_is_left_of_what_was_taken_back(
    before: StorageEngine,
    cut: StorageEngine,
    gone: Seq<String>,
    run: RunRow,
    child: ChildTaskRow,
)
    requires
        inputs_removed(before, cut, gone),
    ensures
        cut.runs@.contains(run) ==> !lists(gone, run.input_id@) && before.runs@.contains(run),
        cut.child_tasks@.contains(child) ==> !lists(
            runs_of(before.runs@, gone),
            child.parent_run_id@,
        ) && before.child_tasks@.contains(child),
{
    kept_rows(before.runs@, run_out(gone));
    kept_rows(before.child_tasks@, child_out(runs_of(before.runs@, gone)));
    if cut.runs@.contains(run) {
        let k = cut.runs@.index_of(run);
        assert(run_out(gone)(cut.runs@[k]));
    }
    if cut.child_tasks@.contains(child) {
        let k = cut.child_tasks@.index_of(child);
        assert(child_out(runs_of(before.runs@, gone))(cut.child_tasks@[k]));
    }
}

} // verus!
