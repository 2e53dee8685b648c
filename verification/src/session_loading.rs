//! What is known of a session when it is taken up, and what is mended before.

use std::sync::Arc;
use vstd::prelude::*;

use crate::engine::{is_session, StorageEngine};
use crate::error::{conflicting, list_outcome, outcome_of, Refusal, StorageResult};
use crate::exchange_recovery::exchanges_recovered;
use crate::goal::{after_restart, goals_paused, is_exhausted, runs_in};
use crate::history_recovery::{changes_recovered, FoundFiles};
use crate::idle::unfinished_writes;
use crate::message::ConversationMessage;
use crate::recovery::{appends_recovered, AppendTable};
use crate::rows::{
    ChildTaskRow, ChildTaskStatus, CrossSessionBinding, Device, McpSelectionRow, SessionLifecycle,
    SessionRole, SessionRow, StoredAttachment, StoredGoal, StoredInput, StoredSkillActivation,
    Workspace,
};
use crate::run_loading::{is_shown, runs_listed, StoredRun};
use crate::session_directories::{resources_recovered, SessionDirectories};
use crate::session_history::is_other_text;
use crate::session_resources::{environment_refusal, works_in, SessionExecutionEnvironment};
use crate::session_summaries::summary_refusal;
use crate::session_transfer::{is_attachment_in, is_task_in};
use crate::skill::{activation_in_scope, activations_listed};
use crate::table::{all_rows_kept, copies, first, is_any, keep, kept, position, some_row};
use crate::text::{
    add_in_order, add_text, add_texts, ascending, holds_text, lists, with_text, with_texts,
};
use crate::tool_exchange::PendingTable;
use crate::usage::usages_completed;
use crate::work_plan::{is_plan_of, plan_refusal, StoredWorkPlan};

verus! {

/// Who a session is.
#[derive(Debug, PartialEq, Eq)]
pub struct SessionIdentity {
    pub session_id: String,
    pub role: SessionRole,
    pub lifecycle: SessionLifecycle,
}

/// What all sessions share.
#[derive(Debug)]
pub struct RuntimeGlobals {
    pub devices: Vec<Device>,
    pub workspaces: Vec<Workspace>,
}

/// What is known of one session.
#[derive(Debug)]
pub struct LoadedSession {
    pub globals: RuntimeGlobals,
    pub sessions: Vec<SessionRow>,
    /// Where the session works, where that can be told.
    pub environment: Option<SessionExecutionEnvironment>,
    pub conversation_unavailable: bool,
    pub inputs: Vec<StoredInput>,
    pub runs: Vec<StoredRun>,
    pub mcp_input_selections: Vec<McpSelectionRow>,
    pub attachments: Vec<StoredAttachment>,
    pub child_tasks: Vec<ChildTaskRow>,
    pub work_plan: Option<Arc<StoredWorkPlan>>,
    pub goals: Vec<StoredGoal>,
    pub skill_activations: Vec<StoredSkillActivation>,
    pub identities: Vec<SessionIdentity>,
}

/// A session whose writes were mended, and whose files are still to be looked at.
#[derive(Debug)]
pub struct MendedSession {
    /// The directories that the session needs.
    pub directories: Vec<SessionDirectories>,
    /// The sessions whose emptied conversations still have old files.
    pub uncleaned: Vec<String>,
    /// The generation of the session's conversation, where there is such a session.
    pub body_generation: Option<u64>,
}

pub open spec fn is_input_in(session_id: Seq<char>) -> spec_fn(StoredInput) -> bool {
    |row: StoredInput| row.session_id@ == session_id
}

pub open spec fn is_selection_in(session_id: Seq<char>) -> spec_fn(McpSelectionRow) -> bool {
    |row: McpSelectionRow| row.session_id@ == session_id
}

pub open spec fn is_goal_in(session_id: Seq<char>) -> spec_fn(StoredGoal) -> bool {
    |row: StoredGoal| row.session_id@ == session_id
}

/// A delegated task that has not ended.
pub open spec fn is_unended(row: ChildTaskRow) -> bool {
    row.status is Accepted || row.status is Running
}

/// A delegated task as it is found after a restart.
pub open spec fn interrupted(scope: Option<String>, row: ChildTaskRow) -> ChildTaskRow {
    if is_unended(row) && (scope is None || row.session_id@ == scope->0@) {
        ChildTaskRow { status: ChildTaskStatus::Interrupted, ..row }
    } else {
        row
    }
}

/// The delegated tasks with those that had not ended interrupted.
pub open spec fn tasks_interrupted(tasks: Seq<ChildTaskRow>, scope: Option<String>) -> Seq<
    ChildTaskRow,
> {
    tasks.map_values(|row: ChildTaskRow| interrupted(scope, row))
}

/// An input that a controller delivered.
pub open spec fn is_delivered_by(row: StoredInput, controller: Seq<char>) -> bool {
    match row.cross_session {
        Some(CrossSessionBinding::ControllerDelivery { controller_session_id }) => {
            controller_session_id@ == controller
        },
        _ => false,
    }
}

/// A session names a controller: as the one it acts for, or as the one that delivered an input.
pub open spec fn names_controller(
    engine: StorageEngine,
    session_id: Seq<char>,
    controller: Seq<char>,
) -> bool {
    ||| exists|i: int|
        0 <= i < engine.sessions@.len() && (#[trigger] engine.sessions@[i]).session_id@
            == session_id && engine.sessions@[i].proxy is Some
            && engine.sessions@[i].proxy->0.controller_session_id@ == controller
    ||| exists|i: int|
        0 <= i < engine.inputs@.len() && (#[trigger] engine.inputs@[i]).session_id@ == session_id
            && is_delivered_by(engine.inputs@[i], controller)
}

/// The controllers that a session names, in order.
pub open spec fn is_controllers(engine: StorageEngine, session_id: Seq<char>, ids: Seq<String>) -> bool {
    &&& ascending(ids)
    &&& forall|controller: Seq<char>| #[trigger]
        lists(ids, controller) == names_controller(engine, session_id, controller)
}

/// Why the identity of a session cannot be told.
pub open spec fn identity_refusal(engine: StorageEngine, session_id: Seq<char>) -> Option<Refusal> {
    match first(engine.sessions@, is_session(session_id)) {
        Some(i) => summary_refusal(engine, engine.sessions@[i]),
        None => None,
    }
}

/// Who a session of the engine is.
pub open spec fn identity_of(row: SessionRow) -> SessionIdentity {
    SessionIdentity { session_id: row.session_id, role: row.role, lifecycle: row.lifecycle }
}

/// Who the sessions of a list are, as far as they are known; or why that cannot be told.
pub open spec fn identities_of(engine: StorageEngine, ids: Seq<String>) -> Result<
    Seq<SessionIdentity>,
    Refusal,
>
    decreases ids.len(),
{
    if ids.len() == 0 {
        Ok(Seq::empty())
    } else {
        match identities_of(engine, ids.drop_last()) {
            Err(error) => Err(error),
            Ok(earlier) => match identity_refusal(engine, ids.last()@) {
                Some(error) => Err(error),
                None => match first(engine.sessions@, is_session(ids.last()@)) {
                    Some(i) => Ok(earlier.push(identity_of(engine.sessions@[i]))),
                    None => Ok(earlier),
                },
            },
        }
    }
}

/// What all sessions share, as it is stored.
pub open spec fn is_globals(engine: StorageEngine, globals: RuntimeGlobals) -> bool {
    globals.devices@ == engine.devices@ && globals.workspaces@ == engine.workspaces@
}

/// A conversation that nothing may be added to: what was announced or pending is not settled.
pub open spec fn is_unavailable(engine: StorageEngine, session_id: Seq<char>) -> bool {
    lists(engine.unavailable_sessions@, session_id) || unfinished_writes(engine, session_id)
}

/// The runs of a session, in their order.
pub open spec fn is_runs_of(engine: StorageEngine, session_id: String, list: Seq<StoredRun>) -> bool {
    exists|order: Seq<usize>| #[trigger]
        runs_listed(engine, kept(engine.runs@, is_shown(engine, Some(session_id))), order, list)
}

/// What is known of a session, but for what can be refused.
pub open spec fn rows_loaded(engine: StorageEngine, session_id: String, loaded: LoadedSession) -> bool {
    &&& is_globals(engine, loaded.globals)
    &&& loaded.sessions@ == kept(engine.sessions@, is_session(session_id@))
    &&& match loaded.environment {
        Some(environment) => works_in(engine, session_id@, environment),
        None => environment_refusal(engine, session_id@) is Some,
    }
    &&& loaded.conversation_unavailable == is_unavailable(engine, session_id@)
    &&& loaded.inputs@ == kept(engine.inputs@, is_input_in(session_id@))
    &&& is_runs_of(engine, session_id, loaded.runs@)
    &&& loaded.mcp_input_selections@ == kept(
        engine.mcp_selections@,
        is_selection_in(session_id@),
    )
    &&& loaded.attachments@ == kept(engine.attachments@, is_attachment_in(session_id@))
    &&& loaded.child_tasks@ == kept(engine.child_tasks@, is_task_in(session_id@))
    &&& loaded.goals@ == kept(engine.goals@, is_goal_in(session_id@))
}

/// The work plan that counts for a session, or why it cannot be read.
pub open spec fn plan_outcome(engine: StorageEngine, session_id: Seq<char>) -> Result<
    Option<Arc<StoredWorkPlan>>,
    Refusal,
> {
    match first(engine.work_plans@, is_plan_of(session_id)) {
        None => Ok(None),
        Some(i) => match plan_refusal(*engine.work_plans@[i]) {
            Some(error) => Err(error),
            None => Ok(Some(engine.work_plans@[i])),
        },
    }
}

/// A session is loaded: or it is told what of it cannot be read, its work plan first, then its
/// skills, then who its controllers are.
pub open spec fn session_loaded(
    engine: StorageEngine,
    session_id: String,
    order: Seq<usize>,
    activations: Result<Seq<StoredSkillActivation>, Refusal>,
    ids: Seq<String>,
    result: StorageResult<LoadedSession>,
) -> bool {
    &&& activations_listed(
        kept(engine.skill_activations@, activation_in_scope(Some(session_id))),
        order,
        activations,
    )
    &&& is_controllers(engine, session_id@, ids)
    &&& match (plan_outcome(engine, session_id@), activations, identities_of(engine, ids)) {
        (Err(error), _, _) => result is Err && result->Err_0@ == error,
        (Ok(_), Err(error), _) => result is Err && result->Err_0@ == error,
        (Ok(_), Ok(_), Err(error)) => result is Err && result->Err_0@ == error,
        (Ok(plan), Ok(list), Ok(identities)) => {
            &&& result is Ok
            &&& rows_loaded(engine, session_id, result->Ok_0)
            &&& result->Ok_0.work_plan == plan
            &&& result->Ok_0.skill_activations@ == list
            &&& result->Ok_0.identities@ == identities
        },
    }
}

/// The engine as it is after each step of mending a session.
pub struct MendingSteps {
    pub directory_order: Seq<usize>,
    pub directories: StorageResult<Vec<SessionDirectories>>,
    pub repaired: StorageEngine,
    pub settled: StorageEngine,
    pub uncleaned: Seq<String>,
    pub appended: StorageEngine,
    pub failed_appends: Seq<String>,
    pub tasks_appended: StorageEngine,
    pub failed_task_appends: Seq<String>,
    pub tasks_exchanged: StorageEngine,
    pub failed_task_exchanges: Seq<String>,
    pub tasks_ended: StorageEngine,
    pub exchanged: StorageEngine,
    pub failed_exchanges: Seq<String>,
}

/// What was announced and pending in a session is settled, as far as it can be, and its tasks
/// have ended. What cannot be settled makes the conversation unavailable.
pub open spec fn writes_mended<E: Fn(&ConversationMessage) -> Vec<u8>>(
    steps: MendingSteps,
    after: StorageEngine,
    session_id: String,
    encode: E,
) -> bool {
    let scope = Some(session_id);
    &&& appends_recovered(
        steps.settled,
        steps.appended,
        scope,
        AppendTable::Session,
        steps.failed_appends,
    )
    &&& appends_recovered(
        steps.appended,
        steps.tasks_appended,
        scope,
        AppendTable::ChildTask,
        steps.failed_task_appends,
    )
    &&& exchanges_recovered(
        steps.tasks_appended,
        steps.tasks_exchanged,
        scope,
        PendingTable::ChildTask,
        encode,
        steps.failed_task_exchanges,
    )
    &&& steps.tasks_ended == (StorageEngine {
        child_tasks: steps.tasks_ended.child_tasks,
        unavailable_child_tasks: steps.tasks_ended.unavailable_child_tasks,
        ..steps.tasks_exchanged
    })
    &&& steps.tasks_ended.unavailable_child_tasks@ == with_texts(
        with_texts(
            steps.tasks_exchanged.unavailable_child_tasks@,
            steps.failed_task_appends,
        ),
        steps.failed_task_exchanges,
    )
    &&& steps.tasks_ended.child_tasks@ == tasks_interrupted(
        steps.tasks_exchanged.child_tasks@,
        scope,
    )
    &&& exchanges_recovered(
        steps.tasks_ended,
        steps.exchanged,
        scope,
        PendingTable::Run,
        encode,
        steps.failed_exchanges,
    )
    &&& after == (StorageEngine {
        unavailable_sessions: after.unavailable_sessions,
        ..steps.exchanged
    })
    &&& after.unavailable_sessions@ == with_texts(
        with_texts(
            kept(steps.exchanged.unavailable_sessions@, is_other_text(session_id@)),
            steps.failed_appends,
        ),
        steps.failed_exchanges,
    )
}

/// The generation of the conversation of a session, where there is such a session.
pub open spec fn generation_in(engine: StorageEngine, session_id: Seq<char>) -> Option<u64> {
    match first(engine.sessions@, is_session(session_id)) {
        Some(i) => Some(engine.sessions@[i].body_generation),
        None => None,
    }
}

/// The writes of a session are mended: or its directories cannot be told, or a change of its
/// history cannot be settled, and nothing further is done.
pub open spec fn session_mended<E: Fn(&ConversationMessage) -> Vec<u8>>(
    before: StorageEngine,
    steps: MendingSteps,
    after: StorageEngine,
    session_id: String,
    found: FoundFiles,
    encode: E,
    result: StorageResult<MendedSession>,
) -> bool {
    let scope = Some(session_id);
    match (steps.directories, result) {
        (Err(error), _) => {
            &&& result is Err && result->Err_0 == error
            &&& resources_recovered(
                before,
                after,
                scope,
                steps.directory_order,
                steps.directories,
            )
        },
        (Ok(_), Err(error)) => {
            &&& resources_recovered(
                before,
                steps.repaired,
                scope,
                steps.directory_order,
                steps.directories,
            )
            &&& changes_recovered(
                steps.repaired,
                after,
                scope,
                found,
                Err::<Seq<String>, Refusal>(error@),
            )
        },
        (Ok(directories), Ok(mended)) => {
            &&& resources_recovered(
                before,
                steps.repaired,
                scope,
                steps.directory_order,
                steps.directories,
            )
            &&& changes_recovered(
                steps.repaired,
                steps.settled,
                scope,
                found,
                Ok::<Seq<String>, Refusal>(steps.uncleaned),
            )
            &&& writes_mended(steps, after, session_id, encode)
            &&& mended.directories == directories
            &&& mended.uncleaned@ == steps.uncleaned
            &&& mended.body_generation == generation_in(after, session_id@)
        },
    }
}

/// The engine with a session unavailable where something is wrong with its images. What is left
/// of an emptied conversation says nothing of the one that counts.
pub open spec fn images_judged(
    before: StorageEngine,
    after: StorageEngine,
    session_id: String,
    mended: MendedSession,
    diagnostic: bool,
) -> bool {
    &&& after == (StorageEngine { unavailable_sessions: after.unavailable_sessions, ..before })
    &&& after.unavailable_sessions@ == if mended.body_generation is Some && diagnostic && !lists(
        mended.uncleaned@,
        session_id@,
    ) {
        with_text(before.unavailable_sessions@, session_id)
    } else {
        before.unavailable_sessions@
    }
}

/// The engine as it is after each step of taking up a session.
pub struct TakingUpSteps {
    pub judged: StorageEngine,
    pub paused: StorageEngine,
    pub order: Seq<usize>,
    pub activations: Result<Seq<StoredSkillActivation>, Refusal>,
    pub activation_order: Seq<usize>,
    pub controllers: Seq<String>,
}

/// The session is taken up: where its conversation is available its goals wait for their users,
/// and its usage is complete.
pub open spec fn session_taken_up(
    before: StorageEngine,
    steps: TakingUpSteps,
    after: StorageEngine,
    session_id: String,
    mended: MendedSession,
    diagnostic: bool,
    result: StorageResult<LoadedSession>,
) -> bool {
    let scope = Some(session_id);
    let open = !lists(steps.judged.unavailable_sessions@, session_id@);
    let loaded = session_loaded(
        after,
        session_id,
        steps.activation_order,
        steps.activations,
        steps.controllers,
        result,
    );
    &&& images_judged(before, steps.judged, session_id, mended, diagnostic)
    &&& if !open {
        after == steps.judged && loaded
    } else if some_row(steps.judged.goals@, is_exhausted(scope)) {
        &&& after == steps.judged
        &&& result is Err
        &&& result->Err_0@ == conflicting("goal generation is exhausted"@)
    } else {
        &&& goals_paused(steps.judged, steps.paused, scope)
        &&& {
            ||| usages_completed(steps.paused, after, scope, steps.order, Ok(())) && loaded
            ||| result is Err && usages_completed(
                steps.paused,
                after,
                scope,
                steps.order,
                Err::<(), Refusal>(result->Err_0@),
            )
        }
    }
}

impl StorageEngine {
    /// What all sessions share.
    pub fn load_runtime_globals(&self) -> (globals: RuntimeGlobals)
        ensures
            is_globals(*self, globals),
    {
        let devices = copies(
            &self.devices,
            Ghost(is_any()),
            |row: &Device| -> (found: bool)
                ensures
                    found
                { true },
            |row: &Device| -> (same: Device)
                ensures
                    same == *row
                { row.copy() },
        );
        let workspaces = copies(
            &self.workspaces,
            Ghost(is_any()),
            |row: &Workspace| -> (found: bool)
                ensures
                    found
                { true },
            |row: &Workspace| -> (same: Workspace)
                ensures
                    same == *row
                { row.copy() },
        );
        proof {
            all_rows_kept(self.devices@, is_any());
            all_rows_kept(self.workspaces@, is_any());
        }
        RuntimeGlobals { devices, workspaces }
    }

    /// The controllers that a session names, in order.
    fn controllers_of(&self, session_id: &String) -> (ids: Vec<String>)
        ensures
            is_controllers(*self, session_id@, ids@),
    {
        let mut named: Vec<String> = Vec::new();
        let mut i: usize = 0;
        while i < self.sessions.len()
            invariant
                i <= self.sessions@.len(),
                ascending(named@),
                forall|controller: Seq<char>| #[trigger]
                    lists(named@, controller) == (exists|k: int|
                        0 <= k < i && (#[trigger] self.sessions@[k]).session_id@ == session_id@
                            && self.sessions@[k].proxy is Some
                            && self.sessions@[k].proxy->0.controller_session_id@ == controller),
            decreases self.sessions@.len() - i,
        {
            let row = &self.sessions[i];
            if row.session_id == *session_id {
                if let Some(proxy) = &row.proxy {
                    add_in_order(&mut named, &proxy.controller_session_id);
                }
            }
            i += 1;
        }
        let mut i: usize = 0;
        while i < self.inputs.len()
            invariant
                i <= self.inputs@.len(),
                ascending(named@),
                forall|controller: Seq<char>| #[trigger]
                    lists(named@, controller) == ((exists|k: int|
                        0 <= k < self.sessions@.len() && (#[trigger] self.sessions@[k]).session_id@
                            == session_id@ && self.sessions@[k].proxy is Some
                            && self.sessions@[k].proxy->0.controller_session_id@ == controller) || (
                    exists|k: int|
                        0 <= k < i && (#[trigger] self.inputs@[k]).session_id@ == session_id@
                            && is_delivered_by(self.inputs@[k], controller))),
            decreases self.inputs@.len() - i,
        {
            let row = &self.inputs[i];
            if row.session_id == *session_id {
                if let Some(CrossSessionBinding::ControllerDelivery { controller_session_id }) =
                    &row.cross_session {
                    add_in_order(&mut named, controller_session_id);
                }
            }
            i += 1;
        }
        named
    }

    /// Who the sessions of a list are, as far as they are known.
    fn load_identities(&self, ids: &Vec<String>) -> (result: StorageResult<Vec<SessionIdentity>>)
        ensures
            list_outcome(result) == identities_of(*self, ids@),
    {
        let mut list: Vec<SessionIdentity> = Vec::new();
        let mut i: usize = 0;
        proof {
            assert(ids@.take(0) =~= Seq::empty());
            assert(list@ =~= Seq::empty());
        }
        while i < ids.len()
            invariant
                i <= ids@.len(),
                identities_of(*self, ids@.take(i as int)) == Ok::<_, Refusal>(list@),
            decreases ids@.len() - i,
        {
            proof {
                assert(ids@.take(i + 1).drop_last() =~= ids@.take(i as int));
            }
            let id = &ids[i];
            if let Some(place) = position(
                &self.sessions,
                Ghost(is_session(id@)),
                |row: &SessionRow| -> (found: bool)
                    ensures
                        found == (row.session_id@ == id@)
                    { row.session_id == *id },
            ) {
                let row = &self.sessions[place];
                match self.summarise(row) {
                    Ok(_) => {},
                    Err(error) => {
                        proof {
                            identities_fail_early(*self, ids@, i + 1);
                        }
                        return Err(error);
                    },
                }
                list.push(
                    SessionIdentity {
                        session_id: row.session_id.clone(),
                        role: row.role,
                        lifecycle: row.lifecycle,
                    },
                );
            }
            i += 1;
        }
        proof {
            assert(ids@.take(ids@.len() as int) =~= ids@);
        }
        Ok(list)
    }

    /// What is known of a session.
    pub fn load_session_state(&self, session_id: &String) -> (result: StorageResult<LoadedSession>)
        ensures
            exists|steps: TakingUpSteps| #[trigger]
                session_loaded(
                    *self,
                    *session_id,
                    steps.activation_order,
                    steps.activations,
                    steps.controllers,
                    result,
                ),
    {
        let globals = self.load_runtime_globals();
        let sessions = copies(
            &self.sessions,
            Ghost(is_session(session_id@)),
            |row: &SessionRow| -> (found: bool)
                ensures
                    found == (row.session_id@ == session_id@)
                { row.session_id == *session_id },
            |row: &SessionRow| -> (same: SessionRow)
                ensures
                    same == *row
                { row.copy() },
        );
        let environment = match self.load_session_environment(session_id) {
            Ok(environment) => Some(environment),
            Err(_) => None,
        };
        let inputs = copies(
            &self.inputs,
            Ghost(is_input_in(session_id@)),
            |row: &StoredInput| -> (found: bool)
                ensures
                    found == (row.session_id@ == session_id@)
                { row.session_id == *session_id },
            |row: &StoredInput| -> (same: StoredInput)
                ensures
                    same == *row
                { row.copy() },
        );
        let scope = Some(session_id.clone());
        let runs = self.load_runs(&scope);
        assert(is_runs_of(*self, *session_id, runs@));
        let mcp_input_selections = copies(
            &self.mcp_selections,
            Ghost(is_selection_in(session_id@)),
            |row: &McpSelectionRow| -> (found: bool)
                ensures
                    found == (row.session_id@ == session_id@)
                { row.session_id == *session_id },
            |row: &McpSelectionRow| -> (same: McpSelectionRow)
                ensures
                    same == *row
                { row.copy() },
        );
        let attachments = copies(
            &self.attachments,
            Ghost(is_attachment_in(session_id@)),
            |row: &StoredAttachment| -> (found: bool)
                ensures
                    found == (row.session_id@ == session_id@)
                { row.session_id == *session_id },
            |row: &StoredAttachment| -> (same: StoredAttachment)
                ensures
                    same == *row
                { row.copy() },
        );
        let child_tasks = copies(
            &self.child_tasks,
            Ghost(is_task_in(session_id@)),
            |row: &ChildTaskRow| -> (found: bool)
                ensures
                    found == (row.session_id@ == session_id@)
                { row.session_id == *session_id },
            |row: &ChildTaskRow| -> (same: ChildTaskRow)
                ensures
                    same == *row
                { row.copy() },
        );
        let goals = copies(
            &self.goals,
            Ghost(is_goal_in(session_id@)),
            |row: &StoredGoal| -> (found: bool)
                ensures
                    found == (row.session_id@ == session_id@)
                { row.session_id == *session_id },
            |row: &StoredGoal| -> (same: StoredGoal)
                ensures
                    same == *row
                { row.copy() },
        );
        let plan = self.load_work_plan(session_id);
        let activations = self.load_skill_activations(&scope);
        let controllers = self.controllers_of(session_id);
        let identities = self.load_identities(&controllers);
        let conversation_unavailable = holds_text(
            &self.unavailable_sessions,
            session_id.as_str(),
        ) || self.has_unfinished_writes(session_id);
        let ghost steps = TakingUpSteps {
            judged: *self,
            paused: *self,
            order: Seq::empty(),
            activations: list_outcome(activations),
            activation_order: choose|order: Seq<usize>| #[trigger]
                activations_listed(
                    kept(self.skill_activations@, activation_in_scope(scope)),
                    order,
                    list_outcome(activations),
                ),
            controllers: controllers@,
        };
        let result = match (plan, activations, identities) {
            (Err(error), _, _) => Err(error),
            (Ok(_), Err(error), _) => Err(error),
            (Ok(_), Ok(_), Err(error)) => Err(error),
            (Ok(work_plan), Ok(skill_activations), Ok(identities)) => Ok(
                LoadedSession {
                    globals,
                    sessions,
                    environment,
                    conversation_unavailable,
                    inputs,
                    runs,
                    mcp_input_selections,
                    attachments,
                    child_tasks,
                    work_plan,
                    goals,
                    skill_activations,
                    identities,
                },
            ),
        };
        proof {
            assert(scope == Some(*session_id));
            assert(activations_listed(
                kept(self.skill_activations@, activation_in_scope(Some(*session_id))),
                steps.activation_order,
                steps.activations,
            ));
            assert(is_controllers(*self, session_id@, steps.controllers));
            assert(result is Ok ==> rows_loaded(*self, *session_id, result->Ok_0));
            assert(session_loaded(
                *self,
                *session_id,
                steps.activation_order,
                steps.activations,
                steps.controllers,
                result,
            ));
        }
        result
    }

    /// Interrupts the delegated tasks that had not ended, of one session or of all.
    pub fn interrupt_nonterminal_child_tasks(&mut self, scope: &Option<String>)
        ensures
            *final(self) == (StorageEngine { child_tasks: final(self).child_tasks, ..*old(self) }),
            final(self).child_tasks@ == tasks_interrupted(old(self).child_tasks@, *scope),
    {
        let ghost before = self.child_tasks@;
        let mut i: usize = 0;
        while i < self.child_tasks.len()
            invariant
                i <= self.child_tasks@.len(),
                before == old(self).child_tasks@,
                *self == (StorageEngine { child_tasks: self.child_tasks, ..*old(self) }),
                self.child_tasks@.len() == before.len(),
                forall|k: int|
                    0 <= k < i ==> #[trigger] self.child_tasks@[k] == interrupted(
                        *scope,
                        before[k],
                    ),
                forall|k: int| i <= k < before.len() ==> #[trigger] self.child_tasks@[k] == before[k],
            decreases self.child_tasks@.len() - i,
        {
            let mut row = self.child_tasks[i].copy();
            let inside = match scope {
                Some(session_id) => row.session_id == *session_id,
                None => true,
            };
            if inside && (matches!(row.status, ChildTaskStatus::Accepted) || matches!(
                row.status,
                ChildTaskStatus::Running
            )) {
                row.status = ChildTaskStatus::Interrupted;
            }
            self.child_tasks.set(i, row);
            i += 1;
        }
        proof {
            assert(self.child_tasks@ =~= tasks_interrupted(before, *scope));
        }
    }

    /// Mends what a session's last process left unfinished: its directories, changes of its
    /// history, announced appends, pending exchanges and delegated tasks.
    pub fn prepare_session_execution<E: Fn(&ConversationMessage) -> Vec<u8>>(
        &mut self,
        session_id: &String,
        found: &FoundFiles,
        encode: &E,
    ) -> (result: StorageResult<MendedSession>)
        requires
            forall|message: &ConversationMessage| encode.requires((message,)),
        ensures
            exists|steps: MendingSteps| #[trigger]
                session_mended(
                    *old(self),
                    steps,
                    *final(self),
                    *session_id,
                    *found,
                    *encode,
                    result,
                ),
    {
        let scope = Some(session_id.clone());
        assert(scope == Some(*session_id));
        let ghost nothing = Seq::<String>::empty();
        let ghost mut steps = MendingSteps {
            directory_order: Seq::empty(),
            directories: arbitrary(),
            repaired: *self,
            settled: *self,
            uncleaned: nothing,
            appended: *self,
            failed_appends: nothing,
            tasks_appended: *self,
            failed_task_appends: nothing,
            tasks_exchanged: *self,
            failed_task_exchanges: nothing,
            tasks_ended: *self,
            exchanged: *self,
            failed_exchanges: nothing,
        };
        let repair = self.repair_session_resources(&scope);
        proof {
            steps.directories = repair;
            steps.directory_order = choose|order: Seq<usize>| #[trigger]
                resources_recovered(*old(self), *self, scope, order, repair);
        }
        let directories = match repair {
            Ok(directories) => directories,
            Err(error) => {
                let result = Err(error);
                assert(session_mended(
                    *old(self),
                    steps,
                    *self,
                    *session_id,
                    *found,
                    *encode,
                    result,
                ));
                return result;
            },
        };
        proof {
            steps.repaired = *self;
        }
        let uncleaned = match self.recover_session_history_operations(&scope, found) {
            Ok(uncleaned) => uncleaned,
            Err(error) => {
                let result = Err(error);
                assert(session_mended(
                    *old(self),
                    steps,
                    *self,
                    *session_id,
                    *found,
                    *encode,
                    result,
                ));
                return result;
            },
        };
        proof {
            steps.settled = *self;
            steps.uncleaned = uncleaned@;
        }
        let unavailable = self.recover_body_appends(&scope);
        proof {
            steps.appended = *self;
            steps.failed_appends = unavailable@;
        }
        let tasks = self.recover_child_body_appends(&scope);
        proof {
            steps.tasks_appended = *self;
            steps.failed_task_appends = tasks@;
        }
        let more_tasks = self.recover_pending_child_tool_exchanges(&scope, encode);
        proof {
            steps.tasks_exchanged = *self;
            steps.failed_task_exchanges = more_tasks@;
        }
        add_texts(&mut self.unavailable_child_tasks, &tasks);
        add_texts(&mut self.unavailable_child_tasks, &more_tasks);
        self.interrupt_nonterminal_child_tasks(&scope);
        proof {
            steps.tasks_ended = *self;
        }
        let more = self.recover_pending_tool_exchanges(&scope, encode);
        proof {
            steps.exchanged = *self;
            steps.failed_exchanges = more@;
        }
        keep(
            &mut self.unavailable_sessions,
            Ghost(is_other_text(session_id@)),
            |other: &String| -> (stays: bool)
                ensures
                    stays == (other@ != session_id@)
                { *other != *session_id },
        );
        add_texts(&mut self.unavailable_sessions, &unavailable);
        add_texts(&mut self.unavailable_sessions, &more);
        let body_generation = match position(
            &self.sessions,
            Ghost(is_session(session_id@)),
            |row: &SessionRow| -> (found: bool)
                ensures
                    found == (row.session_id@ == session_id@)
                { row.session_id == *session_id },
        ) {
            Some(place) => Some(self.sessions[place].body_generation),
            None => None,
        };
        let result = Ok(MendedSession { directories, uncleaned, body_generation });
        proof {
            assert(writes_mended(steps, *self, *session_id, *encode));
            assert(session_mended(
                *old(self),
                steps,
                *self,
                *session_id,
                *found,
                *encode,
                result,
            ));
        }
        result
    }

    /// Takes up a session whose writes were mended, once its tool images were looked through.
    pub fn take_up_session(
        &mut self,
        session_id: &String,
        mended: &MendedSession,
        diagnostic: bool,
    ) -> (result: StorageResult<LoadedSession>)
        ensures
            exists|steps: TakingUpSteps| #[trigger]
                session_taken_up(
                    *old(self),
                    steps,
                    *final(self),
                    *session_id,
                    *mended,
                    diagnostic,
                    result,
                ),
    {
        let scope = Some(session_id.clone());
        assert(scope == Some(*session_id));
        if mended.body_generation.is_some() && diagnostic && !holds_text(
            &mended.uncleaned,
            session_id.as_str(),
        ) {
            add_text(&mut self.unavailable_sessions, session_id);
        }
        let ghost judged = *self;
        let ghost mut steps = TakingUpSteps {
            judged,
            paused: judged,
            order: Seq::empty(),
            activations: Ok(Seq::empty()),
            activation_order: Seq::empty(),
            controllers: Seq::empty(),
        };
        assert(images_judged(*old(self), judged, *session_id, *mended, diagnostic));
        if !holds_text(&self.unavailable_sessions, session_id.as_str()) {
            match self.pause_running_goals_for_recovery(&scope) {
                Ok(()) => {},
                Err(error) => {
                    let result = Err(error);
                    assert(session_taken_up(
                        *old(self),
                        steps,
                        *self,
                        *session_id,
                        *mended,
                        diagnostic,
                        result,
                    ));
                    return result;
                },
            }
            proof {
                steps.paused = *self;
            }
            let completed = self.backfill_session_usage(&scope);
            proof {
                steps.order = choose|order: Seq<usize>| #[trigger]
                    usages_completed(
                        steps.paused,
                        *self,
                        scope,
                        order,
                        outcome_of(completed),
                    );
            }
            match completed {
                Ok(()) => {},
                Err(error) => {
                    let result = Err(error);
                    assert(session_taken_up(
                        *old(self),
                        steps,
                        *self,
                        *session_id,
                        *mended,
                        diagnostic,
                        result,
                    ));
                    return result;
                },
            }
        }
        let result = self.load_session_state(session_id);
        proof {
            let loading = choose|loading: TakingUpSteps| #[trigger]
                session_loaded(
                    *self,
                    *session_id,
                    loading.activation_order,
                    loading.activations,
                    loading.controllers,
                    result,
                );
            steps.activation_order = loading.activation_order;
            steps.activations = loading.activations;
            steps.controllers = loading.controllers;
            assert(session_taken_up(
                *old(self),
                steps,
                *self,
                *session_id,
                *mended,
                diagnostic,
                result,
            ));
        }
        result
    }
}

/// What cannot be told of a list's beginning cannot be told of the list.
proof fn identities_fail_early(engine: StorageEngine, ids: Seq<String>, n: int)
    requires
        0 <= n <= ids.len(),
        identities_of(engine, ids.take(n)) is Err,
    ensures
        identities_of(engine, ids) == identities_of(engine, ids.take(n)),
    decreases ids.len() - n,
{
    if n < ids.len() {
        assert(ids.take(n + 1).drop_last() =~= ids.take(n));
        identities_fail_early(engine, ids, n + 1);
    } else {
        assert(ids.take(n) =~= ids);
    }
}

/// After a restart no delegated task that is meant goes on, and interrupting the tasks once more
/// changes nothing.
pub proof fn interrupted_tasks_have_ended(tasks: Seq<ChildTaskRow>, scope: Option<String>)
    ensures
        forall|i: int|
            0 <= i < tasks.len() && (scope is None || tasks[i].session_id@ == scope->0@)
                ==> !is_unended(#[trigger] tasks_interrupted(tasks, scope)[i]),
        tasks_interrupted(tasks_interrupted(tasks, scope), scope) == tasks_interrupted(
            tasks,
            scope,
        ),
{
    assert(tasks_interrupted(tasks_interrupted(tasks, scope), scope) =~= tasks_interrupted(
        tasks,
        scope,
    ));
}

/// A session that is taken up with its conversation available goes on with nothing by itself: no
/// goal of it runs.
pub proof fn nothing_goes_on_by_itself(
    before: StorageEngine,
    steps: TakingUpSteps,
    after: StorageEngine,
    session_id: String,
    mended: MendedSession,
    diagnostic: bool,
    result: StorageResult<LoadedSession>,
)
    requires
        session_taken_up(before, steps, after, session_id, mended, diagnostic, result),
        result is Ok,
        !lists(after.unavailable_sessions@, session_id@),
    ensures
        !some_row(after.goals@, runs_in(Some(session_id))),
{
    let scope = Some(session_id);
    if lists(steps.judged.unavailable_sessions@, session_id@) {
        assert(after == steps.judged);
    } else {
        assert(after.goals@ == steps.paused.goals@);
        assert forall|i: int| 0 <= i < after.goals@.len() implies !runs_in(scope)(
            #[trigger] after.goals@[i],
        ) by {
            assert(after.goals@[i] == after_restart(scope, steps.judged.goals@[i]));
        }
    }
}

} // verus!
