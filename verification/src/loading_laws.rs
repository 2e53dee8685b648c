//! What a session is taken up with.

use vstd::prelude::*;

use std::sync::Arc;

use crate::append_effect::StagedAppend;
use crate::emptying_laws::{appending_session, exchanging_session};
use crate::engine::{is_session, StorageEngine};
use crate::goal::{goal_key, goals_paused, is_stale_continuation, running_goals, runs_in};
use crate::idle::{is_append_in, is_exchange_in};
use crate::message::held;
use crate::relations::{
    found_leads, kept_is_filtered, kept_names, session_stands_where_found, stands_at,
};
use crate::rows::{
    ChildTaskRow, ChildTaskStatus, CrossSessionBinding, GoalPauseReason, McpSelectionRow,
    SessionRow, StoredAttachment, StoredGoal, StoredInput,
};
use crate::session_loading::{
    identities_of, images_judged, is_controllers, is_delivered_by, is_goal_in, is_input_in,
    is_selection_in, names_controller, rows_loaded, tasks_interrupted, LoadedSession, MendedSession,
    SessionIdentity,
};
use crate::session_resources::{environment_refusal, works_in};
use crate::session_transfer::{is_attachment_in, is_task_in};
use crate::table::first;
use crate::text::lists;
use crate::tool_exchange::PendingExchange;

verus! {

/// A session is loaded with the rows that are its own, all of them and no other, in their order.
pub proof fn sessions_are_loaded_with_their_rows(
    engine: StorageEngine,
    session_id: String,
    loaded: LoadedSession,
)
    requires
        rows_loaded(engine, session_id, loaded),
    ensures
        loaded.globals.devices@ == engine.devices@,
        loaded.globals.workspaces@ == engine.workspaces@,
        loaded.sessions@ == engine.sessions@.filter(
            |row: SessionRow| row.session_id@ == session_id@,
        ),
        loaded.inputs@ == engine.inputs@.filter(
            |row: StoredInput| row.session_id@ == session_id@,
        ),
        loaded.mcp_input_selections@ == engine.mcp_selections@.filter(
            |row: McpSelectionRow| row.session_id@ == session_id@,
        ),
        loaded.attachments@ == engine.attachments@.filter(
            |row: StoredAttachment| row.session_id@ == session_id@,
        ),
        loaded.child_tasks@ == engine.child_tasks@.filter(
            |row: ChildTaskRow| row.session_id@ == session_id@,
        ),
        loaded.goals@ == engine.goals@.filter(|row: StoredGoal| row.session_id@ == session_id@),
        loaded.environment is Some ==> works_in(engine, session_id@, loaded.environment->0),
        loaded.environment is None <==> environment_refusal(engine, session_id@) is Some,
{
    kept_is_filtered(
        engine.sessions@,
        is_session(session_id@),
        |row: SessionRow| row.session_id@ == session_id@,
    );
    kept_is_filtered(
        engine.inputs@,
        is_input_in(session_id@),
        |row: StoredInput| row.session_id@ == session_id@,
    );
    kept_is_filtered(
        engine.mcp_selections@,
        is_selection_in(session_id@),
        |row: McpSelectionRow| row.session_id@ == session_id@,
    );
    kept_is_filtered(
        engine.attachments@,
        is_attachment_in(session_id@),
        |row: StoredAttachment| row.session_id@ == session_id@,
    );
    kept_is_filtered(
        engine.child_tasks@,
        is_task_in(session_id@),
        |row: ChildTaskRow| row.session_id@ == session_id@,
    );
    kept_is_filtered(
        engine.goals@,
        is_goal_in(session_id@),
        |row: StoredGoal| row.session_id@ == session_id@,
    );
}

/// The conversation of a session cannot be used while the session is listed as unavailable, or has
/// an append announced or an exchange pending, of its own or of a task.
pub proof fn conversations_wait_for_their_writes(
    engine: StorageEngine,
    session_id: String,
    loaded: LoadedSession,
)
    requires
        rows_loaded(engine, session_id, loaded),
    ensures
        !loaded.conversation_unavailable <==> {
            &&& forall|i: int|
                0 <= i < engine.unavailable_sessions@.len() ==> (
                #[trigger] engine.unavailable_sessions@[i])@ != session_id@
            &&& forall|i: int|
                0 <= i < engine.body_appends@.len() ==> appending_session(
                    held(#[trigger] engine.body_appends@[i]).target,
                ) != session_id@
            &&& forall|i: int|
                0 <= i < engine.child_body_appends@.len() ==> appending_session(
                    held(#[trigger] engine.child_body_appends@[i]).target,
                ) != session_id@
            &&& forall|i: int|
                0 <= i < engine.pending_exchanges@.len() ==> exchanging_session(
                    held(#[trigger] engine.pending_exchanges@[i]).target,
                ) != session_id@
            &&& forall|i: int|
                0 <= i < engine.child_pending_exchanges@.len() ==> exchanging_session(
                    held(#[trigger] engine.child_pending_exchanges@[i]).target,
                ) != session_id@
        },
{
    let s = session_id@;
    found_leads(
        engine.body_appends@,
        is_append_in(s),
        |append: Arc<StagedAppend>| appending_session(held(append).target) == s,
    );
    found_leads(
        engine.child_body_appends@,
        is_append_in(s),
        |append: Arc<StagedAppend>| appending_session(held(append).target) == s,
    );
    found_leads(
        engine.pending_exchanges@,
        is_exchange_in(s),
        |exchange: Arc<PendingExchange>| exchanging_session(held(exchange).target) == s,
    );
    found_leads(
        engine.child_pending_exchanges@,
        is_exchange_in(s),
        |exchange: Arc<PendingExchange>| exchanging_session(held(exchange).target) == s,
    );
    if !loaded.conversation_unavailable {
        assert forall|i: int| 0 <= i < engine.body_appends@.len() implies appending_session(
            held(#[trigger] engine.body_appends@[i]).target,
        ) != s by {
            assert(!is_append_in(s)(engine.body_appends@[i]));
        }
        assert forall|i: int| 0 <= i < engine.child_body_appends@.len() implies appending_session(
            held(#[trigger] engine.child_body_appends@[i]).target,
        ) != s by {
            assert(!is_append_in(s)(engine.child_body_appends@[i]));
        }
        assert forall|i: int| 0 <= i < engine.pending_exchanges@.len() implies exchanging_session(
            held(#[trigger] engine.pending_exchanges@[i]).target,
        ) != s by {
            assert(!is_exchange_in(s)(engine.pending_exchanges@[i]));
        }
        assert forall|i: int|
            0 <= i < engine.child_pending_exchanges@.len() implies exchanging_session(
            held(#[trigger] engine.child_pending_exchanges@[i]).target,
        ) != s by {
            assert(!is_exchange_in(s)(engine.child_pending_exchanges@[i]));
        }
    }
}

/// At a restart the tasks of a session that had not ended are left interrupted. Nothing else of them
/// changes, and nothing of other tasks.
pub proof fn unended_tasks_are_left_interrupted(
    tasks: Seq<ChildTaskRow>,
    scope: Option<String>,
    t: int,
)
    requires
        0 <= t < tasks.len(),
    ensures
        ({
            let after = tasks_interrupted(tasks, scope);
            let concerned = scope is None || tasks[t].session_id@ == scope->0@;
            &&& after.len() == tasks.len()
            &&& concerned ==> after[t].status == match tasks[t].status {
                ChildTaskStatus::Accepted => ChildTaskStatus::Interrupted,
                ChildTaskStatus::Running => ChildTaskStatus::Interrupted,
                other => other,
            }
            &&& after[t] == (ChildTaskRow { status: after[t].status, ..tasks[t] })
            &&& !concerned ==> after[t] == tasks[t]
        }),
{
}

/// A session's controllers are told, each with its role and state: the one that it is under, and
/// those that handed it an input.
pub proof fn controllers_are_told(
    engine: StorageEngine,
    session_id: Seq<char>,
    ids: Seq<String>,
    controller: Seq<char>,
)
    requires
        is_controllers(engine, session_id, ids),
    ensures
        lists(ids, controller) <==> {
            ||| exists|i: int|
                0 <= i < engine.sessions@.len() && (#[trigger] engine.sessions@[i]).session_id@
                    == session_id && match engine.sessions@[i].proxy {
                    Some(proxy) => proxy.controller_session_id@ == controller,
                    None => false,
                }
            ||| exists|i: int|
                0 <= i < engine.inputs@.len() && (#[trigger] engine.inputs@[i]).session_id@
                    == session_id && match engine.inputs@[i].cross_session {
                    Some(CrossSessionBinding::ControllerDelivery { controller_session_id }) => {
                        controller_session_id@ == controller
                    },
                    _ => false,
                }
        },
{
    assert(lists(ids, controller) == names_controller(engine, session_id, controller));
    if exists|i: int|
        0 <= i < engine.inputs@.len() && (#[trigger] engine.inputs@[i]).session_id@ == session_id
            && match engine.inputs@[i].cross_session {
            Some(CrossSessionBinding::ControllerDelivery { controller_session_id }) => {
                controller_session_id@ == controller
            },
            _ => false,
        } {
        let i = choose|i: int|
            0 <= i < engine.inputs@.len() && (#[trigger] engine.inputs@[i]).session_id@
                == session_id && match engine.inputs@[i].cross_session {
                Some(CrossSessionBinding::ControllerDelivery { controller_session_id }) => {
                    controller_session_id@ == controller
                },
                _ => false,
            };
        assert(is_delivered_by(engine.inputs@[i], controller));
    }
    if exists|i: int|
        0 <= i < engine.inputs@.len() && (#[trigger] engine.inputs@[i]).session_id@ == session_id
            && is_delivered_by(engine.inputs@[i], controller) {
        let i = choose|i: int|
            0 <= i < engine.inputs@.len() && (#[trigger] engine.inputs@[i]).session_id@
                == session_id && is_delivered_by(engine.inputs@[i], controller);
        assert(engine.inputs@[i].session_id@ == session_id);
    }
}

/// The identities that are told are those of the sessions asked for that are there, with their role
/// and state, in the order asked for.
pub proof fn identities_are_those_of_the_sessions(engine: StorageEngine, ids: Seq<String>)
    requires
        identities_of(engine, ids) is Ok,
    ensures
        forall|k: int|
            0 <= k < identities_of(engine, ids)->Ok_0.len() ==> is_identity_of_one(
                engine,
                ids,
                #[trigger] identities_of(engine, ids)->Ok_0[k],
            ),
        forall|i: int, s: int|
            0 <= i < ids.len() && #[trigger] stands_at(
                engine.sessions@,
                s,
                (#[trigger] ids[i])@,
            ) ==> exists|k: int|
                0 <= k < identities_of(engine, ids)->Ok_0.len() && (
                #[trigger] identities_of(engine, ids)->Ok_0[k]).session_id
                    == engine.sessions@[s].session_id,
    decreases ids.len(),
{
    if ids.len() > 0 {
        let shorter = ids.drop_last();
        let last = ids.last()@;
        identities_are_those_of_the_sessions(engine, shorter);
        session_stands_where_found(engine.sessions@, last);
        let earlier = identities_of(engine, shorter)->Ok_0;
        let all = identities_of(engine, ids)->Ok_0;
        assert(ids[ids.len() - 1]@ == last);
        assert forall|k: int| 0 <= k < all.len() implies is_identity_of_one(
            engine,
            ids,
            #[trigger] all[k],
        ) by {
            if k < earlier.len() {
                assert(all[k] == earlier[k]);
                assert(is_identity_of_one(engine, shorter, earlier[k]));
                let (i, s) = choose|i: int, s: int|
                    0 <= i < shorter.len() && #[trigger] stands_at(
                        engine.sessions@,
                        s,
                        (#[trigger] shorter[i])@,
                    ) && tells(earlier[k], engine.sessions@[s]);
                assert(ids[i] == shorter[i]);
                assert(stands_at(engine.sessions@, s, ids[i]@));
            } else {
                let s = first(engine.sessions@, is_session(last))->0;
                assert(stands_at(engine.sessions@, s, ids[ids.len() - 1]@));
            }
        }
        assert forall|i: int, s: int|
            0 <= i < ids.len() && #[trigger] stands_at(
                engine.sessions@,
                s,
                (#[trigger] ids[i])@,
            ) implies exists|k: int|
            0 <= k < all.len() && (#[trigger] all[k]).session_id
                == engine.sessions@[s].session_id by {
            if i < shorter.len() {
                assert(shorter[i] == ids[i]);
                assert(stands_at(engine.sessions@, s, shorter[i]@));
                let k = choose|k: int|
                    0 <= k < earlier.len() && (#[trigger] earlier[k]).session_id
                        == engine.sessions@[s].session_id;
                assert(all[k] == earlier[k]);
            } else {
                assert(all[earlier.len() as int].session_id == engine.sessions@[s].session_id);
            }
        }
    }
}

/// An identity says of a session who it is, in what role and in what state.
pub open spec fn tells(identity: SessionIdentity, row: SessionRow) -> bool {
    &&& identity.session_id == row.session_id
    &&& identity.role == row.role
    &&& identity.lifecycle == row.lifecycle
}

/// An identity is that of one of some sessions.
pub open spec fn is_identity_of_one(
    engine: StorageEngine,
    ids: Seq<String>,
    identity: SessionIdentity,
) -> bool {
    exists|i: int, s: int|
        0 <= i < ids.len() && #[trigger] stands_at(
            engine.sessions@,
            s,
            (#[trigger] ids[i])@,
        ) && tells(identity, engine.sessions@[s])
}

/// At a restart the running goals of a session wait for the user, one generation on; the inputs that
/// the runtime had queued for them are taken back. Other goals stay.
pub proof fn running_goals_wait_for_the_user(
    before: StorageEngine,
    after: StorageEngine,
    scope: Option<String>,
    g: int,
)
    requires
        goals_paused(before, after, scope),
        0 <= g < before.goals@.len(),
    ensures
        after.goals@.len() == before.goals@.len(),
        ({
            let goal = before.goals@[g];
            let next = after.goals@[g];
            if goal.state is Running && (scope is None || goal.session_id@ == scope->0@) {
                &&& next.state is Paused
                &&& next.pause_reason == Some(GoalPauseReason::RecoveryRequired)
                &&& goal.generation < u64::MAX ==> next.generation == goal.generation + 1
                &&& next == (StoredGoal {
                    state: next.state,
                    pause_reason: next.pause_reason,
                    generation: next.generation,
                    ..goal
                })
            } else {
                next == goal
            }
        }),
{
}

/// An input that the runtime had queued for a goal that ran.
pub open spec fn was_queued_for_running(
    engine: StorageEngine,
    scope: Option<String>,
    input: StoredInput,
) -> bool {
    &&& input.state is Queued
    &&& input.origin is Runtime
    &&& match input.goal_binding {
        Some(binding) => exists|g: int|
            0 <= g < engine.goals@.len() && (#[trigger] engine.goals@[g]).goal_id@
                == binding.goal_id@ && engine.goals@[g].state is Running && (scope is None
                || engine.goals@[g].session_id@ == scope->0@),
        None => false,
    }
}

/// The inputs that are taken back when goals wait are those that the runtime had queued for them.
pub proof fn continuations_of_waiting_goals_are_taken_back(
    before: StorageEngine,
    scope: Option<String>,
    i: int,
)
    requires
        0 <= i < before.inputs@.len(),
    ensures
        is_stale_continuation(running_goals(before.goals@, scope))(before.inputs@[i])
            == was_queued_for_running(before, scope, before.inputs@[i]),
{
    let input = before.inputs@[i];
    if input.goal_binding is Some {
        let id = input.goal_binding->0.goal_id@;
        kept_names(before.goals@, runs_in(scope), goal_key(), id);
        if lists(running_goals(before.goals@, scope), id) {
            let g = choose|g: int|
                0 <= g < before.goals@.len() && runs_in(scope)(#[trigger] before.goals@[g])
                    && goal_key()(before.goals@[g])@ == id;
            assert(before.goals@[g].goal_id@ == id);
        }
        if was_queued_for_running(before, scope, input) {
            let g = choose|g: int|
                0 <= g < before.goals@.len() && (#[trigger] before.goals@[g]).goal_id@ == id
                    && before.goals@[g].state is Running && (scope is None
                    || before.goals@[g].session_id@ == scope->0@);
            assert(runs_in(scope)(before.goals@[g]) && goal_key()(before.goals@[g])@ == id);
        }
    }
}

/// A session whose images are not in order is listed as unavailable, once it is there and nothing of
/// it is left to be cleaned up. No other is.
pub proof fn sessions_with_bad_images_are_unavailable(
    before: StorageEngine,
    after: StorageEngine,
    session_id: String,
    mended: MendedSession,
    diagnostic: bool,
    other: Seq<char>,
)
    requires
        images_judged(before, after, session_id, mended, diagnostic),
    ensures
        after == (StorageEngine { unavailable_sessions: after.unavailable_sessions, ..before }),
        lists(after.unavailable_sessions@, other) <==> lists(before.unavailable_sessions@, other)
            || (other == session_id@ && diagnostic && mended.body_generation is Some && !lists(
            mended.uncleaned@,
            session_id@,
        )),
{
    let old_list = before.unavailable_sessions@;
    let new_list = after.unavailable_sessions@;
    if lists(old_list, other) {
        let i = choose|i: int| 0 <= i < old_list.len() && (#[trigger] old_list[i])@ == other;
        assert(new_list[i] == old_list[i]);
    }
    if new_list.len() > old_list.len() {
        assert(new_list[old_list.len() as int] == session_id);
    }
    if lists(new_list, other) {
        let i = choose|i: int| 0 <= i < new_list.len() && (#[trigger] new_list[i])@ == other;
        if i < old_list.len() {
            assert(new_list[i] == old_list[i]);
        }
    }
}

} // verus!
