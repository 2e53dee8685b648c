//! Whether a session has work under way.

use std::sync::Arc;
use vstd::prelude::*;

use crate::append_effect::{
    is_terminal, session_of, terminal, ConversationStorageTarget, StagedAppend,
};
use crate::engine::StorageEngine;
use crate::error::{conflict, conflicting, StorageResult};
use crate::exchange_recovery::exchange_session;
use crate::rows::{ChildTaskRow, ChildTaskStatus, InputState, RunRow, StoredInput};
use crate::run_projection::RunStatus;
use crate::table::{any, some_row};
use crate::tool_exchange::{PendingExchange, PendingTarget};

verus! {

/// The condition of being an input of a session that waits for its run.
pub open spec fn is_queued_in(session_id: Seq<char>) -> spec_fn(StoredInput) -> bool {
    |row: StoredInput| row.session_id@ == session_id && row.state is Queued
}

/// The condition of being a run of a session that is under way.
pub open spec fn is_active_in(session_id: Seq<char>) -> spec_fn(RunRow) -> bool {
    |row: RunRow|
        row.session_id@ == session_id && (row.status is Accepted || row.status is Running
            || row.status is Cancelling)
}

/// The condition of being a run of a session that has not ended.
pub open spec fn is_open_in(session_id: Seq<char>) -> spec_fn(RunRow) -> bool {
    |row: RunRow| row.session_id@ == session_id && !terminal(row.status)
}

/// The condition of being a tool exchange of a session.
pub open spec fn is_exchange_in(session_id: Seq<char>) -> spec_fn(Arc<PendingExchange>) -> bool {
    |row: Arc<PendingExchange>| exchange_session(row.target)@ == session_id
}

/// The condition of being an announced append of a session.
pub open spec fn is_append_in(session_id: Seq<char>) -> spec_fn(Arc<StagedAppend>) -> bool {
    |row: Arc<StagedAppend>| session_of(row.target)@ == session_id
}

/// A delegated task that has not ended.
pub open spec fn unfinished(status: ChildTaskStatus) -> bool {
    status is Accepted || status is Running
}

/// The condition of being a delegated task of a session that has not ended.
pub open spec fn is_child_in(session_id: Seq<char>) -> spec_fn(ChildTaskRow) -> bool {
    |row: ChildTaskRow| row.session_id@ == session_id && unfinished(row.status)
}

/// A session works on an input, or has one to work on.
pub open spec fn working(engine: StorageEngine, session_id: Seq<char>) -> bool {
    ||| some_row(engine.inputs@, is_queued_in(session_id))
    ||| some_row(engine.runs@, is_active_in(session_id))
    ||| some_row(engine.pending_exchanges@, is_exchange_in(session_id))
}

/// A session or one of its delegated tasks has something under way that its files belong to.
pub open spec fn busy_for_transfer(engine: StorageEngine, session_id: Seq<char>) -> bool {
    ||| some_row(engine.inputs@, is_queued_in(session_id))
    ||| some_row(engine.runs@, is_active_in(session_id))
    ||| some_row(engine.child_tasks@, is_child_in(session_id))
    ||| some_row(engine.pending_exchanges@, is_exchange_in(session_id))
    ||| some_row(engine.child_pending_exchanges@, is_exchange_in(session_id))
}

/// A session or one of its delegated tasks has something under way that its history belongs to.
pub open spec fn busy_for_history(engine: StorageEngine, session_id: Seq<char>) -> bool {
    ||| some_row(engine.inputs@, is_queued_in(session_id))
    ||| some_row(engine.runs@, is_open_in(session_id))
    ||| some_row(engine.pending_exchanges@, is_exchange_in(session_id))
    ||| some_row(engine.body_appends@, is_append_in(session_id))
    ||| some_row(engine.child_tasks@, is_child_in(session_id))
    ||| some_row(engine.child_pending_exchanges@, is_exchange_in(session_id))
    ||| some_row(engine.child_body_appends@, is_append_in(session_id))
}

fn any_exchange(rows: &Vec<Arc<PendingExchange>>, session_id: &String) -> (result: bool)
    ensures
        result == some_row(rows@, is_exchange_in(session_id@)),
{
    any(
        rows,
        Ghost(is_exchange_in(session_id@)),
        |row: &Arc<PendingExchange>| -> (found: bool)
            ensures
                found == is_exchange_in(session_id@)(*row)
            {
                match &row.target {
                    PendingTarget::Run { session_id: session, run_id } => *session == *session_id,
                    PendingTarget::ChildTask { session_id: session, child_task_id } => *session
                        == *session_id,
                }
            },
    )
}

/// Whether an append of a session is announced.
pub fn any_append(rows: &Vec<Arc<StagedAppend>>, session_id: &String) -> (result: bool)
    ensures
        result == some_row(rows@, is_append_in(session_id@)),
{
    any(
        rows,
        Ghost(is_append_in(session_id@)),
        |row: &Arc<StagedAppend>| -> (found: bool)
            ensures
                found == is_append_in(session_id@)(*row)
            {
                match &row.target {
                    ConversationStorageTarget::Session { session_id: session, run_id } => *session
                        == *session_id,
                    ConversationStorageTarget::ChildTask { session_id: session, child_task_id } => {
                        *session == *session_id
                    },
                }
            },
    )
}

impl StorageEngine {
    fn has_queued_input(&self, session_id: &String) -> (result: bool)
        ensures
            result == some_row(self.inputs@, is_queued_in(session_id@)),
    {
        any(
            &self.inputs,
            Ghost(is_queued_in(session_id@)),
            |row: &StoredInput| -> (found: bool)
                ensures
                    found == (row.session_id@ == session_id@ && row.state is Queued)
                { row.session_id == *session_id && matches!(row.state, InputState::Queued) },
        )
    }

    fn has_active_run(&self, session_id: &String) -> (result: bool)
        ensures
            result == some_row(self.runs@, is_active_in(session_id@)),
    {
        any(
            &self.runs,
            Ghost(is_active_in(session_id@)),
            |row: &RunRow| -> (found: bool)
                ensures
                    found == is_active_in(session_id@)(*row)
                {
                    row.session_id == *session_id && matches!(
                        row.status,
                        RunStatus::Accepted | RunStatus::Running | RunStatus::Cancelling
                    )
                },
        )
    }

    fn has_open_child(&self, session_id: &String) -> (result: bool)
        ensures
            result == some_row(self.child_tasks@, is_child_in(session_id@)),
    {
        any(
            &self.child_tasks,
            Ghost(is_child_in(session_id@)),
            |row: &ChildTaskRow| -> (found: bool)
                ensures
                    found == is_child_in(session_id@)(*row)
                {
                    row.session_id == *session_id && matches!(
                        row.status,
                        ChildTaskStatus::Accepted | ChildTaskStatus::Running
                    )
                },
        )
    }

    /// Whether a session works on an input, or has one to work on.
    pub fn is_working(&self, session_id: &String) -> (result: bool)
        ensures
            result == working(*self, session_id@),
    {
        self.has_queued_input(session_id) || self.has_active_run(session_id) || any_exchange(
            &self.pending_exchanges,
            session_id,
        )
    }

    /// Whether anything of a session, its tasks included, is announced or pending.
    pub fn has_unfinished_writes(&self, session_id: &String) -> (result: bool)
        ensures
            result == unfinished_writes(*self, session_id@),
    {
        any_append(&self.body_appends, session_id) || any_exchange(
            &self.pending_exchanges,
            session_id,
        ) || any_append(&self.child_body_appends, session_id) || any_exchange(
            &self.child_pending_exchanges,
            session_id,
        )
    }

    /// Whether a session can be handed over: forked, or deleted.
    pub fn ensure_session_idle_for_transfer(&self, session_id: &String) -> (result: StorageResult<
        (),
    >)
        ensures
            busy_for_transfer(*self, session_id@) ==> result is Err && result->Err_0@
                == conflicting("session is not idle"@),
            !busy_for_transfer(*self, session_id@) ==> result is Ok,
    {
        if self.has_queued_input(session_id) || self.has_active_run(session_id)
            || self.has_open_child(session_id) || any_exchange(&self.pending_exchanges, session_id)
            || any_exchange(&self.child_pending_exchanges, session_id) {
            return Err(conflict("session is not idle"));
        }
        Ok(())
    }

    /// Whether the history of a session can be changed as a whole.
    pub fn ensure_session_history_idle(&self, session_id: &String) -> (result: StorageResult<()>)
        ensures
            busy_for_history(*self, session_id@) ==> result is Err && result->Err_0@
                == conflicting("session history operation requires an idle session"@),
            !busy_for_history(*self, session_id@) ==> result is Ok,
    {
        let open_run = any(
            &self.runs,
            Ghost(is_open_in(session_id@)),
            |row: &RunRow| -> (found: bool)
                ensures
                    found == is_open_in(session_id@)(*row)
                { row.session_id == *session_id && !is_terminal(row.status) },
        );
        if open_run || self.has_queued_input(session_id) || any_exchange(
            &self.pending_exchanges,
            session_id,
        ) || any_append(&self.body_appends, session_id) || self.has_open_child(session_id)
            || any_exchange(&self.child_pending_exchanges, session_id) || any_append(
            &self.child_body_appends,
            session_id,
        ) {
            return Err(conflict("session history operation requires an idle session"));
        }
        Ok(())
    }
}

/// Something of a session, its tasks included, is announced or pending.
pub open spec fn unfinished_writes(engine: StorageEngine, session_id: Seq<char>) -> bool {
    ||| some_row(engine.body_appends@, is_append_in(session_id))
    ||| some_row(engine.pending_exchanges@, is_exchange_in(session_id))
    ||| some_row(engine.child_body_appends@, is_append_in(session_id))
    ||| some_row(engine.child_pending_exchanges@, is_exchange_in(session_id))
}

/// A session that is idle for its history can also be handed over, and works on nothing.
pub proof fn idle_history_implies_the_rest(engine: StorageEngine, session_id: Seq<char>)
    requires
        !busy_for_history(engine, session_id),
    ensures
        !busy_for_transfer(engine, session_id),
        !working(engine, session_id),
        !unfinished_writes(engine, session_id),
{
    if some_row(engine.runs@, is_active_in(session_id)) {
        let i = choose|i: int|
            0 <= i < engine.runs@.len() && is_active_in(session_id)(#[trigger] engine.runs@[i]);
        assert(is_open_in(session_id)(engine.runs@[i]));
    }
}

} // verus!
