//! What goes with an input when it is removed: its runs, and all that belongs to them.

use std::sync::Arc;
use vstd::prelude::*;

use crate::append_effect::{ConversationStorageTarget, StagedAppend};
use crate::engine::StorageEngine;
use crate::rows::{ChildTaskRow, McpSelectionRow, PendingStart, RunMessageRef, RunRow, StoredInput};
use crate::table::{keep, kept, listed};
use crate::text::{holds_text, lists};
use crate::tool_exchange::{PendingExchange, PendingTarget};

verus! {

/// The condition of having no identifier from a list.
pub open spec fn input_out(gone: Seq<String>) -> spec_fn(StoredInput) -> bool {
    |row: StoredInput| !lists(gone, row.input_id@)
}

/// The condition of working on an input from a list.
pub open spec fn run_in(gone: Seq<String>) -> spec_fn(RunRow) -> bool {
    |row: RunRow| lists(gone, row.input_id@)
}

pub open spec fn run_out(gone: Seq<String>) -> spec_fn(RunRow) -> bool {
    |row: RunRow| !lists(gone, row.input_id@)
}

/// The condition of referring from no run of a list.
pub open spec fn ref_out(gone: Seq<String>) -> spec_fn(RunMessageRef) -> bool {
    |row: RunMessageRef| !lists(gone, row.run_id@)
}

/// The condition of being delegated by a run from a list.
pub open spec fn child_in(gone: Seq<String>) -> spec_fn(ChildTaskRow) -> bool {
    |row: ChildTaskRow| lists(gone, row.parent_run_id@)
}

pub open spec fn child_out(gone: Seq<String>) -> spec_fn(ChildTaskRow) -> bool {
    |row: ChildTaskRow| !lists(gone, row.parent_run_id@)
}

/// The run or delegated task that an append belongs to.
pub open spec fn append_subject(target: ConversationStorageTarget) -> String {
    match target {
        ConversationStorageTarget::Session { session_id, run_id } => run_id,
        ConversationStorageTarget::ChildTask { session_id, child_task_id } => child_task_id,
    }
}

/// The condition of belonging to no run or delegated task of a list.
pub open spec fn append_out(gone: Seq<String>) -> spec_fn(Arc<StagedAppend>) -> bool {
    |row: Arc<StagedAppend>| !lists(gone, append_subject(row.target)@)
}

/// The run or delegated task that an exchange belongs to.
pub open spec fn exchange_subject(target: PendingTarget) -> String {
    match target {
        PendingTarget::Run { session_id, run_id } => run_id,
        PendingTarget::ChildTask { session_id, child_task_id } => child_task_id,
    }
}

/// The condition of belonging to a run or delegated task of a list.
pub open spec fn exchange_in(gone: Seq<String>) -> spec_fn(Arc<PendingExchange>) -> bool {
    |row: Arc<PendingExchange>| lists(gone, exchange_subject(row.target)@)
}

pub open spec fn exchange_out(gone: Seq<String>) -> spec_fn(Arc<PendingExchange>) -> bool {
    |row: Arc<PendingExchange>| !lists(gone, exchange_subject(row.target)@)
}

/// The condition of belonging to no exchange of a list.
pub open spec fn start_out(gone: Seq<String>) -> spec_fn(PendingStart) -> bool {
    |row: PendingStart| !lists(gone, row.receipt_id@)
}

/// The condition of belonging to no input of a list.
pub open spec fn selection_out(gone: Seq<String>) -> spec_fn(McpSelectionRow) -> bool {
    |row: McpSelectionRow| !lists(gone, row.input_id@)
}

/// The runs that work on inputs of a list.
pub open spec fn runs_of(runs: Seq<RunRow>, gone: Seq<String>) -> Seq<String> {
    kept(runs, run_in(gone)).map_values(run_key())
}

pub open spec fn run_key() -> spec_fn(RunRow) -> String {
    |row: RunRow| row.run_id
}

/// The tasks that runs of a list delegated.
pub open spec fn children_of(children: Seq<ChildTaskRow>, gone: Seq<String>) -> Seq<String> {
    kept(children, child_in(gone)).map_values(child_key())
}

pub open spec fn child_key() -> spec_fn(ChildTaskRow) -> String {
    |row: ChildTaskRow| row.child_task_id
}

/// The receipts of the exchanges that belong to runs or delegated tasks of a list.
pub open spec fn receipts_of(exchanges: Seq<Arc<PendingExchange>>, gone: Seq<String>) -> Seq<
    String,
> {
    kept(exchanges, exchange_in(gone)).map_values(exchange_key())
}

pub open spec fn exchange_key() -> spec_fn(Arc<PendingExchange>) -> String {
    |row: Arc<PendingExchange>| row.receipt_id
}

/// The engine without some inputs, and without all that belongs to their runs.
pub open spec fn inputs_removed(before: StorageEngine, after: StorageEngine, gone: Seq<String>) -> bool {
    let runs = runs_of(before.runs@, gone);
    let children = children_of(before.child_tasks@, runs);
    &&& after == (StorageEngine {
        inputs: after.inputs,
        runs: after.runs,
        run_message_refs: after.run_message_refs,
        child_tasks: after.child_tasks,
        body_appends: after.body_appends,
        child_body_appends: after.child_body_appends,
        pending_exchanges: after.pending_exchanges,
        child_pending_exchanges: after.child_pending_exchanges,
        pending_starts: after.pending_starts,
        child_pending_starts: after.child_pending_starts,
        mcp_selections: after.mcp_selections,
        ..before
    })
    &&& after.inputs@ == kept(before.inputs@, input_out(gone))
    &&& after.runs@ == kept(before.runs@, run_out(gone))
    &&& after.run_message_refs@ == kept(before.run_message_refs@, ref_out(runs))
    &&& after.child_tasks@ == kept(before.child_tasks@, child_out(runs))
    &&& after.body_appends@ == kept(before.body_appends@, append_out(runs))
    &&& after.child_body_appends@ == kept(before.child_body_appends@, append_out(children))
    &&& after.pending_exchanges@ == kept(before.pending_exchanges@, exchange_out(runs))
    &&& after.child_pending_exchanges@ == kept(
        before.child_pending_exchanges@,
        exchange_out(children),
    )
    &&& after.pending_starts@ == kept(
        before.pending_starts@,
        start_out(receipts_of(before.pending_exchanges@, runs)),
    )
    &&& after.child_pending_starts@ == kept(
        before.child_pending_starts@,
        start_out(receipts_of(before.child_pending_exchanges@, children)),
    )
    &&& after.mcp_selections@ == kept(before.mcp_selections@, selection_out(gone))
}

fn drop_appends(rows: &mut Vec<Arc<StagedAppend>>, gone: &Vec<String>)
    ensures
        final(rows)@ == kept(old(rows)@, append_out(gone@)),
{
    keep(
        rows,
        Ghost(append_out(gone@)),
        |row: &Arc<StagedAppend>| -> (stays: bool)
            ensures
                stays == append_out(gone@)(*row)
            {
                match &row.target {
                    ConversationStorageTarget::Session { session_id, run_id } => !holds_text(
                        gone,
                        run_id.as_str(),
                    ),
                    ConversationStorageTarget::ChildTask { session_id, child_task_id } => {
                        !holds_text(gone, child_task_id.as_str())
                    },
                }
            },
    );
}

fn drop_exchanges(
    rows: &mut Vec<Arc<PendingExchange>>,
    starts: &mut Vec<PendingStart>,
    gone: &Vec<String>,
)
    ensures
        final(rows)@ == kept(old(rows)@, exchange_out(gone@)),
        final(starts)@ == kept(old(starts)@, start_out(receipts_of(old(rows)@, gone@))),
{
    let receipts = listed(
        rows,
        Ghost(exchange_in(gone@)),
        |row: &Arc<PendingExchange>| -> (goes: bool)
            ensures
                goes == exchange_in(gone@)(*row)
            {
                match &row.target {
                    PendingTarget::Run { session_id, run_id } => holds_text(gone, run_id.as_str()),
                    PendingTarget::ChildTask { session_id, child_task_id } => holds_text(
                        gone,
                        child_task_id.as_str(),
                    ),
                }
            },
        Ghost(exchange_key()),
        |row: &Arc<PendingExchange>| -> (id: String)
            ensures
                id == row.receipt_id
            { row.receipt_id.clone() },
    );
    keep(
        rows,
        Ghost(exchange_out(gone@)),
        |row: &Arc<PendingExchange>| -> (stays: bool)
            ensures
                stays == exchange_out(gone@)(*row)
            {
                match &row.target {
                    PendingTarget::Run { session_id, run_id } => !holds_text(gone, run_id.as_str()),
                    PendingTarget::ChildTask { session_id, child_task_id } => !holds_text(
                        gone,
                        child_task_id.as_str(),
                    ),
                }
            },
    );
    keep(
        starts,
        Ghost(start_out(receipts@)),
        |row: &PendingStart| -> (stays: bool)
            ensures
                stays == !lists(receipts@, row.receipt_id@)
            { !holds_text(&receipts, row.receipt_id.as_str()) },
    );
}

impl StorageEngine {
    /// Removes inputs with all that belongs to their runs, and names the delegated tasks among it.
    pub fn remove_inputs(&mut self, gone: &Vec<String>) -> (children: Vec<String>)
        ensures
            inputs_removed(*old(self), *final(self), gone@),
            children@ == children_of(old(self).child_tasks@, runs_of(old(self).runs@, gone@)),
    {
        let runs = listed(
            &self.runs,
            Ghost(run_in(gone@)),
            |row: &RunRow| -> (goes: bool)
                ensures
                    goes == lists(gone@, row.input_id@)
                { holds_text(gone, row.input_id.as_str()) },
            Ghost(run_key()),
            |row: &RunRow| -> (id: String)
                ensures
                    id == row.run_id
                { row.run_id.clone() },
        );
        let children = listed(
            &self.child_tasks,
            Ghost(child_in(runs@)),
            |row: &ChildTaskRow| -> (goes: bool)
                ensures
                    goes == lists(runs@, row.parent_run_id@)
                { holds_text(&runs, row.parent_run_id.as_str()) },
            Ghost(child_key()),
            |row: &ChildTaskRow| -> (id: String)
                ensures
                    id == row.child_task_id
                { row.child_task_id.clone() },
        );
        keep(
            &mut self.inputs,
            Ghost(input_out(gone@)),
            |row: &StoredInput| -> (stays: bool)
                ensures
                    stays == !lists(gone@, row.input_id@)
                { !holds_text(gone, row.input_id.as_str()) },
        );
        keep(
            &mut self.mcp_selections,
            Ghost(selection_out(gone@)),
            |row: &McpSelectionRow| -> (stays: bool)
                ensures
                    stays == !lists(gone@, row.input_id@)
                { !holds_text(gone, row.input_id.as_str()) },
        );
        keep(
            &mut self.runs,
            Ghost(run_out(gone@)),
            |row: &RunRow| -> (stays: bool)
                ensures
                    stays == !lists(gone@, row.input_id@)
                { !holds_text(gone, row.input_id.as_str()) },
        );
        keep(
            &mut self.run_message_refs,
            Ghost(ref_out(runs@)),
            |row: &RunMessageRef| -> (stays: bool)
                ensures
                    stays == !lists(runs@, row.run_id@)
                { !holds_text(&runs, row.run_id.as_str()) },
        );
        keep(
            &mut self.child_tasks,
            Ghost(child_out(runs@)),
            |row: &ChildTaskRow| -> (stays: bool)
                ensures
                    stays == !lists(runs@, row.parent_run_id@)
                { !holds_text(&runs, row.parent_run_id.as_str()) },
        );
        drop_appends(&mut self.body_appends, &runs);
        drop_appends(&mut self.child_body_appends, &children);
        drop_exchanges(&mut self.pending_exchanges, &mut self.pending_starts, &runs);
        drop_exchanges(
            &mut self.child_pending_exchanges,
            &mut self.child_pending_starts,
            &children,
        );
        children
    }
}

} // verus!
