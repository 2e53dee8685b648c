//! What goes when inputs go, and what stays.

use std::sync::Arc;
use vstd::prelude::*;

use crate::append_effect::{ConversationStorageTarget, StagedAppend};
use crate::cascade::{
    append_out, child_in, child_key, child_out, children_of, exchange_in, exchange_key,
    exchange_out, input_out, inputs_removed, receipts_of, ref_out, run_in, run_key, run_out,
    runs_of, selection_out, start_out,
};
use crate::engine::StorageEngine;
use crate::keys::{input_name, unique};
use crate::relations::{kept_is_filtered, kept_names};
use crate::rows::{ChildTaskRow, McpSelectionRow, PendingStart, RunMessageRef, RunRow, StoredInput};
use crate::session_rewrite::input_key;
use crate::table::kept;
use crate::text::lists;
use crate::tool_exchange::{PendingExchange, PendingTarget};

verus! {

/// An input that goes has this identifier.
pub open spec fn input_goes(
    engine: StorageEngine,
    goes: spec_fn(StoredInput) -> bool,
    input_id: Seq<char>,
) -> bool {
    exists|i: int|
        0 <= i < engine.inputs@.len() && goes(#[trigger] engine.inputs@[i])
            && engine.inputs@[i].input_id@ == input_id
}

/// A run of an input that goes has this identifier.
pub open spec fn run_goes(
    engine: StorageEngine,
    goes: spec_fn(StoredInput) -> bool,
    run_id: Seq<char>,
) -> bool {
    exists|i: int|
        0 <= i < engine.runs@.len() && (#[trigger] engine.runs@[i]).run_id@ == run_id
            && input_goes(engine, goes, engine.runs@[i].input_id@)
}

/// A delegated task of a run that goes has this identifier.
pub open spec fn task_goes(
    engine: StorageEngine,
    goes: spec_fn(StoredInput) -> bool,
    child_task_id: Seq<char>,
) -> bool {
    exists|i: int|
        0 <= i < engine.child_tasks@.len() && (
        #[trigger] engine.child_tasks@[i]).child_task_id@ == child_task_id && run_goes(
            engine,
            goes,
            engine.child_tasks@[i].parent_run_id@,
        )
}

/// The run or task that an append goes to.
pub open spec fn append_subject_text(target: ConversationStorageTarget) -> Seq<char> {
    match target {
        ConversationStorageTarget::Session { session_id, run_id } => run_id@,
        ConversationStorageTarget::ChildTask { session_id, child_task_id } => child_task_id@,
    }
}

/// The run or task whose exchange is pending.
pub open spec fn exchange_subject_text(target: PendingTarget) -> Seq<char> {
    match target {
        PendingTarget::Run { session_id, run_id } => run_id@,
        PendingTarget::ChildTask { session_id, child_task_id } => child_task_id@,
    }
}

/// Inputs go with their runs and all that belongs to those; everything else stays, in its order.
pub open spec fn work_is_removed(
    before: StorageEngine,
    after: StorageEngine,
    goes: spec_fn(StoredInput) -> bool,
) -> bool {
    &&& after.inputs@ == before.inputs@.filter(|row: StoredInput| !goes(row))
    &&& after.runs@ == before.runs@.filter(
        |row: RunRow| !input_goes(before, goes, row.input_id@),
    )
    &&& after.run_message_refs@ == before.run_message_refs@.filter(
        |row: RunMessageRef| !run_goes(before, goes, row.run_id@),
    )
    &&& after.child_tasks@ == before.child_tasks@.filter(
        |row: ChildTaskRow| !run_goes(before, goes, row.parent_run_id@),
    )
    &&& after.body_appends@ == before.body_appends@.filter(
        |row: Arc<StagedAppend>| !run_goes(before, goes, append_subject_text(row.target)),
    )
    &&& after.child_body_appends@ == before.child_body_appends@.filter(
        |row: Arc<StagedAppend>| !task_goes(before, goes, append_subject_text(row.target)),
    )
    &&& after.pending_exchanges@ == before.pending_exchanges@.filter(
        |row: Arc<PendingExchange>| !run_goes(before, goes, exchange_subject_text(row.target)),
    )
    &&& after.child_pending_exchanges@ == before.child_pending_exchanges@.filter(
        |row: Arc<PendingExchange>| !task_goes(before, goes, exchange_subject_text(row.target)),
    )
    &&& after.pending_starts@ == before.pending_starts@.filter(
        |row: PendingStart|
            forall|i: int|
                0 <= i < before.pending_exchanges@.len() && (
                #[trigger] before.pending_exchanges@[i]).receipt_id@ == row.receipt_id@
                    ==> !run_goes(
                    before,
                    goes,
                    exchange_subject_text(before.pending_exchanges@[i].target),
                ),
    )
    &&& after.child_pending_starts@ == before.child_pending_starts@.filter(
        |row: PendingStart|
            forall|i: int|
                0 <= i < before.child_pending_exchanges@.len() && (
                #[trigger] before.child_pending_exchanges@[i]).receipt_id@ == row.receipt_id@
                    ==> !task_goes(
                    before,
                    goes,
                    exchange_subject_text(before.child_pending_exchanges@[i].target),
                ),
    )
}

/// Selections of servers go with the inputs that they were made for.
pub open spec fn selections_are_removed(
    before: StorageEngine,
    after: StorageEngine,
    goes: spec_fn(StoredInput) -> bool,
) -> bool {
    after.mcp_selections@ == before.mcp_selections@.filter(
        |row: McpSelectionRow| !input_goes(before, goes, row.input_id@),
    )
}

/// The lists of what goes name exactly what goes.
proof fn gone_is_listed(
    before: StorageEngine,
    condition: spec_fn(StoredInput) -> bool,
    goes: spec_fn(StoredInput) -> bool,
)
    requires
        forall|row: StoredInput| #[trigger] condition(row) == goes(row),
    ensures
        ({
            let gone = kept(before.inputs@, condition).map_values(input_key());
            let runs = runs_of(before.runs@, gone);
            let children = children_of(before.child_tasks@, runs);
            &&& forall|id: Seq<char>| #[trigger] lists(gone, id) == input_goes(before, goes, id)
            &&& forall|id: Seq<char>| #[trigger] lists(runs, id) == run_goes(before, goes, id)
            &&& forall|id: Seq<char>| #[trigger] lists(children, id) == task_goes(before, goes, id)
        }),
{
    let gone = kept(before.inputs@, condition).map_values(input_key());
    let runs = runs_of(before.runs@, gone);
    let children = children_of(before.child_tasks@, runs);
    assert forall|id: Seq<char>| #[trigger] lists(gone, id) == input_goes(before, goes, id) by {
        kept_names(before.inputs@, condition, input_key(), id);
        if input_goes(before, goes, id) {
            let i = choose|i: int|
                0 <= i < before.inputs@.len() && goes(#[trigger] before.inputs@[i])
                    && before.inputs@[i].input_id@ == id;
            assert(condition(before.inputs@[i]) && input_key()(before.inputs@[i])@ == id);
        }
        if lists(gone, id) {
            let i = choose|i: int|
                0 <= i < before.inputs@.len() && condition(#[trigger] before.inputs@[i])
                    && input_key()(before.inputs@[i])@ == id;
            assert(goes(before.inputs@[i]) && before.inputs@[i].input_id@ == id);
        }
    }
    assert forall|id: Seq<char>| #[trigger] lists(runs, id) == run_goes(before, goes, id) by {
        kept_names(before.runs@, run_in(gone), run_key(), id);
        if run_goes(before, goes, id) {
            let i = choose|i: int|
                0 <= i < before.runs@.len() && (#[trigger] before.runs@[i]).run_id@ == id
                    && input_goes(before, goes, before.runs@[i].input_id@);
            assert(lists(gone, before.runs@[i].input_id@));
            assert(run_in(gone)(before.runs@[i]) && run_key()(before.runs@[i])@ == id);
        }
        if lists(runs, id) {
            let i = choose|i: int|
                0 <= i < before.runs@.len() && run_in(gone)(#[trigger] before.runs@[i])
                    && run_key()(before.runs@[i])@ == id;
            assert(lists(gone, before.runs@[i].input_id@));
            assert(before.runs@[i].run_id@ == id);
        }
    }
    assert forall|id: Seq<char>| #[trigger] lists(children, id) == task_goes(before, goes, id) by {
        kept_names(before.child_tasks@, child_in(runs), child_key(), id);
        if task_goes(before, goes, id) {
            let i = choose|i: int|
                0 <= i < before.child_tasks@.len() && (
                #[trigger] before.child_tasks@[i]).child_task_id@ == id && run_goes(
                    before,
                    goes,
                    before.child_tasks@[i].parent_run_id@,
                );
            assert(lists(runs, before.child_tasks@[i].parent_run_id@));
            assert(child_in(runs)(before.child_tasks@[i]) && child_key()(
                before.child_tasks@[i],
            )@ == id);
        }
        if lists(children, id) {
            let i = choose|i: int|
                0 <= i < before.child_tasks@.len() && child_in(runs)(
                    #[trigger] before.child_tasks@[i],
                ) && child_key()(before.child_tasks@[i])@ == id;
            assert(lists(runs, before.child_tasks@[i].parent_run_id@));
            assert(before.child_tasks@[i].child_task_id@ == id);
        }
    }
}

/// The tasks that are listed as going are those that go.
pub proof fn gone_tasks_are_listed(
    before: StorageEngine,
    condition: spec_fn(StoredInput) -> bool,
    goes: spec_fn(StoredInput) -> bool,
    id: Seq<char>,
)
    requires
        forall|row: StoredInput| #[trigger] condition(row) == goes(row),
    ensures
        lists(
            children_of(
                before.child_tasks@,
                runs_of(before.runs@, kept(before.inputs@, condition).map_values(input_key())),
            ),
            id,
        ) == task_goes(before, goes, id),
{
    gone_is_listed(before, condition, goes);
}

/// What goes is told by inputs, runs and tasks alone.
pub proof fn removal_is_by_what_goes(
    before: StorageEngine,
    same: StorageEngine,
    after: StorageEngine,
    goes: spec_fn(StoredInput) -> bool,
)
    requires
        same == (StorageEngine { files: same.files, known: same.known, ..before }),
        forall|text: Seq<char>| #[trigger]
            input_goes(same, goes, text) == input_goes(before, goes, text),
        forall|text: Seq<char>| #[trigger]
            run_goes(same, goes, text) == run_goes(before, goes, text),
        forall|text: Seq<char>| #[trigger]
            task_goes(same, goes, text) == task_goes(before, goes, text),
        work_is_removed(same, after, goes),
        selections_are_removed(same, after, goes),
    ensures
        work_is_removed(before, after, goes),
        selections_are_removed(before, after, goes),
{
    assert((|row: RunRow| !input_goes(same, goes, row.input_id@)) =~= (|row: RunRow|
        !input_goes(before, goes, row.input_id@)));
    assert((|row: RunMessageRef| !run_goes(same, goes, row.run_id@)) =~= (|row: RunMessageRef|
        !run_goes(before, goes, row.run_id@)));
    assert((|row: ChildTaskRow| !run_goes(same, goes, row.parent_run_id@)) =~= (|
        row: ChildTaskRow,
    | !run_goes(before, goes, row.parent_run_id@)));
    assert((|row: Arc<StagedAppend>| !run_goes(same, goes, append_subject_text(row.target))) =~= (|
        row: Arc<StagedAppend>,
    | !run_goes(before, goes, append_subject_text(row.target))));
    assert((|row: Arc<StagedAppend>| !task_goes(same, goes, append_subject_text(row.target)))
        =~= (|row: Arc<StagedAppend>|
        !task_goes(before, goes, append_subject_text(row.target))));
    assert((|row: Arc<PendingExchange>|
        !run_goes(same, goes, exchange_subject_text(row.target))) =~= (|
        row: Arc<PendingExchange>,
    | !run_goes(before, goes, exchange_subject_text(row.target))));
    assert((|row: Arc<PendingExchange>|
        !task_goes(same, goes, exchange_subject_text(row.target))) =~= (|
        row: Arc<PendingExchange>,
    | !task_goes(before, goes, exchange_subject_text(row.target))));
    assert((|row: McpSelectionRow| !input_goes(same, goes, row.input_id@)) =~= (|
        row: McpSelectionRow,
    | !input_goes(before, goes, row.input_id@)));
    assert((|row: PendingStart|
        forall|i: int|
            0 <= i < same.pending_exchanges@.len() && (
            #[trigger] same.pending_exchanges@[i]).receipt_id@ == row.receipt_id@ ==> !run_goes(
                same,
                goes,
                exchange_subject_text(same.pending_exchanges@[i].target),
            )) =~= (|row: PendingStart|
        forall|i: int|
            0 <= i < before.pending_exchanges@.len() && (
            #[trigger] before.pending_exchanges@[i]).receipt_id@ == row.receipt_id@ ==> !run_goes(
                before,
                goes,
                exchange_subject_text(before.pending_exchanges@[i].target),
            )));
    assert((|row: PendingStart|
        forall|i: int|
            0 <= i < same.child_pending_exchanges@.len() && (
            #[trigger] same.child_pending_exchanges@[i]).receipt_id@ == row.receipt_id@
                ==> !task_goes(
                same,
                goes,
                exchange_subject_text(same.child_pending_exchanges@[i].target),
            )) =~= (|row: PendingStart|
        forall|i: int|
            0 <= i < before.child_pending_exchanges@.len() && (
            #[trigger] before.child_pending_exchanges@[i]).receipt_id@ == row.receipt_id@
                ==> !task_goes(
                before,
                goes,
                exchange_subject_text(before.child_pending_exchanges@[i].target),
            )));
}

/// Removing the inputs of a kind removes exactly those, with what belongs to them.
pub proof fn inputs_go_with_what_is_theirs(
    before: StorageEngine,
    cut: StorageEngine,
    condition: spec_fn(StoredInput) -> bool,
    goes: spec_fn(StoredInput) -> bool,
)
    requires
        unique(before.inputs@, input_name()),
        forall|row: StoredInput| #[trigger] condition(row) == goes(row),
        inputs_removed(before, cut, kept(before.inputs@, condition).map_values(input_key())),
    ensures
        work_is_removed(before, cut, goes),
        selections_are_removed(before, cut, goes),
        cut == (StorageEngine {
            inputs: cut.inputs,
            runs: cut.runs,
            run_message_refs: cut.run_message_refs,
            child_tasks: cut.child_tasks,
            body_appends: cut.body_appends,
            child_body_appends: cut.child_body_appends,
            pending_exchanges: cut.pending_exchanges,
            child_pending_exchanges: cut.child_pending_exchanges,
            pending_starts: cut.pending_starts,
            child_pending_starts: cut.child_pending_starts,
            mcp_selections: cut.mcp_selections,
            ..before
        }),
{
    let gone = kept(before.inputs@, condition).map_values(input_key());
    let runs = runs_of(before.runs@, gone);
    let children = children_of(before.child_tasks@, runs);
    gone_is_listed(before, condition, goes);
    assert forall|k: int| 0 <= k < before.inputs@.len() implies input_out(gone)(
        #[trigger] before.inputs@[k],
    ) == !goes(before.inputs@[k]) by {
        let row = before.inputs@[k];
        assert(lists(gone, row.input_id@) == input_goes(before, goes, row.input_id@));
        if input_goes(before, goes, row.input_id@) {
            let i = choose|i: int|
                0 <= i < before.inputs@.len() && goes(#[trigger] before.inputs@[i])
                    && before.inputs@[i].input_id@ == row.input_id@;
            if i < k {
                assert(input_name()(before.inputs@[i]) != input_name()(before.inputs@[k]));
            } else if k < i {
                assert(input_name()(before.inputs@[k]) != input_name()(before.inputs@[i]));
            }
        }
    }
    kept_is_filtered(before.inputs@, input_out(gone), |row: StoredInput| !goes(row));
    kept_is_filtered(
        before.runs@,
        run_out(gone),
        |row: RunRow| !input_goes(before, goes, row.input_id@),
    );
    kept_is_filtered(
        before.run_message_refs@,
        ref_out(runs),
        |row: RunMessageRef| !run_goes(before, goes, row.run_id@),
    );
    kept_is_filtered(
        before.child_tasks@,
        child_out(runs),
        |row: ChildTaskRow| !run_goes(before, goes, row.parent_run_id@),
    );
    kept_is_filtered(
        before.body_appends@,
        append_out(runs),
        |row: Arc<StagedAppend>| !run_goes(before, goes, append_subject_text(row.target)),
    );
    kept_is_filtered(
        before.child_body_appends@,
        append_out(children),
        |row: Arc<StagedAppend>| !task_goes(before, goes, append_subject_text(row.target)),
    );
    kept_is_filtered(
        before.pending_exchanges@,
        exchange_out(runs),
        |row: Arc<PendingExchange>| !run_goes(before, goes, exchange_subject_text(row.target)),
    );
    kept_is_filtered(
        before.child_pending_exchanges@,
        exchange_out(children),
        |row: Arc<PendingExchange>| !task_goes(before, goes, exchange_subject_text(row.target)),
    );
    kept_is_filtered(
        before.mcp_selections@,
        selection_out(gone),
        |row: McpSelectionRow| !input_goes(before, goes, row.input_id@),
    );
    let receipts = receipts_of(before.pending_exchanges@, runs);
    let stays = |row: PendingStart|
        forall|i: int|
            0 <= i < before.pending_exchanges@.len() && (
            #[trigger] before.pending_exchanges@[i]).receipt_id@ == row.receipt_id@ ==> !run_goes(
                before,
                goes,
                exchange_subject_text(before.pending_exchanges@[i].target),
            );
    assert forall|k: int| 0 <= k < before.pending_starts@.len() implies start_out(receipts)(
        #[trigger] before.pending_starts@[k],
    ) == stays(before.pending_starts@[k]) by {
        let row = before.pending_starts@[k];
        kept_names(before.pending_exchanges@, exchange_in(runs), exchange_key(), row.receipt_id@);
        if lists(receipts, row.receipt_id@) {
            let i = choose|i: int|
                0 <= i < before.pending_exchanges@.len() && exchange_in(runs)(
                    #[trigger] before.pending_exchanges@[i],
                ) && exchange_key()(before.pending_exchanges@[i])@ == row.receipt_id@;
            let subject = exchange_subject_text(before.pending_exchanges@[i].target);
            assert(lists(runs, subject));
            assert(run_goes(before, goes, subject));
            assert(!stays(row));
        } else {
            assert forall|i: int| 0 <= i < before.pending_exchanges@.len() && (
            #[trigger] before.pending_exchanges@[i]).receipt_id@ == row.receipt_id@ implies
                !run_goes(
                before,
                goes,
                exchange_subject_text(before.pending_exchanges@[i].target),
            ) by {
                let subject = exchange_subject_text(before.pending_exchanges@[i].target);
                assert(exchange_key()(before.pending_exchanges@[i])@ == row.receipt_id@);
                assert(!exchange_in(runs)(before.pending_exchanges@[i]));
                assert(!lists(runs, subject));
            }
        }
    }
    kept_is_filtered(before.pending_starts@, start_out(receipts), stays);
    let receipts = receipts_of(before.child_pending_exchanges@, children);
    let stays = |row: PendingStart|
        forall|i: int|
            0 <= i < before.child_pending_exchanges@.len() && (
            #[trigger] before.child_pending_exchanges@[i]).receipt_id@ == row.receipt_id@
                ==> !task_goes(
                before,
                goes,
                exchange_subject_text(before.child_pending_exchanges@[i].target),
            );
    assert forall|k: int| 0 <= k < before.child_pending_starts@.len() implies start_out(receipts)(
        #[trigger] before.child_pending_starts@[k],
    ) == stays(before.child_pending_starts@[k]) by {
        let row = before.child_pending_starts@[k];
        kept_names(
            before.child_pending_exchanges@,
            exchange_in(children),
            exchange_key(),
            row.receipt_id@,
        );
        if lists(receipts, row.receipt_id@) {
            let i = choose|i: int|
                0 <= i < before.child_pending_exchanges@.len() && exchange_in(children)(
                    #[trigger] before.child_pending_exchanges@[i],
                ) && exchange_key()(before.child_pending_exchanges@[i])@ == row.receipt_id@;
            let subject = exchange_subject_text(before.child_pending_exchanges@[i].target);
            assert(lists(children, subject));
            assert(task_goes(before, goes, subject));
            assert(!stays(row));
        } else {
            assert forall|i: int| 0 <= i < before.child_pending_exchanges@.len() && (
            #[trigger] before.child_pending_exchanges@[i]).receipt_id@ == row.receipt_id@ implies
                !task_goes(
                before,
                goes,
                exchange_subject_text(before.child_pending_exchanges@[i].target),
            ) by {
                let subject = exchange_subject_text(before.child_pending_exchanges@[i].target);
                assert(exchange_key()(before.child_pending_exchanges@[i])@ == row.receipt_id@);
                assert(!exchange_in(children)(before.child_pending_exchanges@[i]));
                assert(!lists(children, subject));
            }
        }
    }
    kept_is_filtered(before.child_pending_starts@, start_out(receipts), stays);
}

} // verus!
