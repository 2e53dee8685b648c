//! What is recorded of changes to a history.

use vstd::prelude::*;

use crate::emptying_laws::{history_changes_at_rest, is_at_rest};
use crate::engine::{bodies, is_session, session_body_path, StorageEngine};
use crate::error::Refusal;
use crate::history_recovery::{change_recovered, FoundFiles};
use crate::relations::{
    kept_is_filtered, leader_is_found, leads, session_stands_where_found, stands_at,
};
use crate::rewriting_laws::body_file;
use crate::rows::{HistoryOperationRow, HistoryState};
use crate::session_history::{
    cleanup_finished, clear_attempted, clear_receipt, compaction_attempted, compaction_begun,
    compaction_finished, compaction_refusal, finish_outcome, finish_state, is_operation,
    is_other_operation, receipt_dropped, receipt_of, receipt_refusal, state_moved, CleanupStatus,
    ClearProgress, CompactOutcome, CompactionFinish, CompactionFinishKind, CompactionPreparation,
    CompactionPreparationResult, SessionHistoryClear,
};
use crate::table::{first, some_row};
use crate::text::lists;

verus! {

/// The record of a change: the first under its operation.
pub open spec fn record_at(rows: Seq<HistoryOperationRow>, i: int, operation_id: Seq<char>) -> bool {
    leads(rows, i, |row: HistoryOperationRow| row.operation_id@ == operation_id)
}

proof fn record_is_found(rows: Seq<HistoryOperationRow>, operation_id: Seq<char>)
    ensures
        forall|i: int| #[trigger]
            record_at(rows, i, operation_id) ==> first(rows, is_operation(operation_id)) == Some(i),
        first(rows, is_operation(operation_id)) is Some ==> record_at(
            rows,
            first(rows, is_operation(operation_id))->0,
            operation_id,
        ),
        some_row(rows, is_operation(operation_id)) == (first(
            rows,
            is_operation(operation_id),
        ) is Some),
        first(rows, is_operation(operation_id)) is None <==> is_new_operation(rows, operation_id),
{
    let plain = |row: HistoryOperationRow| row.operation_id@ == operation_id;
    leader_is_found(rows, is_operation(operation_id), plain);
    assert forall|i: int| #[trigger] record_at(rows, i, operation_id) implies first(
        rows,
        is_operation(operation_id),
    ) == Some(i) by {
        assert(leads(rows, i, plain));
    }
    match first(rows, is_operation(operation_id)) {
        Some(i) => {
            assert(rows[i].operation_id@ == operation_id);
        },
        None => {
            assert forall|i: int| 0 <= i < rows.len() implies (#[trigger] rows[i]).operation_id@
                != operation_id by {
                assert(!plain(rows[i]));
            }
        },
    }
}

/// No change was recorded under an operation.
pub open spec fn is_new_operation(rows: Seq<HistoryOperationRow>, operation_id: Seq<char>) -> bool {
    forall|i: int| 0 <= i < rows.len() ==> (#[trigger] rows[i]).operation_id@ != operation_id
}

/// A record is read exactly where its numbers can be: generations from one on, counts from none on.
pub proof fn records_are_read_as_written(row: HistoryOperationRow)
    ensures
        receipt_refusal(row) is None <==> {
            &&& row.source_generation >= 1
            &&& row.result_generation is Some ==> row.result_generation->0 >= 1
            &&& row.compacted_message_count is Some ==> row.compacted_message_count->0 >= 0
            &&& row.retained_message_count is Some ==> row.retained_message_count->0 >= 0
        },
        receipt_refusal(row) is None ==> {
            let operation = receipt_of(row);
            &&& operation.session_id == row.session_id
            &&& operation.kind == row.kind
            &&& operation.state == row.state
            &&& operation.source_generation == row.source_generation
            &&& operation.result_generation is Some <==> row.result_generation is Some
            &&& operation.result_generation is Some ==> operation.result_generation->0
                == row.result_generation->0
            &&& operation.compacted_message_count is Some <==> row.compacted_message_count is Some
            &&& operation.compacted_message_count is Some ==> operation.compacted_message_count->0
                == row.compacted_message_count->0
            &&& operation.retained_message_count is Some <==> row.retained_message_count is Some
            &&& operation.retained_message_count is Some ==> operation.retained_message_count->0
                == row.retained_message_count->0
        },
{
}

/// A record moves from one state to another where it is in the first, with the time given; nothing
/// else of it changes, and no other record.
pub proof fn records_move_from_state_to_state(
    rows: Seq<HistoryOperationRow>,
    operation_id: Seq<char>,
    from: HistoryState,
    to: HistoryState,
    finished_at_ms: Option<i64>,
)
    ensures
        state_moved(rows, operation_id, from, to, finished_at_ms).len() == rows.len(),
        forall|i: int| #[trigger]
            record_at(rows, i, operation_id) ==> {
                let after = state_moved(rows, operation_id, from, to, finished_at_ms);
                &&& rows[i].state == from ==> after[i].state == to && after[i].finished_at_ms
                    == finished_at_ms
                &&& rows[i].state != from ==> after[i] == rows[i]
                &&& after[i] == (HistoryOperationRow {
                    state: after[i].state,
                    finished_at_ms: after[i].finished_at_ms,
                    ..rows[i]
                })
            },
        forall|i: int|
            0 <= i < rows.len() && rows[i].operation_id@ != operation_id
                ==> #[trigger] state_moved(
                rows,
                operation_id,
                from,
                to,
                finished_at_ms,
            )[i] == rows[i],
{
    record_is_found(rows, operation_id);
    if first(rows, is_operation(operation_id)) is Some {
        let i = first(rows, is_operation(operation_id))->0;
        assert(record_at(rows, i, operation_id));
        assert(rows[i].operation_id@ == operation_id);
    }
}

/// What is recorded of a clear that begins.
pub proof fn clears_are_recorded_as_they_begin(clear: SessionHistoryClear, state: HistoryState)
    requires
        clear.expected_generation < i64::MAX,
    ensures
        ({
            let row = clear_receipt(clear, state);
            &&& row.operation_id == clear.operation_id
            &&& row.session_id == clear.session_id
            &&& row.kind is Clear
            &&& row.state == state
            &&& row.source_generation == clear.expected_generation
            &&& row.result_generation is Some
            &&& row.result_generation->0 == clear.expected_generation + 1
            &&& row.compacted_message_count is None
            &&& row.retained_message_count is None
            &&& row.created_at_ms == clear.changed_at_ms
            &&& row.finished_at_ms is None
        }),
{
}

/// A compaction that can begin: its session is there and active, at the generation expected, and at
/// rest.
pub open spec fn can_be_compacted(engine: StorageEngine, preparation: CompactionPreparation) -> bool {
    &&& exists|s: int|
        {
            &&& #[trigger] stands_at(engine.sessions@, s, preparation.session_id@)
            &&& engine.sessions@[s].lifecycle is Active
            &&& engine.sessions@[s].body_generation == preparation.expected_generation
        }
    &&& is_at_rest(engine, preparation.session_id@)
    &&& preparation.expected_generation <= i64::MAX
}

proof fn compaction_begins_at_rest(engine: StorageEngine, preparation: CompactionPreparation)
    ensures
        compaction_refusal(engine, preparation) is None <==> can_be_compacted(engine, preparation)
            && is_new_operation(engine.history_operations@, preparation.operation_id@),
{
    session_stands_where_found(engine.sessions@, preparation.session_id@);
    history_changes_at_rest(engine, preparation.session_id@);
    record_is_found(engine.history_operations@, preparation.operation_id@);
    if first(engine.sessions@, is_session(preparation.session_id@)) is Some {
        assert(stands_at(
            engine.sessions@,
            first(engine.sessions@, is_session(preparation.session_id@))->0,
            preparation.session_id@,
        ));
    }
}

/// A record of the compaction that is asked for.
pub open spec fn is_of_compaction(row: HistoryOperationRow, preparation: CompactionPreparation) -> bool {
    &&& row.kind is Compact
    &&& row.session_id@ == preparation.session_id@
    &&& row.source_generation == preparation.expected_generation
}

/// A compaction is prepared where it can begin and was not recorded before, or was interrupted. It is
/// recorded behind the others, in place of an interrupted record, and nothing else changes.
pub proof fn compactions_are_prepared_at_rest(
    before: StorageEngine,
    after: StorageEngine,
    preparation: CompactionPreparation,
    outcome: Result<CompactionPreparationResult, Refusal>,
)
    requires
        compaction_attempted(before, after, preparation, outcome),
    ensures
        is_new_operation(before.history_operations@, preparation.operation_id@) ==> (outcome is Ok
            <==> can_be_compacted(before, preparation)),
        is_new_operation(before.history_operations@, preparation.operation_id@) && outcome is Ok
            ==> outcome->Ok_0 is Prepared,
        outcome is Err ==> after == before || after.history_operations@
            == before.history_operations@.filter(
            is_another_operation(preparation.operation_id@),
        ),
        after == (StorageEngine { history_operations: after.history_operations, ..before }),
        outcome is Ok && !(outcome->Ok_0 is Prepared) ==> after == before,
        outcome is Ok && outcome->Ok_0 is Prepared ==> {
            let earlier = before.history_operations@.filter(
                is_another_operation(preparation.operation_id@),
            );
            let row = after.history_operations@.last();
            &&& after.history_operations@.len() == earlier.len() + 1
            &&& after.history_operations@.drop_last() == earlier
            &&& row.operation_id == preparation.operation_id
            &&& row.session_id == preparation.session_id
            &&& row.kind is Compact
            &&& row.state is Preparing
            &&& row.source_generation == preparation.expected_generation
            &&& row.result_generation is None
            &&& row.compacted_message_count is None
            &&& row.retained_message_count is None
            &&& row.created_at_ms == preparation.created_at_ms
            &&& row.finished_at_ms is None
        },
{
    let id = preparation.operation_id@;
    let rows = before.history_operations@;
    record_is_found(rows, id);
    compaction_begins_at_rest(before, preparation);
    kept_is_filtered(rows, is_other_operation(id), is_another_operation(id));
    match first(rows, is_operation(id)) {
        None => {
            all_are_others(rows, id);
            if outcome is Ok {
                assert(after.history_operations@.drop_last() =~= rows);
            }
        },
        Some(i) => {
            let row = rows[i];
            if row.state is Interrupted && receipt_refusal(row) is None && after != before {
                let reset = choose|reset: StorageEngine| #[trigger]
                    receipt_dropped(before, reset, id) && compaction_begun(
                        reset,
                        after,
                        preparation,
                        outcome,
                    );
                if outcome is Ok {
                    assert(after.history_operations@.drop_last()
                        =~= reset.history_operations@);
                }
            }
        },
    }
}

/// The condition of being recorded under another operation.
pub open spec fn is_another_operation(operation_id: Seq<char>) -> spec_fn(
    HistoryOperationRow,
) -> bool {
    |row: HistoryOperationRow| row.operation_id@ != operation_id
}

proof fn all_are_others(rows: Seq<HistoryOperationRow>, operation_id: Seq<char>)
    requires
        is_new_operation(rows, operation_id),
    ensures
        rows.filter(is_another_operation(operation_id)) == rows,
    decreases rows.len(),
{
    reveal_with_fuel(Seq::filter, 2);
    if rows.len() > 0 {
        let shorter = rows.drop_last();
        assert forall|i: int| 0 <= i < shorter.len() implies (#[trigger] shorter[i]).operation_id@
            != operation_id by {
            assert(shorter[i] == rows[i]);
        }
        all_are_others(shorter, operation_id);
        assert(rows[rows.len() - 1].operation_id@ != operation_id);
        assert(shorter.push(rows.last()) =~= rows);
    } else {
        assert(rows.filter(is_another_operation(operation_id)) =~= rows);
    }
}

/// A compaction that is recorded as ended is answered by its record, and nothing changes.
pub proof fn ended_compactions_are_answered_by_their_record(
    before: StorageEngine,
    after: StorageEngine,
    preparation: CompactionPreparation,
    outcome: Result<CompactionPreparationResult, Refusal>,
    i: int,
)
    requires
        compaction_attempted(before, after, preparation, outcome),
        record_at(before.history_operations@, i, preparation.operation_id@),
        receipt_refusal(before.history_operations@[i]) is None,
        !(before.history_operations@[i].state is Interrupted),
    ensures
        after == before,
        ({
            let row = before.history_operations@[i];
            &&& outcome is Ok <==> is_of_compaction(row, preparation) && (row.state is NoOp
                || row.state is Cancelled || (row.state is Completed && row.result_generation is Some
                && row.compacted_message_count is Some && row.retained_message_count is Some))
            &&& outcome is Ok ==> outcome->Ok_0 is Completed
            &&& outcome is Ok && row.state is NoOp ==> outcome->Ok_0->Completed_0 is NoOp
            &&& outcome is Ok && row.state is Cancelled ==> outcome->Ok_0->Completed_0 is Cancelled
            &&& outcome is Ok && row.state is Completed ==> match outcome->Ok_0->Completed_0 {
                CompactOutcome::Compacted {
                    source_generation,
                    result_generation,
                    compacted_message_count,
                    retained_message_count,
                } => {
                    &&& source_generation == row.source_generation
                    &&& result_generation == row.result_generation->0
                    &&& compacted_message_count == row.compacted_message_count->0
                    &&& retained_message_count == row.retained_message_count->0
                },
                _ => false,
            }
        }),
{
    record_is_found(before.history_operations@, preparation.operation_id@);
    records_are_read_as_written(before.history_operations@[i]);
}

/// A compaction without a result ends exactly where its record is there, is being prepared, and its
/// session is at rest and at the generation expected; or where it ended so before.
pub proof fn compactions_end_as_recorded(engine: StorageEngine, finish: CompactionFinish)
    ensures
        finish_outcome(engine, finish) is Ok <==> exists|i: int|
            {
                let row = engine.history_operations@[i];
                &&& #[trigger] record_at(engine.history_operations@, i, finish.operation_id@)
                &&& row.session_id@ == finish.session_id@
                &&& row.kind is Compact
                &&& row.source_generation >= 1
                &&& row.source_generation == finish.expected_generation
                &&& ended_so(row.state, finish.kind) || (row.state is Preparing && is_at_rest(
                    engine,
                    finish.session_id@,
                ) && exists|s: int| #[trigger]
                    stands_at(engine.sessions@, s, finish.session_id@)
                        && engine.sessions@[s].body_generation == finish.expected_generation)
            },
        finish_outcome(engine, finish) is Ok ==> forall|i: int| #[trigger]
            record_at(engine.history_operations@, i, finish.operation_id@) ==> finish_outcome(
                engine,
                finish,
            )->Ok_0 == !ended_so(engine.history_operations@[i].state, finish.kind),
        ended_so(finish_state(finish.kind), finish.kind),
{
    record_is_found(engine.history_operations@, finish.operation_id@);
    session_stands_where_found(engine.sessions@, finish.session_id@);
    history_changes_at_rest(engine, finish.session_id@);
    match first(engine.history_operations@, is_operation(finish.operation_id@)) {
        Some(i) => {
            assert(record_at(engine.history_operations@, i, finish.operation_id@));
        },
        None => {},
    }
    if first(engine.sessions@, is_session(finish.session_id@)) is Some {
        assert(stands_at(
            engine.sessions@,
            first(engine.sessions@, is_session(finish.session_id@))->0,
            finish.session_id@,
        ));
    }
}

/// The state in which a compaction without a result is left.
pub open spec fn ended_so(state: HistoryState, kind: CompactionFinishKind) -> bool {
    &&& kind is NoOp ==> state is NoOp
    &&& kind is Cancelled ==> state is Cancelled
    &&& kind is Interrupted ==> state is Interrupted
}

/// A clear that is recorded and not interrupted is answered by its record, and nothing changes: one
/// that ended with the session as it is, one that is to be cleaned up with the generations of it.
pub proof fn recorded_clears_are_answered_by_their_record(
    before: StorageEngine,
    after: StorageEngine,
    clear: SessionHistoryClear,
    outcome: Result<ClearProgress, Refusal>,
    i: int,
)
    requires
        clear_attempted(before, after, clear, outcome),
        record_at(before.history_operations@, i, clear.operation_id@),
        receipt_refusal(before.history_operations@[i]) is None,
        !(before.history_operations@[i].state is Interrupted),
    ensures
        after == before,
        ({
            let row = before.history_operations@[i];
            let same = row.kind is Clear && row.session_id@ == clear.session_id@
                && row.source_generation == clear.expected_generation;
            &&& outcome is Ok <==> same && row.result_generation is Some && (
            row.state is CleanupPending || (row.state is Completed && exists|s: int| #[trigger]
                stands_at(before.sessions@, s, clear.session_id@)
                    && before.sessions@[s].body_generation == row.result_generation->0))
            &&& outcome is Ok && row.state is CleanupPending ==> match outcome->Ok_0 {
                ClearProgress::AwaitsCleanup { source_generation, result_generation } => {
                    source_generation == row.source_generation && result_generation
                        == row.result_generation->0
                },
                _ => false,
            }
            &&& outcome is Ok && row.state is Completed ==> match outcome->Ok_0 {
                ClearProgress::Finished(answer) => {
                    &&& answer.source_generation == row.source_generation
                    &&& answer.result_generation == row.result_generation->0
                    &&& answer.cleanup_status is Completed
                    &&& forall|s: int| #[trigger]
                        stands_at(before.sessions@, s, clear.session_id@) ==> answer.session
                            == before.sessions@[s]
                },
                _ => false,
            }
        }),
{
    record_is_found(before.history_operations@, clear.operation_id@);
    records_are_read_as_written(before.history_operations@[i]);
    session_stands_where_found(before.sessions@, clear.session_id@);
    if first(before.sessions@, is_session(clear.session_id@)) is Some {
        assert(stands_at(
            before.sessions@,
            first(before.sessions@, is_session(clear.session_id@))->0,
            clear.session_id@,
        ));
    }
}

/// After a restart a change that was being prepared is left interrupted, a clear that was carried out
/// is completed once its files are cleaned up, and no other record moves.
pub proof fn restarts_settle_recorded_changes(
    before: StorageEngine,
    after: StorageEngine,
    row: HistoryOperationRow,
    found: FoundFiles,
    pending: bool,
)
    requires
        change_recovered(before, after, row, found, Ok(pending)),
        receipt_refusal(row) is None,
    ensures
        after == (StorageEngine {
            files: after.files,
            history_operations: after.history_operations,
            ..before
        }),
        pending <==> row.kind is Clear && row.state is CleanupPending && !lists(
            found.cleaned@,
            row.operation_id@,
        ),
        row.state is Preparing ==> after.history_operations@ == state_moved(
            before.history_operations@,
            row.operation_id@,
            HistoryState::Preparing,
            HistoryState::Interrupted,
            Some(0),
        ),
        row.kind is Clear && row.state is CleanupPending && !pending ==> after.history_operations@
            == state_moved(
            before.history_operations@,
            row.operation_id@,
            HistoryState::CleanupPending,
            HistoryState::Completed,
            Some(0),
        ),
        pending ==> after == before,
        !(row.state is Preparing) && !(row.state is CleanupPending) ==> after == before,
        row.kind is Clear && row.state is Preparing && row.result_generation is Some
            ==> bodies(after.files@) == bodies(before.files@).remove(
            body_file(
                before.sessions_directory@,
                row.session_id@,
                row.result_generation->0 as u64,
            ),
        ),
        !(row.kind is Clear && row.state is Preparing) ==> after.files == before.files,
{
    records_are_read_as_written(row);
    if row.result_generation is Some {
        assert(session_body_path(
            before.sessions_directory@,
            row.session_id@,
            row.result_generation->0 as u64,
        ) =~= body_file(
            before.sessions_directory@,
            row.session_id@,
            row.result_generation->0 as u64,
        ));
    }
}

/// A clear is completed where its files were cleaned up, and stays to be cleaned up where not.
pub proof fn clears_are_completed_once_cleaned_up(
    before: StorageEngine,
    after: StorageEngine,
    operation_id: Seq<char>,
    cleaned: bool,
    finished_at_ms: i64,
    status: CleanupStatus,
)
    requires
        cleanup_finished(before, after, operation_id, cleaned, finished_at_ms, status),
    ensures
        status is Completed <==> cleaned,
        !cleaned ==> after == before,
        after == (StorageEngine { history_operations: after.history_operations, ..before }),
        after.history_operations@.len() == before.history_operations@.len(),
        cleaned ==> forall|i: int| #[trigger]
            record_at(before.history_operations@, i, operation_id)
                && before.history_operations@[i].state is CleanupPending
                ==> after.history_operations@[i].state is Completed
                && after.history_operations@[i].finished_at_ms == Some(finished_at_ms),
        forall|i: int|
            0 <= i < before.history_operations@.len() && (
            before.history_operations@[i].operation_id@ != operation_id
                || !(before.history_operations@[i].state is CleanupPending))
                ==> #[trigger] after.history_operations@[i] == before.history_operations@[i],
{
    if cleaned {
        records_move_from_state_to_state(
            before.history_operations@,
            operation_id,
            HistoryState::CleanupPending,
            HistoryState::Completed,
            Some(finished_at_ms),
        );
        record_is_found(before.history_operations@, operation_id);
    }
}

/// A compaction that ends without a result is left in the state told, with its time; one that ended
/// so before, or may not end so, changes nothing.
pub proof fn compactions_are_left_as_told(
    before: StorageEngine,
    after: StorageEngine,
    finish: CompactionFinish,
    outcome: Result<(), Refusal>,
    i: int,
)
    requires
        compaction_finished(before, after, finish, outcome),
        record_at(before.history_operations@, i, finish.operation_id@),
    ensures
        outcome is Err ==> after == before,
        outcome is Ok <==> finish_outcome(before, finish) is Ok,
        after == (StorageEngine { history_operations: after.history_operations, ..before }),
        after.history_operations@.len() == before.history_operations@.len(),
        outcome is Ok ==> ended_so(after.history_operations@[i].state, finish.kind),
        outcome is Ok && before.history_operations@[i].state is Preparing
            ==> after.history_operations@[i].finished_at_ms == Some(finish.finished_at_ms),
        forall|j: int|
            0 <= j < before.history_operations@.len()
                && before.history_operations@[j].operation_id@ != finish.operation_id@
                ==> #[trigger] after.history_operations@[j] == before.history_operations@[j],
{
    compactions_end_as_recorded(before, finish);
    record_is_found(before.history_operations@, finish.operation_id@);
    records_move_from_state_to_state(
        before.history_operations@,
        finish.operation_id@,
        HistoryState::Preparing,
        finish_state(finish.kind),
        Some(finish.finished_at_ms),
    );
}

} // verus!
