//! What holds of emptied conversations as a whole.

use vstd::prelude::*;

use crate::append_effect::ConversationStorageTarget;
use crate::append_laws::sessions_do_not_share_bodies;
use crate::cascade::inputs_removed;
use crate::conversation::{messages_of, records_of};
use crate::engine::{bodies, current_conversation, generation_of, is_session, StorageEngine};
use crate::error::Refusal;
use crate::history_recovery::{change_recovered, obstacle_refusal, FoundFiles};
use crate::message::{distinct_messages, open_calls};
use crate::recovery::main_target;
use crate::rows::{HistoryOperationRow, HistoryState};
use crate::session_history::{
    clear_announced, clear_attempted, clear_opened, clear_path, clear_receipt, clear_refusal,
    clear_settled, conversation_emptied, emptied, inputs_of, is_operation, receipt_of,
    receipt_refusal, receipt_stays, same_clear, ClearProgress, SessionHistoryClear,
};
use crate::session_management::place_of_session;
use crate::table::{first_after_update, first_is, first_is_found, kept, kept_rows};

verus! {

/// After a conversation was emptied, it is empty.
pub proof fn emptied_conversation_is_empty(
    before: StorageEngine,
    opened: StorageEngine,
    after: StorageEngine,
    clear: SessionHistoryClear,
)
    requires
        clear_refusal(before, clear) is None,
        clear_opened(before, opened, clear),
        conversation_emptied(opened, after, clear),
    ensures
        generation_of(after, main_target(clear.session_id)) == Ok::<_, Refusal>(
            (clear.expected_generation + 1) as u64,
        ),
        current_conversation(after, main_target(clear.session_id)) is Ok,
        current_conversation(after, main_target(clear.session_id))->Ok_0.len() == 0,
{
    let gone = inputs_of(opened.inputs@, clear.session_id@);
    let cut = choose|cut: StorageEngine| #[trigger]
        inputs_removed(opened, cut, gone) && emptied(cut, after, clear);
    let rows = cut.sessions@;
    first_is_found(rows, is_session(clear.session_id@));
    let place = place_of_session(cut, clear.session_id@);
    first_after_update(rows, is_session(clear.session_id@), place, after.sessions@[place]);
    let path = clear_path(before, clear);
    assert(bodies(after.files@)[path] =~= Seq::empty());
    assert(records_of(Seq::<u8>::empty()) == Some(Seq::<Seq<u8>>::empty()));
    let none = messages_of(after.known@, Seq::<Seq<u8>>::empty())->0;
    assert(none.len() == 0);
    assert(distinct_messages(none));
    assert(open_calls(none) == Some(Seq::<Seq<char>>::empty()));
}

proof fn kept_of_push<R>(rows: Seq<R>, row: R, condition: spec_fn(R) -> bool)
    ensures
        kept(rows.push(row), condition) == if condition(row) {
            kept(rows, condition).push(row)
        } else {
            kept(rows, condition)
        },
{
    assert(rows.push(row).drop_last() =~= rows);
    assert(rows.push(row).last() == row);
}

/// A request to empty a conversation that is repeated under its operation does not empty it again:
/// only the cleanup is taken up once more.
pub proof fn repeated_clear_takes_effect_once(
    before: StorageEngine,
    opened: StorageEngine,
    after: StorageEngine,
    again: StorageEngine,
    clear: SessionHistoryClear,
    outcome: Result<ClearProgress, Refusal>,
)
    requires
        clear.expected_generation > 0,
        clear_refusal(before, clear) is None,
        clear_opened(before, opened, clear),
        conversation_emptied(opened, after, clear),
        clear_attempted(after, again, clear, outcome),
    ensures
        again == after,
        outcome == Ok::<_, Refusal>(
            ClearProgress::AwaitsCleanup {
                source_generation: clear.expected_generation,
                result_generation: (clear.expected_generation + 1) as u64,
            },
        ),
{
    let gone = inputs_of(opened.inputs@, clear.session_id@);
    let cut = choose|cut: StorageEngine| #[trigger]
        inputs_removed(opened, cut, gone) && emptied(cut, after, clear);
    let operation_id = clear.operation_id@;
    let receipt = clear_receipt(clear, HistoryState::Preparing);
    let stays = receipt_stays(clear.session_id@, operation_id);
    let earlier = kept(before.history_operations@, stays);
    kept_of_push(before.history_operations@, receipt, stays);
    kept_rows(before.history_operations@, stays);
    let rows = earlier.push(receipt);
    assert(kept(cut.history_operations@, stays) == rows);
    let last = earlier.len() as int;
    assert forall|j: int| 0 <= j < last implies !is_operation(operation_id)(
        #[trigger] rows[j],
    ) by {
        assert(rows[j] == earlier[j]);
        assert(before.history_operations@.contains(earlier[j]));
        let k = before.history_operations@.index_of(earlier[j]);
        assert(before.history_operations@[k] == earlier[j]);
        if is_operation(operation_id)(earlier[j]) {
            assert(is_operation(operation_id)(before.history_operations@[k]));
        }
    }
    first_is(rows, is_operation(operation_id), last);
    let moved = HistoryOperationRow {
        state: HistoryState::CleanupPending,
        finished_at_ms: None,
        ..receipt
    };
    assert(after.history_operations@ == rows.update(last, moved));
    first_after_update(rows, is_operation(operation_id), last, moved);
    assert(receipt_refusal(moved) is None);
    assert(same_clear(receipt_of(moved), clear));
}

/// If emptying a conversation is interrupted before it counts, nothing is lost: the old
/// conversation counts, and the empty body is gone, where nothing stands in its way.
pub proof fn interrupted_clear_loses_nothing(
    before: StorageEngine,
    opened: StorageEngine,
    recovered: StorageEngine,
    clear: SessionHistoryClear,
    found: FoundFiles,
    outcome: Result<bool, Refusal>,
    other: ConversationStorageTarget,
)
    requires
        clear.expected_generation > 0,
        clear_refusal(before, clear) is None,
        !bodies(before.files@).contains_key(clear_path(before, clear)),
        clear_opened(before, opened, clear),
        obstacle_refusal(found, clear.operation_id@) is None,
        change_recovered(
            opened,
            recovered,
            clear_receipt(clear, HistoryState::Preparing),
            found,
            outcome,
        ),
    ensures
        outcome == Ok::<_, Refusal>(false),
        bodies(recovered.files@) == bodies(before.files@),
        current_conversation(recovered, other) == current_conversation(before, other),
{
    assert(bodies(recovered.files@) =~= bodies(before.files@));
    assert(generation_of(opened, main_target(clear.session_id)) == generation_of(
        before,
        main_target(clear.session_id),
    ));
    assert(generation_of(recovered, other) == generation_of(before, other));
}

/// If what announced the emptying of a conversation cannot be stored, nothing is lost: the old
/// conversation counts, the empty body is gone, and only the receipt tells of the attempt.
pub proof fn failed_clear_loses_nothing(
    before: StorageEngine,
    opened: StorageEngine,
    after: StorageEngine,
    clear: SessionHistoryClear,
    error: Refusal,
    outcome: Result<ClearProgress, Refusal>,
    other: ConversationStorageTarget,
)
    requires
        clear_refusal(before, clear) is None,
        !bodies(before.files@).contains_key(clear_path(before, clear)),
        clear_announced(before, opened, clear, Ok(())),
        clear_settled(opened, after, clear, Err(error), outcome),
    ensures
        outcome == Err::<ClearProgress, _>(error),
        after == (StorageEngine {
            history_operations: after.history_operations,
            files: after.files,
            ..before
        }),
        bodies(after.files@) == bodies(before.files@),
        current_conversation(after, other) == current_conversation(before, other),
        after.history_operations@ == before.history_operations@.push(
            HistoryOperationRow {
                finished_at_ms: Some(clear.changed_at_ms),
                ..clear_receipt(clear, HistoryState::Interrupted)
            },
        ),
{
    assert(bodies(after.files@) =~= bodies(before.files@));
    assert(generation_of(after, other) == generation_of(before, other));
    let receipt = clear_receipt(clear, HistoryState::Preparing);
    let rows = opened.history_operations@;
    let last = before.history_operations@.len() as int;
    assert(rows[last] == receipt);
    first_is_found(before.history_operations@, is_operation(clear.operation_id@));
    assert forall|k: int| 0 <= k < last implies !#[trigger] is_operation(clear.operation_id@)(
        rows[k],
    ) by {
        assert(rows[k] == before.history_operations@[k]);
    }
    first_is(rows, is_operation(clear.operation_id@), last);
    assert(after.history_operations@ =~= before.history_operations@.push(
        HistoryOperationRow {
            finished_at_ms: Some(clear.changed_at_ms),
            ..clear_receipt(clear, HistoryState::Interrupted)
        },
    ));
}

/// Emptying a conversation leaves those of other sessions as they are.
pub proof fn clear_leaves_other_sessions(
    before: StorageEngine,
    opened: StorageEngine,
    after: StorageEngine,
    clear: SessionHistoryClear,
    session_id: String,
)
    requires
        clear_refusal(before, clear) is None,
        clear_opened(before, opened, clear),
        conversation_emptied(opened, after, clear),
        session_id@ != clear.session_id@,
        current_conversation(before, main_target(session_id)) is Ok,
    ensures
        current_conversation(after, main_target(session_id)) == current_conversation(
            before,
            main_target(session_id),
        ),
{
    let gone = inputs_of(opened.inputs@, clear.session_id@);
    let cut = choose|cut: StorageEngine| #[trigger]
        inputs_removed(opened, cut, gone) && emptied(cut, after, clear);
    let rows = cut.sessions@;
    let place = place_of_session(cut, clear.session_id@);
    first_is_found(rows, is_session(clear.session_id@));
    first_is_found(rows, is_session(session_id@));
    first_after_update(rows, is_session(session_id@), place, after.sessions@[place]);
    let generation = generation_of(before, main_target(session_id))->Ok_0;
    sessions_do_not_share_bodies(
        before,
        main_target(session_id),
        generation,
        main_target(clear.session_id),
        (clear.expected_generation + 1) as u64,
    );
}

} // verus!
