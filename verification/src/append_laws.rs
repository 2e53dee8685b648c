//! What holds of appends and replacements as a whole: nothing is lost, and nothing leaks.

use std::sync::Arc;
use vstd::prelude::*;

use crate::append_effect::{
    purpose_applied, purpose_refusal, purpose_tables, session_of, AppendPurpose,
    ConversationStorageTarget, PurposeTables, StagedAppend,
};
use crate::conversation::{
    batch_records, framed, framed_records_are_read_back, interrupted_append_is_completed,
    message_of, messages_of, one_line, records_of, records_of_joined_bodies, RecordedMessage,
};
use crate::engine::{
    bodies, conversation_at, current_conversation, generation_of, is_child, is_session, path_of,
    session_body_path, session_path, StorageEngine,
};
use crate::error::Refusal;
use crate::keys::{append_name, is_keyed};
use crate::message::held;
use crate::order::every_place_has_its_turn;
use crate::recovery::{
    announced, append_keys, appends, appends_recovered, attempted, completes_in_turn,
    completion_refusal, counted_sessions, equal_knowledge_reads_equal, failed_owners,
    finalization_refusal, free_generation, in_scope, is_append, is_other_append, main_target,
    planned, replacement_refusal, replacement_written, resolved, resolved_batch_is_read, staged,
    staging_refusal, switch_refusal, switched, table_of, written, AppendTable, ReplacementPlan,
};
use crate::rows::SessionRow;
use crate::table::{first, first_after_update, first_is, first_is_found, kept, kept_rows, some_row};
use crate::text::{before_first, cut_of_joined, decimal, decimals_differ};

verus! {

/// The path of a body names its session right behind the directory of all sessions.
proof fn path_names_session(
    engine: StorageEngine,
    target: ConversationStorageTarget,
    generation: u64,
)
    requires
        path_of(engine, target, generation) is Ok,
    ensures
        before_first(
            path_of(engine, target, generation)->Ok_0.skip(
                engine.sessions_directory@.len() as int + 1,
            ),
            '/',
        ) == Some(session_of(target)@),
{
    reveal_strlit("/");
    let directory = engine.sessions_directory@;
    let session_id = session_of(target)@;
    let path = path_of(engine, target, generation)->Ok_0;
    let tail = path.skip(directory.len() as int + 1);
    match target {
        ConversationStorageTarget::Session { session_id: session, run_id } => {
            reveal_strlit("/conversation.");
            let rest = "/conversation."@.skip(1) + decimal(generation as nat) + ".jsonl"@;
            assert("/conversation."@[0] == '/');
            assert(tail =~= session_id.push('/') + rest);
            cut_of_joined(session_id, '/', rest);
        },
        ConversationStorageTarget::ChildTask { session_id: session, child_task_id } => {
            reveal_strlit("/child-tasks/");
            let rest = "/child-tasks/"@.skip(1) + child_task_id@ + "/body-"@ + decimal(
                generation as nat,
            ) + ".jsonl"@;
            assert("/child-tasks/"@[0] == '/');
            assert(tail =~= session_id.push('/') + rest);
            cut_of_joined(session_id, '/', rest);
        },
    }
}

/// Bodies of different sessions lie at different paths.
pub proof fn sessions_do_not_share_bodies(
    engine: StorageEngine,
    left: ConversationStorageTarget,
    left_generation: u64,
    right: ConversationStorageTarget,
    right_generation: u64,
)
    requires
        path_of(engine, left, left_generation) is Ok,
        path_of(engine, right, right_generation) is Ok,
        session_of(left)@ != session_of(right)@,
    ensures
        path_of(engine, left, left_generation)->Ok_0 != path_of(
            engine,
            right,
            right_generation,
        )->Ok_0,
{
    path_names_session(engine, left, left_generation);
    path_names_session(engine, right, right_generation);
}

/// Different generations of a session lie at different paths.
pub proof fn generations_do_not_share_bodies(
    directory: Seq<char>,
    session_id: Seq<char>,
    left: u64,
    right: u64,
)
    requires
        left != right,
    ensures
        session_body_path(directory, session_id, left) != session_body_path(
            directory,
            session_id,
            right,
        ),
{
    let head = session_path(directory, session_id) + "/conversation."@;
    let left_path = session_body_path(directory, session_id, left);
    let right_path = session_body_path(directory, session_id, right);
    if left_path == right_path {
        let n = head.len() as int;
        let suffix = ".jsonl"@.len() as int;
        assert(left_path.subrange(n, left_path.len() - suffix) =~= decimal(left as nat));
        assert(right_path.subrange(n, right_path.len() - suffix) =~= decimal(right as nat));
        decimals_differ(left as nat, right as nat);
    }
}

/// An announced append finds its body as it was left, and reaches it whole.
pub proof fn announced_append_reaches_its_body(
    before: StorageEngine,
    announcing: StorageEngine,
    operation_id: String,
    target: ConversationStorageTarget,
    batch: Seq<Arc<RecordedMessage>>,
    message_step: Option<u32>,
    created_at_ms: i64,
    purpose: AppendPurpose,
)
    requires
        staging_refusal(before, operation_id@, target, batch) is None,
        staged(
            before,
            announcing,
            operation_id,
            target,
            batch,
            message_step,
            created_at_ms,
            purpose,
        ),
    ensures
        ({
            let generation = generation_of(before, target)->Ok_0;
            let path = path_of(before, target, generation)->Ok_0;
            &&& announced(announcing, operation_id@, table_of(target)) == Ok::<_, Refusal>(
                held(appends(announcing, table_of(target)).last()),
            )
            &&& written(announcing, operation_id@, table_of(target)) == Ok::<_, Refusal>(
                (path, bodies(before.files@)[path] + framed(batch_records(batch))),
            )
        }),
{
    let table = table_of(target);
    let rows = appends(announcing, table);
    let earlier = appends(before, table);
    let last = rows.len() - 1;
    assert forall|j: int| 0 <= j < last implies !is_append(operation_id@)(#[trigger] rows[j]) by {
        assert(rows.drop_last()[j] == rows[j]);
        assert(earlier[j] == rows[j]);
    }
    first_is(rows, is_append(operation_id@), last);
    let generation = generation_of(before, target)->Ok_0;
    let path = path_of(before, target, generation)->Ok_0;
    let body = bodies(before.files@)[path];
    let payload = framed(batch_records(batch));
    interrupted_append_is_completed(body, payload, 0);
    assert(body + payload.take(0) =~= body);
}

/// Wherever writing an announced append was cut off, it comes out as if it had not been.
pub proof fn interrupted_append_reaches_its_body(
    announcing: StorageEngine,
    interrupted: StorageEngine,
    operation_id: Seq<char>,
    table: AppendTable,
    bytes_written: int,
)
    requires
        written(announcing, operation_id, table) is Ok,
        ({
            let row = announced(announcing, operation_id, table)->Ok_0;
            let path = written(announcing, operation_id, table)->Ok_0.0;
            let base = bodies(announcing.files@)[path].take(row.base_byte_length as int);
            &&& 0 <= bytes_written <= row.payload@.len()
            &&& interrupted == (StorageEngine { files: interrupted.files, ..announcing })
            &&& bodies(interrupted.files@) == bodies(announcing.files@).insert(
                path,
                base + row.payload@.take(bytes_written),
            )
        }),
    ensures
        written(interrupted, operation_id, table) == written(announcing, operation_id, table),
        completion_refusal(interrupted, operation_id, table) == completion_refusal(
            announcing,
            operation_id,
            table,
        ),
{
    let row = announced(announcing, operation_id, table)->Ok_0;
    let path = written(announcing, operation_id, table)->Ok_0.0;
    let base = bodies(announcing.files@)[path].take(row.base_byte_length as int);
    assert(base.len() == row.base_byte_length);
    interrupted_append_is_completed(base, row.payload@, bytes_written);
    assert(generation_of(interrupted, row.target) == generation_of(announcing, row.target));
    assert(path_of(interrupted, row.target, row.body_generation) == path_of(
        announcing,
        row.target,
        row.body_generation,
    ));
}

pub(crate) proof fn purpose_keeps_generations(
    tables: PurposeTables,
    target: ConversationStorageTarget,
    purpose: AppendPurpose,
    created_at_ms: i64,
    session_id: Seq<char>,
)
    requires
        purpose_refusal(tables, target, purpose) is None,
    ensures
        ({
            let after = purpose_applied(tables, target, purpose, created_at_ms).settlement.sessions;
            let rows = tables.settlement.sessions;
            &&& first(after, is_session(session_id)) == first(rows, is_session(session_id))
            &&& after.len() == rows.len()
            &&& forall|i: int|
                0 <= i < rows.len() ==> (#[trigger] after[i]).body_generation
                    == rows[i].body_generation && after[i].message_count == rows[i].message_count
        }),
{
    match (target, purpose) {
        (
            ConversationStorageTarget::Session { session_id: session, run_id },
            AppendPurpose::RunSettlement(effect),
        ) => {
            let rows = tables.settlement.sessions;
            first_is_found(rows, is_session(session@));
            let place = first(rows, is_session(session@))->0;
            first_after_update(
                rows,
                is_session(session_id),
                place,
                SessionRow { updated_at_ms: created_at_ms, ..rows[place] },
            );
        },
        _ => {},
    }
}

/// An attempt to complete an append switches no body: what counted before counts after.
pub proof fn appends_switch_no_body(
    before: StorageEngine,
    after: StorageEngine,
    operation_id: Seq<char>,
    table: AppendTable,
    other: ConversationStorageTarget,
)
    requires
        attempted(before, after, operation_id, table),
    ensures
        generation_of(after, other) == generation_of(before, other),
        after.known@ == before.known@,
        after.sessions_directory == before.sessions_directory,
{
    if written(before, operation_id, table) is Ok && finalization_refusal(
        before,
        operation_id,
        table,
    ) is None {
        let row = announced(before, operation_id, table)->Ok_0;
        let purpose = purpose_applied(
            purpose_tables(before),
            row.target,
            held(row.purpose),
            row.created_at_ms,
        );
        let sessions = purpose.settlement.sessions;
        let reached = StorageEngine { files: after.files, ..before };
        assert(purpose_tables(reached) == purpose_tables(before));
        assert(after.sessions@ == counted_sessions(sessions, row));
        first_is_found(before.sessions@, is_session(session_of(row.target)@));
        purpose_keeps_generations(
            purpose_tables(before),
            row.target,
            held(row.purpose),
            row.created_at_ms,
            session_of(row.target)@,
        );
        match row.target {
            ConversationStorageTarget::Session { session_id, run_id } => {
                let place = first(sessions, is_session(session_id@))->0;
                match other {
                    ConversationStorageTarget::Session { session_id: wanted, run_id: run } => {
                        purpose_keeps_generations(
                            purpose_tables(before),
                            row.target,
                            held(row.purpose),
                            row.created_at_ms,
                            wanted@,
                        );
                        first_after_update(
                            sessions,
                            is_session(wanted@),
                            place,
                            after.sessions@[place],
                        );
                        first_is_found(before.sessions@, is_session(wanted@));
                    },
                    _ => {},
                }
            },
            ConversationStorageTarget::ChildTask { session_id, child_task_id } => {
                let rows = before.child_tasks@;
                first_is_found(rows, is_child(session_id@, child_task_id@));
                let place = first(rows, is_child(session_id@, child_task_id@))->0;
                match other {
                    ConversationStorageTarget::Session { session_id: wanted, run_id: run } => {
                        purpose_keeps_generations(
                            purpose_tables(before),
                            row.target,
                            held(row.purpose),
                            row.created_at_ms,
                            wanted@,
                        );
                        first_is_found(before.sessions@, is_session(wanted@));
                    },
                    ConversationStorageTarget::ChildTask {
                        session_id: wanted,
                        child_task_id: child,
                    } => {
                        first_after_update(
                            rows,
                            is_child(wanted@, child@),
                            place,
                            after.child_tasks@[place],
                        );
                        first_is_found(rows, is_child(wanted@, child@));
                    },
                }
            },
        }
    }
}

/// An attempt to complete an append leaves the conversations of other sessions as they are.
pub proof fn appends_stay_in_their_session(
    before: StorageEngine,
    after: StorageEngine,
    operation_id: Seq<char>,
    table: AppendTable,
    other: ConversationStorageTarget,
)
    requires
        attempted(before, after, operation_id, table),
        announced(before, operation_id, table) is Ok ==> session_of(
            announced(before, operation_id, table)->Ok_0.target,
        )@ != session_of(other)@,
    ensures
        current_conversation(after, other) == current_conversation(before, other),
{
    appends_switch_no_body(before, after, operation_id, table, other);
    if written(before, operation_id, table) is Ok && generation_of(before, other) is Ok {
        let row = announced(before, operation_id, table)->Ok_0;
        let generation = generation_of(before, other)->Ok_0;
        assert(path_of(after, other, generation) == path_of(before, other, generation));
        if path_of(before, other, generation) is Ok {
            sessions_do_not_share_bodies(
                before,
                row.target,
                row.body_generation,
                other,
                generation,
            );
        }
    }
}

pub(crate) proof fn older_messages_are_still_read(
    known: Seq<Arc<RecordedMessage>>,
    later: Seq<Arc<RecordedMessage>>,
    batch: Seq<Arc<RecordedMessage>>,
    records: Seq<Seq<u8>>,
)
    requires
        forall|record: Seq<u8>| #[trigger]
            message_of(later, record) == message_of(known + batch, record),
        messages_of(known, records) is Some,
    ensures
        messages_of(later, records) == messages_of(known, records),
    decreases records.len(),
{
    if records.len() > 0 {
        older_messages_are_still_read(known, later, batch, records.drop_last());
        message_of_longer(known, batch, records.last());
    }
}

proof fn message_of_longer(
    known: Seq<Arc<RecordedMessage>>,
    batch: Seq<Arc<RecordedMessage>>,
    record: Seq<u8>,
)
    requires
        message_of(known, record) is Some,
    ensures
        message_of(known + batch, record) == message_of(known, record),
    decreases known.len(),
{
    assert((known + batch)[0] == known[0]);
    if known[0].record@ != record {
        assert((known + batch).drop_first() =~= known.drop_first() + batch);
        message_of_longer(known.drop_first(), batch, record);
    }
}

proof fn messages_of_joined_records(
    known: Seq<Arc<RecordedMessage>>,
    left: Seq<Seq<u8>>,
    right: Seq<Seq<u8>>,
)
    requires
        messages_of(known, left) is Some,
        messages_of(known, right) is Some,
    ensures
        messages_of(known, left + right) == Some(
            messages_of(known, left)->0 + messages_of(known, right)->0,
        ),
    decreases right.len(),
{
    if right.len() == 0 {
        assert(left + right =~= left);
        assert(messages_of(known, left)->0 + messages_of(known, right)->0 =~= messages_of(
            known,
            left,
        )->0);
    } else {
        messages_of_joined_records(known, left, right.drop_last());
        assert((left + right).drop_last() =~= left + right.drop_last());
        assert((left + right).last() == right.last());
        assert(messages_of(known, left)->0 + messages_of(known, right)->0 =~= (messages_of(
            known,
            left,
        )->0 + messages_of(known, right.drop_last())->0).push(
            message_of(known, right.last())->0,
        ));
    }
}

/// A completed append is read back: the conversation is what it was, then the new messages.
pub proof fn appended_messages_are_read_back(
    before: StorageEngine,
    announcing: StorageEngine,
    after: StorageEngine,
    operation_id: String,
    target: ConversationStorageTarget,
    batch: Seq<Arc<RecordedMessage>>,
    message_step: Option<u32>,
    created_at_ms: i64,
    purpose: AppendPurpose,
)
    requires
        staging_refusal(before, operation_id@, target, batch) is None,
        staged(
            before,
            announcing,
            operation_id,
            target,
            batch,
            message_step,
            created_at_ms,
            purpose,
        ),
        attempted(announcing, after, operation_id@, table_of(target)),
    ensures
        current_conversation(after, target) == Ok::<_, Refusal>(
            current_conversation(before, target)->Ok_0 + resolved(before.known@, batch),
        ),
{
    let table = table_of(target);
    let generation = generation_of(before, target)->Ok_0;
    let path = path_of(before, target, generation)->Ok_0;
    let body = bodies(before.files@)[path];
    let payload = framed(batch_records(batch));
    let old_messages = current_conversation(before, target)->Ok_0;
    let new_messages = resolved(before.known@, batch);
    announced_append_reaches_its_body(
        before,
        announcing,
        operation_id,
        target,
        batch,
        message_step,
        created_at_ms,
        purpose,
    );
    appends_switch_no_body(announcing, after, operation_id@, table, target);
    assert(generation_of(announcing, target) == generation_of(before, target));
    assert(path_of(after, target, generation) == path_of(before, target, generation));
    assert(bodies(after.files@)[path] == body + payload);
    let records = batch_records(batch);
    assert forall|i: int| 0 <= i < records.len() implies one_line(#[trigger] records[i]) by {
        assert(records[i] == batch[i].record@);
    }
    framed_records_are_read_back(records);
    records_of_joined_bodies(body, payload);
    older_messages_are_still_read(before.known@, after.known@, batch, records_of(body)->0);
    resolved_batch_is_read(before.known@, batch);
    equal_knowledge_reads_equal(after.known@, before.known@ + batch, records);
    messages_of_joined_records(after.known@, records_of(body)->0, records);
}

/// An attempt announces nothing new.
pub proof fn attempts_announce_nothing(
    before: StorageEngine,
    after: StorageEngine,
    operation_id: Seq<char>,
    table: AppendTable,
)
    requires
        attempted(before, after, operation_id, table),
    ensures
        forall|row: Arc<StagedAppend>| #[trigger]
            appends(after, table).contains(row) ==> appends(before, table).contains(row),
{
    kept_rows(appends(before, table), is_other_append(operation_id));
    if announced(before, operation_id, table) is Ok {
        first_is_found(appends(before, table), is_append(operation_id));
    }
    let left = kept(appends(before, table), is_other_append(operation_id));
    assert forall|row: Arc<StagedAppend>| #[trigger]
        appends(after, table).contains(row) implies appends(before, table).contains(row) by {
        if left.contains(row) {
            let i = left.index_of(row);
            assert(appends(before, table).contains(left[i]));
        }
    }
}

proof fn turns_leave_other_sessions(
    before: StorageEngine,
    scope: String,
    table: AppendTable,
    order: Seq<usize>,
    trace: Seq<StorageEngine>,
    n: int,
    other: ConversationStorageTarget,
)
    requires
        completes_in_turn(
            kept(appends(before, table), in_scope(Some(scope))),
            table,
            order,
            trace,
        ),
        trace[0] == before,
        0 <= n <= order.len(),
        is_keyed(before),
        session_of(other)@ != scope@,
    ensures
        current_conversation(trace[n], other) == current_conversation(before, other),
        forall|row: Arc<StagedAppend>| #[trigger]
            appends(trace[n], table).contains(row) ==> appends(before, table).contains(row),
    decreases n,
{
    if n > 0 {
        turns_leave_other_sessions(before, scope, table, order, trace, n - 1, other);
        let all = appends(before, table);
        let rows = kept(all, in_scope(Some(scope)));
        let row = rows[order[n - 1] as int];
        let operation_id = row.operation_id@;
        let engine = trace[n - 1];
        assert(attempted(trace[n - 1], trace[n - 1 + 1], operation_id, table));
        kept_rows(all, in_scope(Some(scope)));
        assert(order[n - 1] < rows.len());
        assert(all.contains(row));
        if announced(engine, operation_id, table) is Ok {
            first_is_found(appends(engine, table), is_append(operation_id));
            let place = first(appends(engine, table), is_append(operation_id))->0;
            let found = appends(engine, table)[place];
            assert(appends(engine, table).contains(found));
            let i = all.index_of(row);
            let j = all.index_of(found);
            assert(append_name()(all[i]) == append_name()(all[j]));
            assert(i == j);
        }
        appends_stay_in_their_session(engine, trace[n], operation_id, table, other);
        attempts_announce_nothing(engine, trace[n], operation_id, table);
    }
}

/// Recovering the appends of one session leaves the conversations of all others as they are.
pub proof fn recovery_leaves_other_sessions(
    before: StorageEngine,
    after: StorageEngine,
    scope: String,
    table: AppendTable,
    unavailable: Seq<String>,
    other: ConversationStorageTarget,
)
    requires
        appends_recovered(before, after, Some(scope), table, unavailable),
        is_keyed(before),
        session_of(other)@ != scope@,
    ensures
        current_conversation(after, other) == current_conversation(before, other),
{
    let rows = kept(appends(before, table), in_scope(Some(scope)));
    let (order, trace) = choose|order: Seq<usize>, trace: Seq<StorageEngine>| #[trigger]
        completes_in_turn(rows, table, order, trace) && trace[0] == before && trace.last()
            == after && unavailable == failed_owners(
            rows,
            table,
            order,
            trace,
            order.len() as int,
        );
    turns_leave_other_sessions(before, scope, table, order, trace, order.len() as int, other);
}

proof fn turns_remove_what_they_complete(
    rows: Seq<Arc<StagedAppend>>,
    table: AppendTable,
    order: Seq<usize>,
    trace: Seq<StorageEngine>,
    turn: int,
    n: int,
)
    requires
        completes_in_turn(rows, table, order, trace),
        failed_owners(rows, table, order, trace, n).len() == 0,
        0 <= turn < n <= order.len(),
    ensures
        forall|row: Arc<StagedAppend>| #[trigger]
            appends(trace[n], table).contains(row) ==> row.operation_id@
                != rows[order[turn] as int].operation_id@,
    decreases n,
{
    let operation_id = rows[order[n - 1] as int].operation_id@;
    let engine = trace[n - 1];
    assert(attempted(trace[n - 1], trace[n - 1 + 1], operation_id, table));
    assert(completion_refusal(engine, operation_id, table) is None);
    if turn < n - 1 {
        turns_remove_what_they_complete(rows, table, order, trace, turn, n - 1);
        attempts_announce_nothing(engine, trace[n], operation_id, table);
    } else {
        first_is_found(appends(engine, table), is_append(operation_id));
        let all = appends(engine, table);
        kept_rows(all, is_other_append(operation_id));
        let left = kept(all, is_other_append(operation_id));
        assert(appends(trace[n], table) == left);
        assert forall|row: Arc<StagedAppend>| #[trigger] left.contains(row) implies row.operation_id@
            != operation_id by {
            let i = left.index_of(row);
            assert(is_other_append(operation_id)(left[i]));
        }
    }
}

pub proof fn turns_announce_nothing(
    rows: Seq<Arc<StagedAppend>>,
    table: AppendTable,
    order: Seq<usize>,
    trace: Seq<StorageEngine>,
    n: int,
)
    requires
        completes_in_turn(rows, table, order, trace),
        0 <= n <= order.len(),
    ensures
        forall|row: Arc<StagedAppend>| #[trigger]
            appends(trace[n], table).contains(row) ==> appends(trace[0], table).contains(row),
    decreases n,
{
    if n > 0 {
        turns_announce_nothing(rows, table, order, trace, n - 1);
        let operation_id = rows[order[n - 1] as int].operation_id@;
        assert(attempted(trace[n - 1], trace[n - 1 + 1], operation_id, table));
        attempts_announce_nothing(trace[n - 1], trace[n], operation_id, table);
    }
}

/// Once every append in scope could be completed, none is announced there any more.
pub proof fn completed_recovery_leaves_nothing_announced(
    before: StorageEngine,
    after: StorageEngine,
    scope: Option<String>,
    table: AppendTable,
)
    requires
        appends_recovered(before, after, scope, table, Seq::empty()),
    ensures
        !some_row(appends(after, table), in_scope(scope)),
{
    let all = appends(before, table);
    let rows = kept(all, in_scope(scope));
    let (order, trace) = choose|order: Seq<usize>, trace: Seq<StorageEngine>| #[trigger]
        completes_in_turn(rows, table, order, trace) && trace[0] == before && trace.last()
            == after && Seq::<String>::empty() == failed_owners(
            rows,
            table,
            order,
            trace,
            order.len() as int,
        );
    turns_announce_nothing(rows, table, order, trace, order.len() as int);
    kept_rows(all, in_scope(scope));
    assert forall|i: int| 0 <= i < appends(after, table).len() implies !in_scope(scope)(
        #[trigger] appends(after, table)[i],
    ) by {
        let row = appends(after, table)[i];
        assert(appends(after, table).contains(row));
        if in_scope(scope)(row) {
            assert(rows.contains(row));
            let place = rows.index_of(row);
            let turn = every_place_has_its_turn(append_keys(rows), order, place);
            turns_remove_what_they_complete(
                rows,
                table,
                order,
                trace,
                turn,
                order.len() as int,
            );
        }
    }
}

/// Writing a replacement changes no conversation that counts.
pub proof fn replacement_keeps_old_authority(
    before: StorageEngine,
    after: StorageEngine,
    session_id: String,
    batch: Seq<Arc<RecordedMessage>>,
    changed_at_ms: i64,
    other: ConversationStorageTarget,
)
    requires
        replacement_refusal(before, session_id, batch) is None,
        replacement_written(
            before,
            after,
            session_id,
            batch,
            planned(before, session_id, batch, changed_at_ms),
        ),
        current_conversation(before, other) is Ok,
    ensures
        current_conversation(after, other) == current_conversation(before, other),
{
    let plan = planned(before, session_id, batch, changed_at_ms);
    free_generation_is_free(
        bodies(before.files@),
        before.sessions_directory@,
        session_id@,
        plan.previous_generation + 1,
    );
    let generation = generation_of(before, other)->Ok_0;
    let path = path_of(before, other, generation)->Ok_0;
    assert(generation_of(after, other) == generation_of(before, other));
    assert(path_of(after, other, generation) == path_of(before, other, generation));
    older_messages_are_still_read(
        before.known@,
        after.known@,
        batch,
        records_of(bodies(before.files@)[path])->0,
    );
}

proof fn free_generation_is_free(
    files: Map<Seq<char>, Seq<u8>>,
    directory: Seq<char>,
    session_id: Seq<char>,
    from: int,
)
    requires
        0 <= from,
    ensures
        match free_generation(files, directory, session_id, from) {
            Some(generation) => generation >= from && !files.contains_key(
                session_body_path(directory, session_id, generation),
            ),
            None => true,
        },
    decreases u64::MAX - from + 1,
{
    if from <= u64::MAX && files.contains_key(
        session_body_path(directory, session_id, from as u64),
    ) {
        free_generation_is_free(files, directory, session_id, from + 1);
    }
}

/// Once a replacement is committed, it is the conversation that counts.
pub proof fn committed_replacement_is_read(
    before: StorageEngine,
    after: StorageEngine,
    plan: ReplacementPlan,
)
    requires
        switch_refusal(before, plan) is None,
        switched(before, after, plan),
        plan.new_generation != plan.previous_generation,
    ensures
        current_conversation(after, main_target(plan.session_id)) == conversation_at(
            before,
            main_target(plan.session_id),
            plan.new_generation,
        ),
{
    let rows = before.sessions@;
    first_is_found(rows, is_session(plan.session_id@));
    let place = first(rows, is_session(plan.session_id@))->0;
    first_after_update(rows, is_session(plan.session_id@), place, after.sessions@[place]);
    generations_do_not_share_bodies(
        before.sessions_directory@,
        plan.session_id@,
        plan.new_generation,
        plan.previous_generation,
    );
}

/// A written replacement lies at a generation of its own, and is read as it was given.
pub proof fn written_replacement_is_read(
    before: StorageEngine,
    prepared: StorageEngine,
    session_id: String,
    batch: Seq<Arc<RecordedMessage>>,
    changed_at_ms: i64,
)
    requires
        replacement_refusal(before, session_id, batch) is None,
        replacement_written(
            before,
            prepared,
            session_id,
            batch,
            planned(before, session_id, batch, changed_at_ms),
        ),
    ensures
        ({
            let plan = planned(before, session_id, batch, changed_at_ms);
            &&& plan.new_generation > plan.previous_generation
            &&& conversation_at(prepared, main_target(session_id), plan.new_generation)
                == Ok::<_, Refusal>(resolved(before.known@, batch))
        }),
{
    let plan = planned(before, session_id, batch, changed_at_ms);
    free_generation_is_free(
        bodies(before.files@),
        before.sessions_directory@,
        session_id@,
        plan.previous_generation + 1,
    );
    let records = batch_records(batch);
    assert forall|i: int| 0 <= i < records.len() implies one_line(#[trigger] records[i]) by {
        assert(records[i] == batch[i].record@);
    }
    framed_records_are_read_back(records);
    resolved_batch_is_read(before.known@, batch);
    equal_knowledge_reads_equal(prepared.known@, before.known@ + batch, records);
}

/// A replacement that was prepared and then committed is read back as it was given, and the
/// session counts its messages.
pub proof fn replaced_conversation_is_read_back(
    before: StorageEngine,
    prepared: StorageEngine,
    after: StorageEngine,
    session_id: String,
    batch: Seq<Arc<RecordedMessage>>,
    changed_at_ms: i64,
)
    requires
        replacement_refusal(before, session_id, batch) is None,
        replacement_written(
            before,
            prepared,
            session_id,
            batch,
            planned(before, session_id, batch, changed_at_ms),
        ),
        switch_refusal(prepared, planned(before, session_id, batch, changed_at_ms)) is None,
        switched(prepared, after, planned(before, session_id, batch, changed_at_ms)),
    ensures
        current_conversation(after, main_target(session_id)) == Ok::<_, Refusal>(
            resolved(before.known@, batch),
        ),
        generation_of(after, main_target(session_id)) == Ok::<_, Refusal>(
            planned(before, session_id, batch, changed_at_ms).new_generation,
        ),
{
    let plan = planned(before, session_id, batch, changed_at_ms);
    written_replacement_is_read(before, prepared, session_id, batch, changed_at_ms);
    committed_replacement_is_read(prepared, after, plan);
    let rows = prepared.sessions@;
    first_is_found(rows, is_session(session_id@));
    let place = first(rows, is_session(session_id@))->0;
    first_after_update(rows, is_session(session_id@), place, after.sessions@[place]);
}

} // verus!
