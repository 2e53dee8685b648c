//! What has to hold for a write to be let through.

use vstd::prelude::*;

use std::sync::Arc;

use crate::append_effect::{ConversationStorageTarget, StagedAppend};
use crate::clear_cleanup::{
    any_entry, any_image, child_body_refusal, child_body_refusals, child_refusal, child_refusals,
    cleanup_refusal, image_refusal, image_refusals, is_cleanup, is_current_body, ChildrenListing,
    CleanupPlan, SessionListing,
};
use crate::conversation::{
    batch_records, candidate_refusal, conversation_of, encodable, framed, one_line, reconciled,
    RecordedMessage,
};
use crate::engine::{
    bodies, child_body_path, conversation_at, current_conversation, generation_of, is_child,
    is_session, path_component, path_of, session_body_path, StorageEngine,
};
use crate::error::{Refusal, StorageResult};
use crate::file_laws::{can_be_read, task_can_be_read};
use crate::history_recovery::{awaits_cleanup, is_unsettled, was_interrupted};
use crate::message::held;
use crate::order::key_before;
use crate::recovery::{
    appends, free_generation, is_append, main_target, replacement_refusal, resolved,
    staging_refusal, switch_refusal, table_of, AppendTable, ReplacementPlan,
};
use crate::relations::{
    filtered_rows, kept_is_filtered, session_stands_where_found, stands_at, task_at, task_is_found,
};
use crate::rewriting_laws::body_file;
use crate::rows::{ConversationOwner, HistoryOperationRow, SessionRow};
use crate::session_directories::{
    directories_listed, id_keys, is_directories_of, is_meant, SessionDirectories,
};
use crate::session_resources::{same_environment, SessionExecutionEnvironment};
use crate::table::{all_rows_kept, first, kept, nothing_refused, some_row};
use crate::text::{blank, decimal, lists, text_before, white_space};
use crate::tool_images::{is_unreadable_task, unreadable_conversation};
use crate::usage::{requests_of, with_requests, UsageTables};

verus! {

/// The generation of a conversation that counts is the one that the row of its owner names.
pub proof fn generations_are_those_of_the_owner(
    engine: StorageEngine,
    target: ConversationStorageTarget,
)
    ensures
        match target {
            ConversationStorageTarget::Session { session_id, run_id } => {
                &&& generation_of(engine, target) is Ok <==> exists|s: int| #[trigger]
                    stands_at(engine.sessions@, s, session_id@)
                &&& forall|s: int| #[trigger]
                    stands_at(engine.sessions@, s, session_id@) ==> generation_of(engine, target)
                        == Ok::<u64, Refusal>(engine.sessions@[s].body_generation)
            },
            ConversationStorageTarget::ChildTask { session_id, child_task_id } => {
                &&& generation_of(engine, target) is Ok <==> exists|t: int| #[trigger]
                    task_at(engine.child_tasks@, t, session_id@, child_task_id@)
                &&& forall|t: int| #[trigger]
                    task_at(engine.child_tasks@, t, session_id@, child_task_id@) ==> generation_of(
                        engine,
                        target,
                    ) == Ok::<u64, Refusal>(engine.child_tasks@[t].body_generation)
            },
        },
{
    match target {
        ConversationStorageTarget::Session { session_id, run_id } => {
            session_stands_where_found(engine.sessions@, session_id@);
            if first(engine.sessions@, is_session(session_id@)) is Some {
                assert(stands_at(
                    engine.sessions@,
                    first(engine.sessions@, is_session(session_id@))->0,
                    session_id@,
                ));
            }
        },
        ConversationStorageTarget::ChildTask { session_id, child_task_id } => {
            task_is_found(engine.child_tasks@, session_id@, child_task_id@);
            if first(engine.child_tasks@, is_child(session_id@, child_task_id@)) is Some {
                assert(task_at(
                    engine.child_tasks@,
                    first(engine.child_tasks@, is_child(session_id@, child_task_id@))->0,
                    session_id@,
                    child_task_id@,
                ));
            }
        },
    }
}

/// The body of a task's conversation.
pub open spec fn task_body_file(
    directory: Seq<char>,
    session_id: Seq<char>,
    task_id: Seq<char>,
    generation: u64,
) -> Seq<char> {
    directory + "/"@ + session_id + "/child-tasks/"@ + task_id + "/body-"@ + decimal(
        generation as nat,
    ) + ".jsonl"@
}

/// A body lies under the directory of its session, where the names in its path can be names of
/// directories.
pub proof fn bodies_lie_under_their_session(
    engine: StorageEngine,
    target: ConversationStorageTarget,
    generation: u64,
)
    ensures
        match target {
            ConversationStorageTarget::Session { session_id, run_id } => {
                &&& path_of(engine, target, generation) is Ok <==> path_component(session_id@)
                &&& path_component(session_id@) ==> path_of(engine, target, generation)->Ok_0
                    == body_file(engine.sessions_directory@, session_id@, generation)
            },
            ConversationStorageTarget::ChildTask { session_id, child_task_id } => {
                &&& path_of(engine, target, generation) is Ok <==> path_component(session_id@)
                    && path_component(child_task_id@)
                &&& path_component(session_id@) && path_component(child_task_id@) ==> path_of(
                    engine,
                    target,
                    generation,
                )->Ok_0 == task_body_file(
                    engine.sessions_directory@,
                    session_id@,
                    child_task_id@,
                    generation,
                )
            },
        },
{
    match target {
        ConversationStorageTarget::Session { session_id, run_id } => {
            assert(session_body_path(engine.sessions_directory@, session_id@, generation)
                =~= body_file(engine.sessions_directory@, session_id@, generation));
        },
        ConversationStorageTarget::ChildTask { session_id, child_task_id } => {
            assert(child_body_path(
                engine.sessions_directory@,
                session_id@,
                child_task_id@,
                generation,
            ) =~= task_body_file(
                engine.sessions_directory@,
                session_id@,
                child_task_id@,
                generation,
            ));
        },
    }
}

/// An announced append is carried out where the body is what it was, or that with a beginning of what
/// is announced; the body is then what it was with all that was announced. Else it is left alone.
pub proof fn cut_off_writes_are_carried_out(body: Seq<u8>, base: nat, payload: Seq<u8>)
    ensures
        reconciled(body, base, payload) is Some <==> {
            &&& base <= body.len() <= base + payload.len()
            &&& forall|i: int| base <= i < body.len() ==> #[trigger] body[i] == payload[i - base]
        },
        reconciled(body, base, payload) is Some ==> {
            let after = reconciled(body, base, payload)->0;
            &&& after.len() == base + payload.len()
            &&& forall|i: int| 0 <= i < base ==> #[trigger] after[i] == body[i]
            &&& forall|i: int|
                0 <= i < payload.len() ==> after[base + i] == #[trigger] payload[i]
        },
{
    if base <= body.len() {
        let tail = body.skip(base as int);
        if tail.is_prefix_of(payload) {
            assert forall|i: int| base <= i < body.len() implies #[trigger] body[i] == payload[i
                - base] by {
                assert(tail[i - base] == body[i]);
                assert(payload.subrange(0, tail.len() as int)[i - base] == payload[i - base]);
            }
        }
        if body.len() <= base + payload.len() && forall|i: int|
            base <= i < body.len() ==> #[trigger] body[i] == payload[i - base] {
            assert forall|k: int| 0 <= k < tail.len() implies tail[k] == #[trigger] payload[k] by {
                assert(body[base + k] == payload[base + k - base]);
            }
            assert(tail =~= payload.subrange(0, tail.len() as int));
        }
    }
}

/// Two environments are one where they name the same places.
pub proof fn environments_are_one_where_their_places_are(
    left: SessionExecutionEnvironment,
    right: SessionExecutionEnvironment,
)
    ensures
        same_environment(left, right) <==> {
            &&& match (left.workspace_id, right.workspace_id) {
                (Some(a), Some(b)) => a@ == b@,
                (None, None) => true,
                _ => false,
            }
            &&& left.working_directory@ == right.working_directory@
            &&& match (left.workspace_private_directory, right.workspace_private_directory) {
                (Some(a), Some(b)) => a@ == b@,
                (None, None) => true,
                _ => false,
            }
            &&& left.session_attachment_directory@ == right.session_attachment_directory@
            &&& left.session_private_directory@ == right.session_private_directory@
            &&& left.session_tool_image_directory@ == right.session_tool_image_directory@
        },
{
}

/// A replacement is written exactly where its records are lines that are read as messages that fit,
/// the session is there under a name that a directory can have, and a later generation is free.
pub proof fn replacements_are_written_where_they_fit(
    engine: StorageEngine,
    session_id: String,
    batch: Seq<Arc<RecordedMessage>>,
)
    ensures
        replacement_refusal(engine, session_id, batch) is None <==> {
            &&& encodable(batch)
            &&& conversation_of(engine.known@ + batch, framed(batch_records(batch))) is Ok
            &&& path_component(session_id@)
            &&& exists|s: int|
                {
                    &&& #[trigger] stands_at(engine.sessions@, s, session_id@)
                    &&& free_generation(
                        bodies(engine.files@),
                        engine.sessions_directory@,
                        session_id@,
                        engine.sessions@[s].body_generation + 1,
                    ) is Some
                }
        },
{
    session_stands_where_found(engine.sessions@, session_id@);
    if first(engine.sessions@, is_session(session_id@)) is Some {
        assert(stands_at(
            engine.sessions@,
            first(engine.sessions@, is_session(session_id@))->0,
            session_id@,
        ));
    }
}

/// A written conversation takes the place of the one that counts exactly where it can be read, that is
/// still the one expected, the numbers can be stored and what it used can be accounted for.
pub proof fn replacements_count_where_nothing_changed(engine: StorageEngine, plan: ReplacementPlan)
    ensures
        switch_refusal(engine, plan) is None <==> {
            let target = ConversationStorageTarget::Session {
                session_id: plan.session_id,
                run_id: plan.session_id,
            };
            &&& conversation_at(engine, target, plan.new_generation) is Ok
            &&& plan.new_generation <= i64::MAX
            &&& plan.previous_generation <= i64::MAX
            &&& plan.message_count <= i64::MAX
            &&& exists|s: int| #[trigger]
                stands_at(engine.sessions@, s, plan.session_id@)
                    && engine.sessions@[s].body_generation == plan.previous_generation
            &&& with_requests(
                UsageTables { records: engine.request_records@, usage: engine.session_usage@ },
                requests_of(
                    ConversationOwner::MainSession { session_id: plan.session_id },
                    None,
                    conversation_at(engine, target, plan.new_generation)->Ok_0,
                    plan.changed_at_ms,
                    false,
                ),
            ) is Ok
        },
{
    session_stands_where_found(engine.sessions@, plan.session_id@);
    if first(engine.sessions@, is_session(plan.session_id@)) is Some {
        assert(stands_at(
            engine.sessions@,
            first(engine.sessions@, is_session(plan.session_id@))->0,
            plan.session_id@,
        ));
    }
}

/// An append is announced exactly where it has a name and messages, the conversation can be read, the
/// messages can follow it, their records are lines, the numbers can be stored, and nothing is
/// announced under its name.
pub proof fn appends_are_announced_where_they_fit(
    engine: StorageEngine,
    operation_id: Seq<char>,
    target: ConversationStorageTarget,
    batch: Seq<Arc<RecordedMessage>>,
    table: AppendTable,
)
    requires
        (table is Session) == (target is Session),
    ensures
        staging_refusal(engine, operation_id, target, batch) is None <==> {
            &&& exists|i: int|
                0 <= i < operation_id.len() && !white_space(#[trigger] operation_id[i])
            &&& batch.len() > 0
            &&& batch.len() <= i64::MAX
            &&& current_conversation(engine, target) is Ok
            &&& candidate_refusal(
                current_conversation(engine, target)->Ok_0,
                resolved(engine.known@, batch),
            ) is None
            &&& forall|i: int, b: int|
                0 <= i < batch.len() && 0 <= b < (#[trigger] batch[i]).record@.len()
                    ==> #[trigger] batch[i].record@[b] != 10
            &&& generation_of(engine, target)->Ok_0 <= i64::MAX
            &&& bodies(engine.files@)[path_of(
                engine,
                target,
                generation_of(engine, target)->Ok_0,
            )->Ok_0].len() <= i64::MAX
            &&& forall|k: int|
                0 <= k < announced_in(engine, table).len() ==> held(
                    #[trigger] announced_in(engine, table)[k],
                ).operation_id@ != operation_id
        },
{
    assert(table == table_of(target));
    let rows = announced_in(engine, table);
    assert(rows == appends(engine, table));
    if some_row(rows, is_append(operation_id)) {
        let k = choose|k: int| 0 <= k < rows.len() && is_append(operation_id)(#[trigger] rows[k]);
        assert(held(rows[k]).operation_id@ == operation_id);
    } else {
        assert forall|k: int| 0 <= k < rows.len() implies held(#[trigger] rows[k]).operation_id@
            != operation_id by {
            assert(!is_append(operation_id)(rows[k]));
        }
    }
    if encodable(batch) {
        assert forall|i: int, b: int|
            0 <= i < batch.len() && 0 <= b < (#[trigger] batch[i]).record@.len() implies
        #[trigger] batch[i].record@[b] != 10 by {
            assert(one_line(batch[i].record@));
            assert(batch[i].record@.contains(batch[i].record@[b]));
        }
    }
    if forall|i: int, b: int|
        0 <= i < batch.len() && 0 <= b < (#[trigger] batch[i]).record@.len()
            ==> #[trigger] batch[i].record@[b] != 10 {
        assert forall|i: int| 0 <= i < batch.len() implies one_line(
            (#[trigger] batch[i]).record@,
        ) by {
            let record = batch[i].record@;
            if record.contains(10u8) {
                let b = record.index_of(10u8);
                assert(batch[i].record@[b] == 10);
            }
        }
    }
    if !blank(operation_id) {
        let i = choose|i: int|
            0 <= i < operation_id.len() && !white_space(#[trigger] operation_id[i]);
        assert(!white_space(operation_id[i]));
    }
}

/// What is announced in a table.
pub open spec fn announced_in(engine: StorageEngine, table: AppendTable) -> Seq<Arc<StagedAppend>> {
    match table {
        AppendTable::Session => engine.body_appends@,
        AppendTable::ChildTask => engine.child_body_appends@,
    }
}

/// The directories of the sessions in scope are told by session, each under its name.
pub proof fn directories_are_told_by_session(
    engine: StorageEngine,
    scope: Option<String>,
    order: Seq<usize>,
    result: StorageResult<Vec<SessionDirectories>>,
)
    requires
        directories_listed(engine, scope, order, result),
        result is Ok,
    ensures
        ({
            let rows = engine.sessions@.filter(is_session_in_scope(scope));
            let list = result->Ok_0@;
            &&& list.len() == rows.len()
            &&& order.len() == rows.len()
            &&& forall|k: int|
                0 <= k < list.len() ==> order[k] < rows.len() && are_directories_of(
                    engine,
                    rows[order[k] as int].session_id@,
                    #[trigger] list[k],
                )
            &&& forall|k: int, l: int|
                0 <= k < l < order.len() ==> !text_before(
                    rows[#[trigger] order[l] as int].session_id@,
                    rows[#[trigger] order[k] as int].session_id@,
                )
        }),
{
    kept_is_filtered(engine.sessions@, is_meant(scope), is_session_in_scope(scope));
    let rows = engine.sessions@.filter(is_session_in_scope(scope));
    let list = result->Ok_0@;
    let keys = id_keys(rows);
    assert forall|k: int| 0 <= k < list.len() implies order[k] < rows.len() && are_directories_of(
        engine,
        rows[order[k] as int].session_id@,
        #[trigger] list[k],
    ) by {
        let id = rows[order[k] as int].session_id@;
        reveal_strlit("/attachments");
        reveal_strlit("/private");
        reveal_strlit("/tool-images");
        assert(is_directories_of(engine, id, list[k]));
    }
    assert forall|k: int, l: int| 0 <= k < l < order.len() implies !text_before(
        rows[#[trigger] order[l] as int].session_id@,
        rows[#[trigger] order[k] as int].session_id@,
    ) by {
        assert(!key_before(keys[order[l] as int], keys[order[k] as int]));
    }
}

/// The condition of being the session asked for.
pub open spec fn is_session_in_scope(scope: Option<String>) -> spec_fn(SessionRow) -> bool {
    |row: SessionRow| scope is None || row.session_id@ == scope->0@
}

/// The directories of a session.
pub open spec fn are_directories_of(
    engine: StorageEngine,
    session_id: Seq<char>,
    directories: SessionDirectories,
) -> bool {
    let base = engine.sessions_directory@ + "/"@ + session_id;
    &&& directories.session_directory@ == base
    &&& directories.attachment_directory@ == base + "/attachments"@
    &&& directories.private_directory@ == base + "/private"@
    &&& directories.tool_image_directory@ == base + "/tool-images"@
}

/// A change is unsettled that is being prepared or to be cleaned up, in the session asked for.
pub proof fn unsettled_changes_are_those_under_way(
    engine: StorageEngine,
    scope: Option<String>,
    row: HistoryOperationRow,
    generation: u64,
)
    ensures
        awaits_cleanup(engine, scope, row, generation) ==> {
            &&& engine.history_operations@.contains(row)
            &&& scope is None || row.session_id@ == scope->0@
            &&& row.kind is Clear
            &&& row.state is CleanupPending
            &&& row.result_generation is Some && row.result_generation->0 == generation
            &&& forall|s: int| #[trigger]
                stands_at(engine.sessions@, s, row.session_id@)
                    ==> engine.sessions@[s].body_generation == generation
        },
        was_interrupted(engine, scope, row, generation) ==> {
            &&& engine.history_operations@.contains(row)
            &&& scope is None || row.session_id@ == scope->0@
            &&& row.kind is Clear
            &&& row.state is Preparing
            &&& row.result_generation is Some && row.result_generation->0 == generation
            &&& path_component(row.session_id@)
            &&& forall|s: int| #[trigger]
                stands_at(engine.sessions@, s, row.session_id@)
                    ==> engine.sessions@[s].body_generation == row.source_generation
        },
{
    let plain = |other: HistoryOperationRow|
        (other.state is Preparing || other.state is CleanupPending) && (scope is None
            || other.session_id@ == scope->0@);
    kept_is_filtered(engine.history_operations@, is_unsettled(scope), plain);
    filtered_rows(engine.history_operations@, plain);
    session_stands_where_found(engine.sessions@, row.session_id@);
    if kept(engine.history_operations@, is_unsettled(scope)).contains(row) {
        assert(engine.history_operations@.filter(plain).contains(row));
        assert(plain(row));
    }
}

/// A conversation is in trouble that is not known to be unavailable and cannot be read.
pub proof fn trouble_is_what_cannot_be_read(
    engine: StorageEngine,
    session_id: String,
    generation: u64,
)
    ensures
        !unreadable_conversation(engine, session_id, generation) <==> {
            &&& can_be_read(engine, session_id, generation) || lists(
                engine.unavailable_sessions@,
                session_id@,
            )
            &&& forall|t: int|
                0 <= t < engine.child_tasks@.len() && engine.child_tasks@[t].session_id@
                    == session_id@ ==> task_can_be_read(
                    engine,
                    #[trigger] engine.child_tasks@[t],
                ) || lists(
                    engine.unavailable_child_tasks@,
                    engine.child_tasks@[t].child_task_id@,
                )
        },
{
    assert(main_target(session_id) == (ConversationStorageTarget::Session {
        session_id,
        run_id: session_id,
    }));
    assert forall|t: int| 0 <= t < engine.child_tasks@.len() && engine.child_tasks@[t].session_id@
        == session_id@ implies is_unreadable_task(
        engine,
        session_id@,
        #[trigger] engine.child_tasks@[t],
    ) == !(task_can_be_read(engine, engine.child_tasks@[t]) || lists(
        engine.unavailable_child_tasks@,
        engine.child_tasks@[t].child_task_id@,
    )) by {}
    if unreadable_conversation(engine, session_id, generation) && (can_be_read(
        engine,
        session_id,
        generation,
    ) || lists(engine.unavailable_sessions@, session_id@)) {
        let t = choose|t: int|
            0 <= t < engine.child_tasks@.len() && is_unreadable_task(
                engine,
                session_id@,
                #[trigger] engine.child_tasks@[t],
            );
        assert(engine.child_tasks@[t].session_id@ == session_id@);
    }
    if !unreadable_conversation(engine, session_id, generation) {
        assert forall|t: int|
            0 <= t < engine.child_tasks@.len() && engine.child_tasks@[t].session_id@
                == session_id@ implies task_can_be_read(engine, #[trigger] engine.child_tasks@[t])
            || lists(engine.unavailable_child_tasks@, engine.child_tasks@[t].child_task_id@) by {
            assert(!is_unreadable_task(engine, session_id@, engine.child_tasks@[t]));
        }
    }
}

/// A clean up takes away each body of each task and each image that has a name, and goes on only where
/// each has one that fits and is what its name says.
pub proof fn cleanups_take_tasks_and_images(
    listing: SessionListing,
    result_generation: u64,
    plan: CleanupPlan,
)
    requires
        is_cleanup(listing, result_generation, plan),
        cleanup_refusal(listing, result_generation) is None,
    ensures
        plan.tool_images@.len() == listing.tool_images@.len(),
        forall|k: int|
            0 <= k < plan.tool_images@.len() ==> listing.tool_images@[k].entry.name == Some(
                #[trigger] plan.tool_images@[k],
            ) && listing.tool_images@[k].entry.kind is File,
        exists|e: int|
            0 <= e < listing.entries@.len() && (#[trigger] listing.entries@[e]).kind is File
                && listing.entries@[e].name is Some && listing.entries@[e].name->0@
                == "conversation."@ + decimal(result_generation as nat) + ".jsonl"@,
        match listing.children {
            ChildrenListing::Absent => plan.children@.len() == 0,
            ChildrenListing::NotADirectory => false,
            ChildrenListing::Entries(children) => {
                &&& plan.children@.len() == children@.len()
                &&& forall|c: int|
                    0 <= c < children@.len() ==> children@[c].entry.name == Some(
                        (#[trigger] plan.children@[c]).name,
                    ) && children@[c].entry.kind is Directory && plan.children@[c].bodies@.len()
                        == children@[c].bodies@.len()
            },
        },
{
    nothing_refused(listing.tool_images@, image_refusals());
    assert forall|k: int| 0 <= k < listing.tool_images@.len() implies any_image()(
        #[trigger] listing.tool_images@[k],
    ) && listing.tool_images@[k].entry.kind is File by {
        assert(image_refusals()(listing.tool_images@[k]) is None);
        assert(image_refusal(listing.tool_images@[k]) is None);
    }
    all_rows_kept(listing.tool_images@, any_image());
    assert forall|k: int| 0 <= k < plan.tool_images@.len() implies listing.tool_images@[k].entry.name
        == Some(#[trigger] plan.tool_images@[k]) && listing.tool_images@[k].entry.kind is File by {
        assert(any_image()(listing.tool_images@[k]));
    }
    assert(some_row(listing.entries@, is_current_body(result_generation)));
    let e = choose|e: int|
        0 <= e < listing.entries@.len() && is_current_body(result_generation)(
            #[trigger] listing.entries@[e],
        );
    assert(listing.entries@[e].kind is File);
    match listing.children {
        ChildrenListing::Entries(children) => {
            nothing_refused(children@, child_refusals());
            assert forall|c: int| 0 <= c < children@.len() implies children@[c].entry.name == Some(
                (#[trigger] plan.children@[c]).name,
            ) && children@[c].entry.kind is Directory && plan.children@[c].bodies@.len()
                == children@[c].bodies@.len() by {
                assert(child_refusals()(children@[c]) is None);
                assert(child_refusal(children@[c]) is None);
                let inner = children@[c].bodies@;
                nothing_refused(inner, child_body_refusals());
                assert forall|b: int| 0 <= b < inner.len() implies any_entry()(
                    #[trigger] inner[b],
                ) by {
                    assert(child_body_refusals()(inner[b]) is None);
                    assert(child_body_refusal(inner[b]) is None);
                }
                all_rows_kept(inner, any_entry());
                assert(plan.children@[c].name == children@[c].entry.name->0);
            }
        },
        _ => {},
    }
}

} // verus!
