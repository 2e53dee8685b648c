//! What holds of forked and deleted sessions as a whole.

use std::sync::Arc;
use vstd::prelude::*;

use crate::append_laws::sessions_do_not_share_bodies;
use crate::cascade::inputs_removed;
use crate::conversation::{
    batch_records, conversation_of, framed, message_of, messages_of, records_of, RecordedMessage,
};
use crate::engine::{
    bodies, bodies_after_keeping, current_conversation, generation_of, is_session, path_component,
    path_of, session_body_path, session_path, StorageEngine,
};
use crate::recovery::main_target;
use crate::session_fork::{forked, storing_refusal, SessionFork};
use crate::session_history::inputs_of;
use crate::session_transfer::{
    below_session, body_elsewhere, session_deleted, session_elsewhere, session_forgotten,
};
use crate::table::{first, first_is, first_is_found, first_kept_row, some_row};
use crate::text::{cut_of_joined, decimal, has_prefix};
use crate::usage::{is_usage_of, no_usage};
use crate::work_plan::StoredWorkPlan;

verus! {

/// A forked session reads the conversation that it was given.
pub proof fn forked_conversation_is_read_back(
    before: StorageEngine,
    after: StorageEngine,
    fork: SessionFork,
    batch: Seq<Arc<RecordedMessage>>,
    plan: Option<Arc<StoredWorkPlan>>,
)
    requires
        path_component(fork.session.session_id@),
        storing_refusal(before, fork, batch) is None,
        forked(before, after, fork, batch, plan),
    ensures
        current_conversation(after, main_target(fork.session.session_id)) == conversation_of(
            before.known@ + batch,
            framed(batch_records(batch)),
        ),
        current_conversation(after, main_target(fork.session.session_id)) is Ok,
{
    let rows = after.sessions@;
    let condition = is_session(fork.session.session_id@);
    let last = before.sessions@.len() as int;
    assert forall|j: int| 0 <= j < last implies !condition(#[trigger] rows[j]) by {
        assert(rows[j] == before.sessions@[j]);
        if condition(before.sessions@[j]) {
            assert(some_row(before.sessions@, condition));
        }
    }
    first_is(rows, condition, last);
}

proof fn longer_knowledge_reads_alike(
    known: Seq<Arc<RecordedMessage>>,
    batch: Seq<Arc<RecordedMessage>>,
    records: Seq<Seq<u8>>,
)
    requires
        messages_of(known, records) is Some,
    ensures
        messages_of(known + batch, records) == messages_of(known, records),
    decreases records.len(),
{
    if records.len() > 0 {
        longer_knowledge_reads_alike(known, batch, records.drop_last());
        longer_knowledge_finds_alike(known, batch, records.last());
    }
}

proof fn longer_knowledge_finds_alike(
    known: Seq<Arc<RecordedMessage>>,
    batch: Seq<Arc<RecordedMessage>>,
    record: Seq<u8>,
)
    requires
        message_of(known, record) is Some,
    ensures
        message_of(known + batch, record) == message_of(known, record),
    decreases known.len(),
{
    assert((known + batch)[0] == known[0]);
    if known[0].record@ != record {
        assert((known + batch).drop_first() =~= known.drop_first() + batch);
        longer_knowledge_finds_alike(known.drop_first(), batch, record);
    }
}

/// A fork leaves every other session's conversation as it is, its source's too.
pub proof fn fork_leaves_other_sessions(
    before: StorageEngine,
    after: StorageEngine,
    fork: SessionFork,
    batch: Seq<Arc<RecordedMessage>>,
    plan: Option<Arc<StoredWorkPlan>>,
    session_id: String,
)
    requires
        path_component(fork.session.session_id@),
        storing_refusal(before, fork, batch) is None,
        forked(before, after, fork, batch, plan),
        current_conversation(before, main_target(session_id)) is Ok,
    ensures
        current_conversation(after, main_target(session_id)) == current_conversation(
            before,
            main_target(session_id),
        ),
{
    let rows = before.sessions@;
    let condition = is_session(session_id@);
    first_is_found(rows, condition);
    let place = first(rows, condition)->0;
    assert forall|j: int| 0 <= j < place implies !condition(#[trigger] after.sessions@[j]) by {
        assert(after.sessions@[j] == rows[j]);
    }
    assert(after.sessions@[place] == rows[place]);
    first_is(after.sessions@, condition, place);
    let generation = generation_of(before, main_target(session_id))->Ok_0;
    let path = path_of(before, main_target(session_id), generation)->Ok_0;
    if session_id@ == fork.session.session_id@ {
        assert(is_session(fork.session.session_id@)(rows[place]));
        assert(some_row(rows, is_session(fork.session.session_id@)));
    } else {
        sessions_do_not_share_bodies(
            before,
            main_target(session_id),
            generation,
            main_target(fork.session.session_id),
            1,
        );
    }
    longer_knowledge_reads_alike(
        before.known@,
        batch,
        records_of(bodies(before.files@)[path])->0,
    );
}

/// A forked session has used nothing yet.
pub proof fn fork_starts_without_usage(
    before: StorageEngine,
    after: StorageEngine,
    fork: SessionFork,
    batch: Seq<Arc<RecordedMessage>>,
    plan: Option<Arc<StoredWorkPlan>>,
)
    requires
        storing_refusal(before, fork, batch) is None,
        forked(before, after, fork, batch, plan),
    ensures
        ({
            let place = first(after.session_usage@, is_usage_of(fork.session.session_id@));
            place is Some && after.session_usage@[place->0].usage == no_usage()
        }),
{
    let condition = is_usage_of(fork.session.session_id@);
    let rows = after.session_usage@;
    let last = before.session_usage@.len() as int;
    assert forall|j: int| 0 <= j < last implies !condition(#[trigger] rows[j]) by {
        assert(rows[j] == before.session_usage@[j]);
        if condition(before.session_usage@[j]) {
            assert(some_row(before.session_usage@, condition));
        }
    }
    first_is(rows, condition, last);
}

proof fn other_body_lies_elsewhere(
    directory: Seq<char>,
    session_id: Seq<char>,
    other: Seq<char>,
    generation: u64,
)
    requires
        path_component(session_id),
        path_component(other),
        session_id != other,
    ensures
        !below_session(directory, session_id, session_body_path(directory, other, generation)),
{
    reveal_strlit("/");
    reveal_strlit("/conversation.");
    let path = session_body_path(directory, other, generation);
    let prefix = session_path(directory, session_id) + "/"@;
    if has_prefix(path, prefix) {
        let n = directory.len() as int + 1;
        let rest = "/conversation."@.skip(1) + decimal(generation as nat) + ".jsonl"@;
        assert("/conversation."@[0] == '/');
        assert(path.skip(n) =~= other.push('/') + rest);
        cut_of_joined(other, '/', rest);
        let tail = path.skip(prefix.len() as int);
        assert(path =~= prefix + tail);
        assert(path.skip(n) =~= session_id.push('/') + tail);
        cut_of_joined(session_id, '/', tail);
    }
}

/// Deleting a session leaves the conversations of other sessions as they are.
pub proof fn deletion_leaves_other_sessions(
    before: StorageEngine,
    after: StorageEngine,
    session_id: Seq<char>,
    other: String,
)
    requires
        path_component(session_id),
        session_deleted(before, after, session_id),
        other@ != session_id,
        current_conversation(before, main_target(other)) is Ok,
    ensures
        current_conversation(after, main_target(other)) == current_conversation(
            before,
            main_target(other),
        ),
{
    let cut = choose|cut: StorageEngine| #[trigger]
        inputs_removed(before, cut, inputs_of(before.inputs@, session_id)) && session_forgotten(
            cut,
            after,
            session_id,
        );
    first_kept_row(cut.sessions@, session_elsewhere(session_id), is_session(other@));
    let generation = generation_of(before, main_target(other))->Ok_0;
    assert(generation_of(after, main_target(other)) == generation_of(before, main_target(other)));
    let path = path_of(before, main_target(other), generation)->Ok_0;
    other_body_lies_elsewhere(before.sessions_directory@, session_id, other@, generation);
    bodies_after_keeping(
        cut.files@,
        body_elsewhere(before.sessions_directory@, session_id),
        path,
    );
}

} // verus!
