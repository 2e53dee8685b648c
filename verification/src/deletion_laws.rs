//! When a session may be deleted, and what its user is told of that.

use vstd::prelude::*;

use crate::engine::{is_session, path_component, StorageEngine};
use crate::error::Refusal;
use crate::management_laws::{does_not_work, no_task_works, sessions_work_while_something_waits};
use crate::relations::{filtered_rows, kept_is_filtered, session_stands_where_found, stands_at};
use crate::rows::{ChildTaskRow, RunRow, StoredAttachment};
use crate::session_transfer::{
    deletion_attempted, impact_of, impact_refusal, is_attachment_in, is_run_in, is_task_in,
    staged_outcome, staged_target, DeleteSessionImpact, SessionDeletion,
};
use crate::table::first;
use crate::text::{before_first, place_of};

verus! {

/// The condition of being a run of a session.
pub open spec fn is_its_run(session_id: Seq<char>) -> spec_fn(RunRow) -> bool {
    |run: RunRow| run.session_id@ == session_id
}

/// The condition of being a task of a session.
pub open spec fn is_its_task(session_id: Seq<char>) -> spec_fn(ChildTaskRow) -> bool {
    |task: ChildTaskRow| task.session_id@ == session_id
}

/// The condition of being an attachment of a session.
pub open spec fn is_its_attachment(session_id: Seq<char>) -> spec_fn(StoredAttachment) -> bool {
    |row: StoredAttachment| row.session_id@ == session_id
}

/// The runs of a session.
pub open spec fn runs_of(engine: StorageEngine, session_id: Seq<char>) -> Seq<RunRow> {
    engine.runs@.filter(is_its_run(session_id))
}

/// The tasks of a session.
pub open spec fn tasks_in(engine: StorageEngine, session_id: Seq<char>) -> Seq<ChildTaskRow> {
    engine.child_tasks@.filter(is_its_task(session_id))
}

/// The attachments of a session.
pub open spec fn attachments_of(engine: StorageEngine, session_id: Seq<char>) -> Seq<
    StoredAttachment,
> {
    engine.attachments@.filter(is_its_attachment(session_id))
}

/// What a deletion would take with it: the messages of the session, and its runs, tasks and
/// attachments, by number.
pub open spec fn takes_with_it(
    engine: StorageEngine,
    session_id: Seq<char>,
    impact: DeleteSessionImpact,
) -> bool {
    &&& exists|s: int| #[trigger]
        stands_at(engine.sessions@, s, session_id) && impact.message_count
            == engine.sessions@[s].message_count
    &&& impact.run_count == runs_of(engine, session_id).len()
    &&& impact.child_task_count == tasks_in(engine, session_id).len()
    &&& impact.attachment_count == attachments_of(engine, session_id).len()
}

/// What a deletion would take with it is told where the session is there under a name that a
/// directory can have, and it is what is there.
pub proof fn impacts_are_told_as_they_are(engine: StorageEngine, session_id: Seq<char>)
    requires
        engine.runs@.len() <= u64::MAX,
        engine.child_tasks@.len() <= u64::MAX,
        engine.attachments@.len() <= u64::MAX,
    ensures
        impact_refusal(engine, session_id) is None <==> path_component(session_id) && exists|s: int|
            #[trigger] stands_at(engine.sessions@, s, session_id),
        impact_refusal(engine, session_id) is None ==> takes_with_it(
            engine,
            session_id,
            impact_of(engine, session_id),
        ),
{
    session_stands_where_found(engine.sessions@, session_id);
    if first(engine.sessions@, is_session(session_id)) is Some {
        assert(stands_at(
            engine.sessions@,
            first(engine.sessions@, is_session(session_id))->0,
            session_id,
        ));
    }
    let runs = is_its_run(session_id);
    let tasks = is_its_task(session_id);
    let attachments = is_its_attachment(session_id);
    kept_is_filtered(engine.runs@, is_run_in(session_id), runs);
    kept_is_filtered(engine.child_tasks@, is_task_in(session_id), tasks);
    kept_is_filtered(engine.attachments@, is_attachment_in(session_id), attachments);
    filtered_rows(engine.runs@, runs);
    filtered_rows(engine.child_tasks@, tasks);
    filtered_rows(engine.attachments@, attachments);
    let impact = impact_of(engine, session_id);
    assert(impact.run_count == runs_of(engine, session_id).len());
    assert(impact.child_task_count == tasks_in(engine, session_id).len());
    assert(impact.attachment_count == attachments_of(engine, session_id).len());
}

/// A standard session is deleted exactly where it is there under a name that a directory can have,
/// neither it nor a task of it works, the user was told what the deletion takes with it, and its
/// directory can be put aside.
pub proof fn idle_sessions_are_deleted_as_told(
    before: StorageEngine,
    after: StorageEngine,
    deletion: SessionDeletion,
    staging_taken: bool,
    outcome: Result<String, Refusal>,
)
    requires
        deletion_attempted(before, after, deletion, staging_taken, outcome),
        before.runs@.len() <= u64::MAX,
        before.child_tasks@.len() <= u64::MAX,
        before.attachments@.len() <= u64::MAX,
    ensures
        outcome is Err ==> after == before,
        outcome is Ok ==> outcome->Ok_0@ == deletion.session_id@ + "."@ + deletion.operation_id@,
        outcome is Ok <==> {
            &&& path_component(deletion.session_id@)
            &&& exists|s: int| #[trigger]
                stands_at(before.sessions@, s, deletion.session_id@)
                    && before.sessions@[s].role is Standard
            &&& does_not_work(before, deletion.session_id@)
            &&& no_task_works(before, deletion.session_id@)
            &&& takes_with_it(before, deletion.session_id@, deletion.expected_impact)
            &&& !staging_taken
        },
{
    let id = deletion.session_id@;
    session_stands_where_found(before.sessions@, id);
    sessions_work_while_something_waits(before, id);
    impacts_are_told_as_they_are(before, id);
    if first(before.sessions@, is_session(id)) is Some {
        assert(stands_at(before.sessions@, first(before.sessions@, is_session(id))->0, id));
    }
    if impact_refusal(before, id) is None && takes_with_it(before, id, deletion.expected_impact) {
        assert(impact_of(before, id) == deletion.expected_impact);
    }
}

/// What stands before the first dot of a name.
pub open spec fn stands_before_dot(name: Seq<char>, session_id: Seq<char>) -> bool {
    &&& session_id.len() < name.len()
    &&& name.take(session_id.len() as int) == session_id
    &&& name[session_id.len() as int] == '.'
    &&& forall|i: int| 0 <= i < session_id.len() ==> #[trigger] name[i] != '.'
}

proof fn names_are_cut_at_the_first_dot(name: Seq<char>)
    ensures
        before_first(name, '.') is Some ==> stands_before_dot(name, before_first(name, '.')->0),
        before_first(name, '.') is None ==> forall|i: int|
            0 <= i < name.len() ==> #[trigger] name[i] != '.',
{
    place_is_the_first(name, '.', 0);
}

proof fn place_is_the_first(text: Seq<char>, c: char, from: int)
    requires
        0 <= from <= text.len(),
    ensures
        from <= place_of(text, c, from) <= text.len(),
        place_of(text, c, from) < text.len() ==> text[place_of(text, c, from)] == c,
        forall|i: int| from <= i < place_of(text, c, from) ==> #[trigger] text[i] != c,
    decreases text.len() - from,
{
    if from < text.len() && text[from] != c {
        place_is_the_first(text, c, from + 1);
    }
}

/// A directory that was put aside belongs to the session whose name stands before the first dot. It
/// is put back where the session is still there, unless that has a directory, and goes where the
/// session is gone.
pub proof fn directories_put_aside_follow_their_session(
    engine: StorageEngine,
    name: Seq<char>,
    session_id: Seq<char>,
    target_exists: bool,
)
    requires
        stands_before_dot(name, session_id),
    ensures
        ({
            let there = exists|s: int| #[trigger] stands_at(engine.sessions@, s, session_id);
            let outcome = staged_outcome(engine, Some(name), target_exists);
            &&& outcome is Err <==> !path_component(session_id) || (there && target_exists)
            &&& outcome is Ok ==> (outcome->Ok_0 is Some) == there
            &&& outcome is Ok && there ==> outcome->Ok_0->0 == session_id
        }),
        staged_target(engine, Some(name)) is Some <==> path_component(session_id),
        path_component(session_id) ==> staged_target(engine, Some(name))->0
            == engine.sessions_directory@ + "/"@ + session_id,
{
    names_are_cut_at_the_first_dot(name);
    session_stands_where_found(engine.sessions@, session_id);
    if first(engine.sessions@, is_session(session_id)) is Some {
        assert(stands_at(
            engine.sessions@,
            first(engine.sessions@, is_session(session_id))->0,
            session_id,
        ));
    }
    assert(name[session_id.len() as int] == '.');
    assert(before_first(name, '.') is Some);
    let found = before_first(name, '.')->0;
    if found.len() < session_id.len() {
        assert(name[found.len() as int] == '.');
    }
    if session_id.len() < found.len() {
        assert(name[session_id.len() as int] != '.');
    }
    assert(found =~= session_id);
}

/// A name without a dot is no name of a directory that was put aside.
pub proof fn names_without_a_dot_are_refused(
    engine: StorageEngine,
    name: Seq<char>,
    target_exists: bool,
)
    requires
        forall|i: int| 0 <= i < name.len() ==> #[trigger] name[i] != '.',
    ensures
        staged_outcome(engine, Some(name), target_exists) is Err,
        staged_target(engine, Some(name)) is None,
        staged_outcome(engine, None, target_exists) is Err,
        staged_target(engine, None) is None,
{
    names_are_cut_at_the_first_dot(name);
}

} // verus!
