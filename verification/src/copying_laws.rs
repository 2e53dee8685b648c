//! What a fork takes over from its source.

use vstd::prelude::*;

use std::sync::Arc;

use crate::conversation::RecordedMessage;
use crate::emptying_laws::nothing_is_used;
use crate::engine::{bodies, is_session, path_component, session_body_path, StorageEngine};
use crate::error::Refusal;
use crate::message::{calls_are_paired, held, key_of, ConversationMessage, FileReference, UserPart};
use crate::path_rewrite::{
    batch_rewritten, mapped, message_mapped, part_rewritten, record_rewritten, refers_to_files,
    PathRewrite,
};
use crate::relations::{
    found_leads, leader_is_found, leads, none_of, session_stands_where_found, stands_at,
};
use crate::rewriting_laws::{body_file, id_of_message};
use crate::rows::{
    SessionResources, SessionRow, SessionUsageRow, StoredAttachment, StoredGoal,
    StoredSkillActivation,
};
use crate::session_fork::{
    activation_fits, activations_fit, attachment_refusal, attachment_refusals, collides_with,
    continues_from, fork_attempted, fork_refusal, fork_rewrites, fork_stored, forked_attachments,
    has_attachment_id, has_user_message, is_attachment_of, is_goal_of, is_user_message,
    source_attachment, storing_refusal, ForkAttachment, ForkResources, NewStoredSession,
    SessionFork, StoredSessionFork,
};
use crate::session_resources::{is_resources_of, new_environment_refusal};
use crate::session_rewrite::records_message;
use crate::table::{first, first_refusal, some_row};
use crate::tool_exchange::messages_in;
use crate::usage::is_usage_of;

verus! {

/// The rewrite that counts for a path: the last that speaks of it.
pub open spec fn counts(rewrites: Seq<PathRewrite>, i: int, path: Seq<char>) -> bool {
    &&& 0 <= i < rewrites.len()
    &&& rewrites[i].from@ == path
    &&& forall|j: int| i < j < rewrites.len() ==> (#[trigger] rewrites[j]).from@ != path
}

/// A path is rewritten to what the last rewrite of it says, and has no place where none speaks of it.
pub proof fn paths_go_where_the_last_rewrite_says(rewrites: Seq<PathRewrite>, path: Seq<char>)
    ensures
        forall|i: int| #[trigger]
            counts(rewrites, i, path) ==> mapped(rewrites, path) == Some(rewrites[i].to),
        mapped(rewrites, path) is Some ==> exists|i: int| #[trigger] counts(rewrites, i, path),
        mapped(rewrites, path) is None <==> forall|i: int|
            0 <= i < rewrites.len() ==> (#[trigger] rewrites[i]).from@ != path,
    decreases rewrites.len(),
{
    if rewrites.len() > 0 {
        let shorter = rewrites.drop_last();
        let n = rewrites.len() - 1;
        paths_go_where_the_last_rewrite_says(shorter, path);
        assert(rewrites.last() == rewrites[n]);
        if rewrites.last().from@ == path {
            assert(counts(rewrites, n, path));
        } else {
            assert forall|i: int| #[trigger] counts(rewrites, i, path) implies mapped(
                rewrites,
                path,
            ) == Some(rewrites[i].to) by {
                assert(counts(shorter, i, path)) by {
                    assert forall|j: int| i < j < shorter.len() implies (
                    #[trigger] shorter[j]).from@ != path by {
                        assert(shorter[j] == rewrites[j]);
                    }
                }
            }
            if mapped(rewrites, path) is Some {
                let i = choose|i: int| #[trigger] counts(shorter, i, path);
                assert(counts(rewrites, i, path)) by {
                    assert forall|j: int| i < j < rewrites.len() implies (
                    #[trigger] rewrites[j]).from@ != path by {
                        if j < shorter.len() {
                            assert(shorter[j] == rewrites[j]);
                        }
                    }
                }
            } else {
                assert forall|i: int| 0 <= i < rewrites.len() implies (
                #[trigger] rewrites[i]).from@ != path by {
                    if i < shorter.len() {
                        assert(shorter[i] == rewrites[i]);
                    }
                }
            }
        }
        if forall|i: int| 0 <= i < rewrites.len() ==> (#[trigger] rewrites[i]).from@ != path {
            assert forall|i: int| 0 <= i < shorter.len() implies (#[trigger] shorter[i]).from@
                != path by {
                assert(shorter[i] == rewrites[i]);
            }
        }
    }
}

/// The row of an attachment of a session.
pub open spec fn attachment_at(
    rows: Seq<StoredAttachment>,
    i: int,
    session_id: Seq<char>,
    attachment_id: Seq<char>,
) -> bool {
    leads(
        rows,
        i,
        |row: StoredAttachment|
            row.session_id@ == session_id && row.attachment_id@ == attachment_id,
    )
}

proof fn attachment_is_found(
    rows: Seq<StoredAttachment>,
    session_id: Seq<char>,
    attachment_id: Seq<char>,
)
    ensures
        forall|i: int| #[trigger]
            attachment_at(rows, i, session_id, attachment_id) ==> first(
                rows,
                is_attachment_of(session_id, attachment_id),
            ) == Some(i),
        first(rows, is_attachment_of(session_id, attachment_id)) is Some ==> attachment_at(
            rows,
            first(rows, is_attachment_of(session_id, attachment_id))->0,
            session_id,
            attachment_id,
        ),
{
    let plain = |row: StoredAttachment|
        row.session_id@ == session_id && row.attachment_id@ == attachment_id;
    leader_is_found(rows, is_attachment_of(session_id, attachment_id), plain);
    assert forall|i: int| #[trigger]
        attachment_at(rows, i, session_id, attachment_id) implies first(
        rows,
        is_attachment_of(session_id, attachment_id),
    ) == Some(i) by {
        assert(leads(rows, i, plain));
    }
}

/// A session that begins: active, not pinned, under no control, with the first generation of its
/// conversation, and otherwise as it was asked for.
pub open spec fn begins_as(row: SessionRow, session: NewStoredSession, message_count: int) -> bool {
    &&& row.session_id == session.session_id
    &&& row.title == session.title
    &&& row.title_origin == session.title_origin
    &&& row.automatic_title_pending == session.automatic_title_pending
    &&& row.model_key == session.model_key
    &&& row.reasoning_effort == session.reasoning_effort
    &&& row.system_prompt == session.system_prompt
    &&& row.skill_catalog == session.skill_catalog
    &&& row.current_variant == session.current_variant
    &&& row.approval_mode == session.approval_mode
    &&& row.role == session.role
    &&& row.lifecycle is Active
    &&& row.body_generation == 1
    &&& row.message_count == message_count
    &&& row.created_at_ms == session.created_at_ms
    &&& row.updated_at_ms == session.created_at_ms
    &&& row.archived_at_ms is None
    &&& !row.is_pinned
    &&& row.materialization_key == session.materialization_key
    &&& row.proxy is None
    &&& row.pc_output_device_id is None
}

/// The copy of an attachment for another session: the same content under another identifier, at
/// another place.
pub open spec fn is_copy_for(
    copy: StoredAttachment,
    source: StoredAttachment,
    fork: SessionFork,
    reference: ForkAttachment,
) -> bool {
    &&& copy.attachment_id == reference.attachment_id
    &&& copy.session_id == fork.session.session_id
    &&& copy.agent_readable_path == reference.readable_path
    &&& copy.created_at_ms == fork.session.created_at_ms
    &&& copy.original_name == source.original_name
    &&& copy.blob_hash == source.blob_hash
    &&& copy.size_bytes == source.size_bytes
    &&& copy.media_type == source.media_type
    &&& copy.state == source.state
}

/// A fork is a new session behind the others, with as many messages as it was given, resources of
/// its own, nothing used, a copy of each attachment, and the goal, plan and skills that it was
/// given. What was stored before stays.
pub proof fn fork_is_a_session_of_its_own<E: Fn(&ConversationMessage) -> Vec<u8>>(
    before: StorageEngine,
    after: StorageEngine,
    fork: SessionFork,
    resources: ForkResources,
    encode: E,
    outcome: Result<StoredSessionFork, Refusal>,
)
    requires
        fork_attempted(before, after, fork, resources, encode, outcome),
        outcome is Ok,
    ensures
        outcome->Ok_0.conversation@.len() == fork.conversation@.len(),
        after.sessions@.len() == before.sessions@.len() + 1,
        after.sessions@.drop_last() == before.sessions@,
        begins_as(after.sessions@.last(), fork.session, fork.conversation@.len() as int),
        outcome->Ok_0.session == after.sessions@.last(),
        after.session_usage@.len() == before.session_usage@.len() + 1,
        after.session_usage@.drop_last() == before.session_usage@,
        nothing_is_used(after.session_usage@.last().usage),
        after.session_usage@.last().session_id == fork.session.session_id,
        after.session_usage@.last().backfilled,
        after.session_usage@.last().updated_at_ms == fork.session.created_at_ms,
        after.session_resources@.len() == before.session_resources@.len() + 1,
        after.session_resources@.drop_last() == before.session_resources@,
        ({
            let row = after.session_resources@.last();
            let environment = fork.session.environment;
            &&& row.session_id == fork.session.session_id
            &&& row.workspace_id == environment.workspace_id
            &&& row.working_directory == environment.working_directory
            &&& row.attachment_directory == environment.session_attachment_directory
            &&& row.private_directory == environment.session_private_directory
            &&& row.created_at_ms == fork.session.created_at_ms
        }),
        after.attachments@.len() == before.attachments@.len() + fork.attachments@.len(),
        forall|i: int|
            0 <= i < before.attachments@.len() ==> #[trigger] after.attachments@[i]
                == before.attachments@[i],
        forall|k: int, a: int|
            0 <= k < fork.attachments@.len() && #[trigger] attachment_at(
                before.attachments@,
                a,
                fork.source_session_id@,
                (#[trigger] fork.attachments@[k]).source_attachment_id@,
            ) ==> is_copy_for(
                after.attachments@[before.attachments@.len() + k],
                before.attachments@[a],
                fork,
                fork.attachments@[k],
            ),
        outcome->Ok_0.attachments@ == after.attachments@.skip(before.attachments@.len() as int),
        fork.goal is None ==> after.goals@ == before.goals@,
        fork.goal is Some ==> after.goals@ == before.goals@.push(fork.goal->0),
        outcome->Ok_0.goal == fork.goal,
        after.skill_activations@ == before.skill_activations@ + fork.skill_activations@,
        outcome->Ok_0.skill_activations@ == fork.skill_activations@,
        fork.work_plan is None ==> after.work_plans@ == before.work_plans@
            && outcome->Ok_0.work_plan is None,
        fork.work_plan is Some ==> {
            &&& after.work_plans@.len() == before.work_plans@.len() + 1
            &&& after.work_plans@.drop_last() == before.work_plans@
            &&& outcome->Ok_0.work_plan == Some(after.work_plans@.last())
            &&& held(after.work_plans@.last()).session_id == fork.session.session_id
            &&& held(after.work_plans@.last()).revision == 1
            &&& held(after.work_plans@.last()).objective == held(fork.work_plan->0).objective
            &&& held(after.work_plans@.last()).items@ == held(fork.work_plan->0).items@
            &&& held(after.work_plans@.last()).last_operation_id@ == "fork:"@
                + fork.source_session_id@
            &&& held(after.work_plans@.last()).updated_at_ms == fork.session.created_at_ms
        },
        bodies(after.files@).dom() == bodies(before.files@).dom().insert(
            body_file(before.sessions_directory@, fork.session.session_id@, 1),
        ),
{
    let batch = choose|batch: Seq<Arc<RecordedMessage>>| #[trigger]
        batch_rewritten(fork_rewrites(before, fork), fork.conversation@, batch, encode)
            && fork_stored(before, after, fork, batch, outcome);
    let n = before.attachments@.len() as int;
    assert(after.sessions@.drop_last() =~= before.sessions@);
    assert(after.session_usage@.drop_last() =~= before.session_usage@);
    assert(after.session_resources@.drop_last() =~= before.session_resources@);
    assert(after.attachments@.skip(n) =~= forked_attachments(before, fork));
    if fork.work_plan is Some {
        assert(after.work_plans@.drop_last() =~= before.work_plans@);
    }
    assert forall|k: int, a: int|
        0 <= k < fork.attachments@.len() && #[trigger] attachment_at(
            before.attachments@,
            a,
            fork.source_session_id@,
            (#[trigger] fork.attachments@[k]).source_attachment_id@,
        ) implies is_copy_for(
        after.attachments@[n + k],
        before.attachments@[a],
        fork,
        fork.attachments@[k],
    ) by {
        attachment_is_found(
            before.attachments@,
            fork.source_session_id@,
            fork.attachments@[k].source_attachment_id@,
        );
        assert(after.attachments@[n + k] == forked_attachments(before, fork)[k]);
    }
    assert(session_body_path(before.sessions_directory@, fork.session.session_id@, 1) =~= body_file(
        before.sessions_directory@,
        fork.session.session_id@,
        1,
    ));
    assert(bodies(after.files@).dom() =~= bodies(before.files@).dom().insert(
        body_file(before.sessions_directory@, fork.session.session_id@, 1),
    ));
}

/// The messages of a fork are those it was given, with the paths of files replaced by those of the
/// copies. Whatever refers to no file stays as it is.
pub proof fn forked_messages_name_the_copies<E: Fn(&ConversationMessage) -> Vec<u8>>(
    before: StorageEngine,
    after: StorageEngine,
    fork: SessionFork,
    resources: ForkResources,
    encode: E,
    outcome: Result<StoredSessionFork, Refusal>,
    m: int,
)
    requires
        fork_attempted(before, after, fork, resources, encode, outcome),
        outcome is Ok,
        0 <= m < fork.conversation@.len(),
    ensures
        outcome->Ok_0.conversation@.len() == fork.conversation@.len(),
        match held(held(fork.conversation@[m]).message) {
            ConversationMessage::User(user) => {
                let next = held(held(outcome->Ok_0.conversation@[m]).message);
                &&& next is User
                &&& next->User_0.id == user.id
                &&& next->User_0.origin == user.origin
                &&& next->User_0.transcript_visibility == user.transcript_visibility
                &&& next->User_0.parts@.len() == user.parts@.len()
                &&& forall|p: int|
                    0 <= p < user.parts@.len() ==> match #[trigger] user.parts@[p] {
                        UserPart::FileReferences(references) => {
                            &&& next->User_0.parts@[p] is FileReferences
                            &&& next->User_0.parts@[p]->FileReferences_0.id == references.id
                            &&& next->User_0.parts@[p]->FileReferences_0.files@.len()
                                == references.files@.len()
                            &&& forall|f: int|
                                0 <= f < references.files@.len() ==> names_a_copy(
                                    before,
                                    fork,
                                    #[trigger] references.files@[f],
                                    next->User_0.parts@[p]->FileReferences_0.files@[f],
                                )
                        },
                        _ => next->User_0.parts@[p] == user.parts@[p],
                    }
            },
            _ => outcome->Ok_0.conversation@[m] == fork.conversation@[m],
        },
{
    let rewrites = fork_rewrites(before, fork);
    let batch = choose|batch: Seq<Arc<RecordedMessage>>| #[trigger]
        batch_rewritten(rewrites, fork.conversation@, batch, encode) && fork_stored(
            before,
            after,
            fork,
            batch,
            outcome,
        );
    assert(record_rewritten(rewrites, fork.conversation@[m], batch[m], encode));
    assert(message_mapped(rewrites, *fork.conversation@[m].message));
    match held(held(fork.conversation@[m]).message) {
        ConversationMessage::User(user) => {
            if refers_to_files(held(held(fork.conversation@[m]).message)) {
                let next = held(held(batch[m]).message)->User_0;
                assert forall|p: int| 0 <= p < user.parts@.len() implies match #[trigger] user.parts@[p] {
                    UserPart::FileReferences(references) => {
                        &&& next.parts@[p] is FileReferences
                        &&& next.parts@[p]->FileReferences_0.id == references.id
                        &&& next.parts@[p]->FileReferences_0.files@.len()
                            == references.files@.len()
                        &&& forall|f: int|
                            0 <= f < references.files@.len() ==> names_a_copy(
                                before,
                                fork,
                                #[trigger] references.files@[f],
                                next.parts@[p]->FileReferences_0.files@[f],
                            )
                    },
                    _ => next.parts@[p] == user.parts@[p],
                } by {
                    assert(part_rewritten(rewrites, user.parts@[p], next.parts@[p]));
                    match user.parts@[p] {
                        UserPart::FileReferences(references) => {
                            assert forall|f: int|
                                0 <= f < references.files@.len() implies names_a_copy(
                                before,
                                fork,
                                #[trigger] references.files@[f],
                                next.parts@[p]->FileReferences_0.files@[f],
                            ) by {
                                let path = references.files@[f].readable_path@;
                                assert(mapped(rewrites, path) is Some);
                                assert(next.parts@[p]->FileReferences_0.files@[f].readable_path
                                    == mapped(rewrites, path)->0);
                                paths_go_where_the_last_rewrite_says(rewrites, path);
                                let k = choose|k: int| #[trigger] counts(rewrites, k, path);
                                assert(rewrites[k].from == source_attachment(
                                    before,
                                    fork.source_session_id@,
                                    fork.attachments@[k],
                                ).agent_readable_path);
                                attachment_is_found(
                                    before.attachments@,
                                    fork.source_session_id@,
                                    fork.attachments@[k].source_attachment_id@,
                                );
                                first_refusal_is_none(
                                    before,
                                    fork,
                                    k,
                                );
                                let a = first(
                                    before.attachments@,
                                    is_attachment_of(
                                        fork.source_session_id@,
                                        fork.attachments@[k].source_attachment_id@,
                                    ),
                                )->0;
                                assert(copies_from(before, fork, k, a));
                            }
                        },
                        _ => {},
                    }
                }
            } else {
                assert forall|p: int| 0 <= p < user.parts@.len() implies !(
                #[trigger] user.parts@[p] is FileReferences) by {}
            }
        },
        _ => {},
    }
}

proof fn first_refusal_is_none(engine: StorageEngine, fork: SessionFork, k: int)
    requires
        first_refusal(
            fork.attachments@,
            attachment_refusals(engine, fork.source_session_id@),
        ) is None,
        0 <= k < fork.attachments@.len(),
    ensures
        attachment_refusal(engine, fork.source_session_id@, fork.attachments@[k]) is None,
{
    nothing_is_refused(fork.attachments@, attachment_refusals(engine, fork.source_session_id@));
    assert(attachment_refusals(engine, fork.source_session_id@)(fork.attachments@[k]) is None);
}

proof fn nothing_is_refused<R>(rows: Seq<R>, refusals: spec_fn(R) -> Option<Refusal>)
    ensures
        first_refusal(rows, refusals) is None <==> forall|k: int|
            0 <= k < rows.len() ==> refusals(#[trigger] rows[k]) is None,
    decreases rows.len(),
{
    if rows.len() > 0 {
        let shorter = rows.drop_last();
        nothing_is_refused(shorter, refusals);
        assert(rows.last() == rows[rows.len() - 1]);
        if first_refusal(rows, refusals) is None {
            assert forall|k: int| 0 <= k < rows.len() implies refusals(
                #[trigger] rows[k],
            ) is None by {
                if k < shorter.len() {
                    assert(shorter[k] == rows[k]);
                }
            }
        }
        if forall|k: int| 0 <= k < rows.len() ==> refusals(#[trigger] rows[k]) is None {
            assert forall|k: int| 0 <= k < shorter.len() implies refusals(
                #[trigger] shorter[k],
            ) is None by {
                assert(shorter[k] == rows[k]);
            }
        }
    }
}

/// The attachment that a fork copies at a place of its list.
pub open spec fn copies_from(engine: StorageEngine, fork: SessionFork, k: int, a: int) -> bool {
    &&& 0 <= k < fork.attachments@.len()
    &&& attachment_at(
        engine.attachments@,
        a,
        fork.source_session_id@,
        fork.attachments@[k].source_attachment_id@,
    )
}

/// A file that was at the place of an attachment is looked for at the place of its copy, under its
/// name.
pub open spec fn names_a_copy(
    engine: StorageEngine,
    fork: SessionFork,
    file: FileReference,
    next: FileReference,
) -> bool {
    &&& next.original_name == file.original_name
    &&& exists|k: int, a: int|
        {
            &&& #[trigger] copies_from(engine, fork, k, a)
            &&& engine.attachments@[a].agent_readable_path@ == file.readable_path@
            &&& next.readable_path == fork.attachments@[k].readable_path
        }
}

/// A session can be forked exactly where both names can be names of directories, the messages hold
/// each call with its result, the source is there at the generation expected, both are standard
/// sessions, the plan is the source's, goal and skills fit, the new environment is in order, and the
/// attachments are the source's.
pub proof fn forks_are_granted_where_they_fit(
    engine: StorageEngine,
    fork: SessionFork,
    resources: ForkResources,
)
    ensures
        fork_refusal(engine, fork, resources) is None <==> {
            &&& path_component(fork.source_session_id@)
            &&& path_component(fork.session.session_id@)
            &&& calls_are_paired(messages_in(fork.conversation@))
            &&& exists|s: int| #[trigger]
                stands_at(engine.sessions@, s, fork.source_session_id@)
                    && engine.sessions@[s].body_generation == fork.source_generation
                    && engine.sessions@[s].role is Standard
            &&& fork.session.role is Standard
            &&& fork.work_plan is Some ==> held(fork.work_plan->0).session_id@
                == fork.source_session_id@
            &&& fork.goal is Some ==> exists|g: int|
                {
                    &&& #[trigger] goal_stands_at(engine.goals@, g, fork.source_session_id@)
                    &&& goes_on_from(fork, engine.goals@[g], fork.goal->0)
                }
            &&& forall|k: int|
                0 <= k < fork.skill_activations@.len() ==> is_skill_of_fork(
                    fork,
                    #[trigger] fork.skill_activations@[k],
                )
            &&& forall|k: int, l: int|
                0 <= k < l < fork.skill_activations@.len() ==> (
                #[trigger] fork.skill_activations@[k]).activation_id@ != (
                #[trigger] fork.skill_activations@[l]).activation_id@
            &&& new_environment_refusal(
                engine,
                fork.session.session_id@,
                fork.session.environment,
                resources.workspace_available,
            ) is None
            &&& forall|k: int|
                0 <= k < fork.attachments@.len() ==> path_component(
                    (#[trigger] fork.attachments@[k]).attachment_id@,
                ) && exists|a: int| #[trigger] copies_from(engine, fork, k, a)
            &&& resources.tool_images_copied
        },
{
    session_stands_where_found(engine.sessions@, fork.source_session_id@);
    if first(engine.sessions@, is_session(fork.source_session_id@)) is Some {
        assert(stands_at(
            engine.sessions@,
            first(engine.sessions@, is_session(fork.source_session_id@))->0,
            fork.source_session_id@,
        ));
    }
    let theirs = |row: StoredGoal| row.session_id@ == fork.source_session_id@;
    leader_is_found(engine.goals@, is_goal_of(fork.source_session_id@), theirs);
    if first(engine.goals@, is_goal_of(fork.source_session_id@)) is Some {
        assert(goal_stands_at(
            engine.goals@,
            first(engine.goals@, is_goal_of(fork.source_session_id@))->0,
            fork.source_session_id@,
        ));
    }
    assert forall|g: int| #[trigger]
        goal_stands_at(engine.goals@, g, fork.source_session_id@) implies first(
        engine.goals@,
        is_goal_of(fork.source_session_id@),
    ) == Some(g) by {
        assert(leads(engine.goals@, g, theirs));
    }
    if fork.goal is Some && first(engine.goals@, is_goal_of(fork.source_session_id@)) is Some {
        let g = first(engine.goals@, is_goal_of(fork.source_session_id@))->0;
        brought_by_user(fork.conversation@, fork.goal->0.objective.source_message_id@);
        assert(continues_from(fork, engine.goals@[g], fork.goal->0) == goes_on_from(
            fork,
            engine.goals@[g],
            fork.goal->0,
        ));
    }
    assert forall|k: int| 0 <= k < fork.skill_activations@.len() implies activation_fits(
        fork,
        #[trigger] fork.skill_activations@[k],
    ) == is_skill_of_fork(fork, fork.skill_activations@[k]) by {
        let id = fork.skill_activations@[k].message_id@;
        if records_message(fork.conversation@, id) {
            let i = choose|i: int|
                0 <= i < fork.conversation@.len() && key_of(
                    *(#[trigger] fork.conversation@[i]).message,
                )@ == id;
            assert(id_of_message(held(held(fork.conversation@[i]).message)) == id);
        }
        if is_skill_of_fork(fork, fork.skill_activations@[k]) {
            let i = choose|i: int|
                0 <= i < fork.conversation@.len() && id_of_message(
                    held(held(#[trigger] fork.conversation@[i]).message),
                ) == id;
            assert(key_of(*fork.conversation@[i].message)@ == id);
        }
    }
    if forall|k: int|
        0 <= k < fork.skill_activations@.len() ==> is_skill_of_fork(
            fork,
            #[trigger] fork.skill_activations@[k],
        ) {
        assert forall|k: int| 0 <= k < fork.skill_activations@.len() implies activation_fits(
            fork,
            #[trigger] fork.skill_activations@[k],
        ) by {
            assert(is_skill_of_fork(fork, fork.skill_activations@[k]));
        }
    }
    if activations_fit(fork) {
        assert forall|k: int| 0 <= k < fork.skill_activations@.len() implies is_skill_of_fork(
            fork,
            #[trigger] fork.skill_activations@[k],
        ) by {
            assert(activation_fits(fork, fork.skill_activations@[k]));
        }
    }
    let refusals = attachment_refusals(engine, fork.source_session_id@);
    nothing_is_refused(fork.attachments@, refusals);
    assert forall|k: int| 0 <= k < fork.attachments@.len() implies refusals(
        #[trigger] fork.attachments@[k],
    ) is None == (path_component(fork.attachments@[k].attachment_id@) && exists|a: int| #[trigger]
        copies_from(engine, fork, k, a)) by {
        let reference = fork.attachments@[k];
        attachment_is_found(
            engine.attachments@,
            fork.source_session_id@,
            reference.source_attachment_id@,
        );
        let found = first(
            engine.attachments@,
            is_attachment_of(fork.source_session_id@, reference.source_attachment_id@),
        );
        if found is Some {
            assert(copies_from(engine, fork, k, found->0));
        }
        assert(refusals(reference) == attachment_refusal(
            engine,
            fork.source_session_id@,
            reference,
        ));
    }
}

/// The row of a session's goal.
pub open spec fn goal_stands_at(goals: Seq<StoredGoal>, g: int, session_id: Seq<char>) -> bool {
    leads(goals, g, |row: StoredGoal| row.session_id@ == session_id)
}

/// A message of a user is among messages.
pub open spec fn is_brought_by_user(
    messages: Seq<Arc<RecordedMessage>>,
    message_id: Seq<char>,
) -> bool {
    exists|i: int|
        0 <= i < messages.len() && {
            let message = held(held(#[trigger] messages[i]).message);
            message is User && message->User_0.id@ == message_id
        }
}

proof fn brought_by_user(messages: Seq<Arc<RecordedMessage>>, message_id: Seq<char>)
    ensures
        has_user_message(messages, message_id) == is_brought_by_user(messages, message_id),
{
    if has_user_message(messages, message_id) {
        let i = choose|i: int|
            0 <= i < messages.len() && is_user_message(
                *(#[trigger] messages[i]).message,
                message_id,
            );
        assert(held(held(messages[i]).message) is User);
    }
    if is_brought_by_user(messages, message_id) {
        let i = choose|i: int|
            0 <= i < messages.len() && {
                let message = held(held(#[trigger] messages[i]).message);
                message is User && message->User_0.id@ == message_id
            };
        assert(is_user_message(*messages[i].message, message_id));
    }
}

/// The goal of a fork goes on from the source's: another goal, of the new session, with the same
/// objective, turn, budget and failures, whose message the fork holds.
pub open spec fn goes_on_from(fork: SessionFork, source: StoredGoal, goal: StoredGoal) -> bool {
    &&& goal.session_id@ == fork.session.session_id@
    &&& goal.goal_id@ != source.goal_id@
    &&& goal.objective.source_message_id@ == source.objective.source_message_id@
    &&& goal.objective.payload@ == source.objective.payload@
    &&& goal.objective.payload_hash@ == source.objective.payload_hash@
    &&& goal.turn == source.turn
    &&& goal.budget == source.budget
    &&& goal.consecutive_failures == source.consecutive_failures
    &&& is_brought_by_user(fork.conversation@, goal.objective.source_message_id@)
}

/// A skill that a fork takes over: of the new session itself, of no run and no input, at a message
/// that the fork holds, of the catalog that the new session has.
pub open spec fn is_skill_of_fork(fork: SessionFork, activation: StoredSkillActivation) -> bool {
    &&& activation.session_id@ == fork.session.session_id@
    &&& activation.owner is Session
    &&& activation.owner->Session_0@ == fork.session.session_id@
    &&& activation.run_id is None
    &&& activation.input_id is None
    &&& exists|i: int|
        0 <= i < fork.conversation@.len() && id_of_message(
            held(held(#[trigger] fork.conversation@[i]).message),
        ) == activation.message_id@
    &&& activation.catalog_revision@ == fork.session.skill_catalog.revision@
}

/// The identifiers of a fork are taken nowhere.
pub proof fn forks_take_free_identifiers(
    engine: StorageEngine,
    fork: SessionFork,
    batch: Seq<Arc<RecordedMessage>>,
)
    requires
        storing_refusal(engine, fork, batch) is None,
    ensures
        none_of(
            engine.sessions@,
            |row: SessionRow| row.session_id@ == fork.session.session_id@,
        ),
        none_of(
            engine.session_usage@,
            |row: SessionUsageRow| row.session_id@ == fork.session.session_id@,
        ),
        none_of(
            engine.session_resources@,
            |row: SessionResources| row.session_id@ == fork.session.session_id@,
        ),
        fork.goal is Some ==> none_of(
            engine.goals@,
            |row: StoredGoal|
                row.goal_id@ == fork.goal->0.goal_id@ || row.session_id@
                    == fork.goal->0.session_id@,
        ),
        forall|k: int, i: int|
            0 <= k < fork.attachments@.len() && 0 <= i < engine.attachments@.len() ==> (
            #[trigger] fork.attachments@[k]).attachment_id@ != (
            #[trigger] engine.attachments@[i]).attachment_id@,
        forall|k: int, l: int|
            0 <= k < l < fork.attachments@.len() ==> (
            #[trigger] fork.attachments@[k]).attachment_id@ != (
            #[trigger] fork.attachments@[l]).attachment_id@,
{
    let id = fork.session.session_id@;
    found_leads(
        engine.sessions@,
        is_session(id),
        |row: SessionRow| row.session_id@ == fork.session.session_id@,
    );
    found_leads(
        engine.session_usage@,
        is_usage_of(id),
        |row: SessionUsageRow| row.session_id@ == fork.session.session_id@,
    );
    found_leads(
        engine.session_resources@,
        is_resources_of(id),
        |row: SessionResources| row.session_id@ == fork.session.session_id@,
    );
    if fork.goal is Some {
        found_leads(
            engine.goals@,
            collides_with(fork.goal->0),
            |row: StoredGoal|
                row.goal_id@ == fork.goal->0.goal_id@ || row.session_id@
                    == fork.goal->0.session_id@,
        );
    }
    let added = forked_attachments(engine, fork);
    assert forall|k: int, i: int|
        0 <= k < fork.attachments@.len() && 0 <= i < engine.attachments@.len() implies (
    #[trigger] fork.attachments@[k]).attachment_id@ != (
    #[trigger] engine.attachments@[i]).attachment_id@ by {
        assert(added[k].attachment_id == fork.attachments@[k].attachment_id);
        assert(!some_row(engine.attachments@, has_attachment_id(added[k].attachment_id@)));
        assert(!has_attachment_id(added[k].attachment_id@)(engine.attachments@[i]));
    }
    assert forall|k: int, l: int| 0 <= k < l < fork.attachments@.len() implies (
    #[trigger] fork.attachments@[k]).attachment_id@ != (
    #[trigger] fork.attachments@[l]).attachment_id@ by {
        assert(added[k].attachment_id == fork.attachments@[k].attachment_id);
        assert(added[l].attachment_id == fork.attachments@[l].attachment_id);
        assert(added[k].attachment_id@ != added[l].attachment_id@);
    }
}

} // verus!
