//! Where a session works and what it may use there.

use vstd::prelude::*;

use crate::engine::{path_component, StorageEngine};
use crate::recall::{heads_after_start, heads_after_switch, is_head_of};
use crate::relations::{found_leads, leader_is_found, leads, none_of};
use crate::rows::{ConversationOwner, RecallHeadRow, SessionResources, Workspace};
use crate::session_resources::{
    added_for_session, attachment_path, concerns, environment_refusal, is_relocated,
    is_resources_of, is_unbound, is_workspace, new_environment_refusal, private_path,
    resources_repaired, tool_image_path, works_in, SessionExecutionEnvironment,
};
use crate::summary_laws::are_resources_at;
use crate::table::{first, some_row};

verus! {

/// The row of a workspace.
pub open spec fn workspace_at(rows: Seq<Workspace>, w: int, workspace_id: Seq<char>) -> bool {
    leads(rows, w, |row: Workspace| row.workspace_id@ == workspace_id)
}

proof fn workspace_is_found(rows: Seq<Workspace>, workspace_id: Seq<char>)
    ensures
        forall|w: int| #[trigger]
            workspace_at(rows, w, workspace_id) ==> first(rows, is_workspace(workspace_id))
                == Some(w),
        first(rows, is_workspace(workspace_id)) is Some ==> workspace_at(
            rows,
            first(rows, is_workspace(workspace_id))->0,
            workspace_id,
        ),
{
    let plain = |row: Workspace| row.workspace_id@ == workspace_id;
    leader_is_found(rows, is_workspace(workspace_id), plain);
    assert forall|w: int| #[trigger] workspace_at(rows, w, workspace_id) implies first(
        rows,
        is_workspace(workspace_id),
    ) == Some(w) by {
        assert(leads(rows, w, plain));
    }
}

proof fn resources_are_found(rows: Seq<SessionResources>, session_id: Seq<char>)
    ensures
        forall|r: int| #[trigger]
            are_resources_at(rows, r, session_id) ==> first(rows, is_resources_of(session_id))
                == Some(r),
        first(rows, is_resources_of(session_id)) is Some ==> are_resources_at(
            rows,
            first(rows, is_resources_of(session_id))->0,
            session_id,
        ),
{
    let plain = |row: SessionResources| row.session_id@ == session_id;
    leader_is_found(rows, is_resources_of(session_id), plain);
    assert forall|r: int| #[trigger] are_resources_at(rows, r, session_id) implies first(
        rows,
        is_resources_of(session_id),
    ) == Some(r) by {
        assert(leads(rows, r, plain));
    }
}

/// A directory of a session.
pub open spec fn directory_of(engine: StorageEngine, session_id: Seq<char>, name: Seq<char>) -> Seq<
    char,
> {
    engine.sessions_directory@ + "/"@ + session_id + "/"@ + name
}

/// A path from the root.
pub open spec fn is_rooted(path: Seq<char>) -> bool {
    path.len() >= 1 && path[0] == '/'
}

proof fn directories_lie_under_the_session(directory: Seq<char>, session_id: Seq<char>)
    ensures
        attachment_path(directory, session_id) == directory + "/"@ + session_id + "/"@
            + "attachments"@,
        private_path(directory, session_id) == directory + "/"@ + session_id + "/"@ + "private"@,
        tool_image_path(directory, session_id) == directory + "/"@ + session_id + "/"@
            + "tool-images"@,
{
    reveal_strlit("/");
    reveal_strlit("attachments");
    reveal_strlit("private");
    reveal_strlit("tool-images");
    reveal_strlit("/attachments");
    reveal_strlit("/private");
    reveal_strlit("/tool-images");
    assert("/attachments"@ =~= "/"@ + "attachments"@);
    assert("/private"@ =~= "/"@ + "private"@);
    assert("/tool-images"@ =~= "/"@ + "tool-images"@);
    assert(attachment_path(directory, session_id) =~= directory + "/"@ + session_id + "/"@
        + "attachments"@);
    assert(private_path(directory, session_id) =~= directory + "/"@ + session_id + "/"@
        + "private"@);
    assert(tool_image_path(directory, session_id) =~= directory + "/"@ + session_id + "/"@
        + "tool-images"@);
}

/// A new session is given an environment exactly where its own directories are those under its name,
/// and it works either in an active workspace that is there, in that workspace's directories, or, in
/// no workspace, in its own private directory.
pub proof fn new_sessions_work_where_they_may(
    engine: StorageEngine,
    session_id: Seq<char>,
    environment: SessionExecutionEnvironment,
    workspace_available: bool,
)
    ensures
        new_environment_refusal(engine, session_id, environment, workspace_available) is None <==> {
            &&& path_component(session_id)
            &&& environment.session_attachment_directory@ == directory_of(
                engine,
                session_id,
                "attachments"@,
            )
            &&& environment.session_private_directory@ == directory_of(
                engine,
                session_id,
                "private"@,
            )
            &&& is_rooted(environment.working_directory@)
            &&& match environment.workspace_private_directory {
                Some(directory) => is_rooted(directory@),
                None => true,
            }
            &&& match environment.workspace_id {
                Some(workspace_id) => workspace_available && exists|w: int|
                    {
                        &&& #[trigger] workspace_at(engine.workspaces@, w, workspace_id@)
                        &&& engine.workspaces@[w].lifecycle is Active
                        &&& environment.working_directory@ == engine.workspaces@[w].user_directory@
                        &&& environment.workspace_private_directory is Some
                        &&& environment.workspace_private_directory->0@
                            == engine.workspaces@[w].agent_directory@
                    },
                None => environment.workspace_private_directory is None
                    && environment.working_directory@ == environment.session_private_directory@,
            }
        },
{
    directories_lie_under_the_session(engine.sessions_directory@, session_id);
    match environment.workspace_id {
        Some(workspace_id) => {
            workspace_is_found(engine.workspaces@, workspace_id@);
            if first(engine.workspaces@, is_workspace(workspace_id@)) is Some {
                assert(workspace_at(
                    engine.workspaces@,
                    first(engine.workspaces@, is_workspace(workspace_id@))->0,
                    workspace_id@,
                ));
            }
        },
        None => {},
    }
}

/// A stored session can work exactly where its resources are there, its directories are those under
/// its name, and it is bound to a workspace that is there and works in its directory, or to none and
/// works in its own.
pub proof fn stored_sessions_work_where_they_did(engine: StorageEngine, session_id: Seq<char>)
    ensures
        environment_refusal(engine, session_id) is None <==> exists|r: int|
            {
                &&& #[trigger] are_resources_at(engine.session_resources@, r, session_id)
                &&& path_component(session_id)
                &&& are_in_order(engine, engine.session_resources@[r], session_id)
            },
{
    directories_lie_under_the_session(engine.sessions_directory@, session_id);
    resources_are_found(engine.session_resources@, session_id);
    match first(engine.session_resources@, is_resources_of(session_id)) {
        Some(r) => {
            assert(are_resources_at(engine.session_resources@, r, session_id));
            let row = engine.session_resources@[r];
            match row.workspace_id {
                Some(workspace_id) => {
                    workspace_is_found(engine.workspaces@, workspace_id@);
                    if first(engine.workspaces@, is_workspace(workspace_id@)) is Some {
                        assert(workspace_at(
                            engine.workspaces@,
                            first(engine.workspaces@, is_workspace(workspace_id@))->0,
                            workspace_id@,
                        ));
                    }
                },
                None => {},
            }
        },
        None => {},
    }
}

/// The resources of a session are in order.
pub open spec fn are_in_order(
    engine: StorageEngine,
    row: SessionResources,
    session_id: Seq<char>,
) -> bool {
    &&& row.attachment_directory@ == directory_of(engine, session_id, "attachments"@)
    &&& row.private_directory@ == directory_of(engine, session_id, "private"@)
    &&& is_rooted(row.working_directory@)
    &&& match row.workspace_id {
        Some(workspace_id) => exists|w: int|
            {
                &&& #[trigger] workspace_at(engine.workspaces@, w, workspace_id@)
                &&& row.working_directory@ == engine.workspaces@[w].user_directory@
                &&& is_rooted(engine.workspaces@[w].agent_directory@)
            },
        None => row.working_directory@ == row.private_directory@,
    }
}

/// The environment that a session works in is what its resources say, with the directory of the
/// workspace that it is bound to.
pub proof fn environments_are_what_resources_say(
    engine: StorageEngine,
    session_id: Seq<char>,
    environment: SessionExecutionEnvironment,
    r: int,
)
    requires
        works_in(engine, session_id, environment),
        are_resources_at(engine.session_resources@, r, session_id),
    ensures
        environment.workspace_id == engine.session_resources@[r].workspace_id,
        environment.working_directory == engine.session_resources@[r].working_directory,
        environment.session_attachment_directory
            == engine.session_resources@[r].attachment_directory,
        environment.session_private_directory == engine.session_resources@[r].private_directory,
        environment.session_tool_image_directory@ == directory_of(
            engine,
            session_id,
            "tool-images"@,
        ),
        environment.workspace_id is None ==> environment.workspace_private_directory is None,
        environment.workspace_id is Some ==> forall|w: int| #[trigger]
            workspace_at(engine.workspaces@, w, environment.workspace_id->0@)
                ==> environment.workspace_private_directory == Some(
                engine.workspaces@[w].agent_directory,
            ),
{
    resources_are_found(engine.session_resources@, session_id);
    directories_lie_under_the_session(engine.sessions_directory@, session_id);
    if environment.workspace_id is Some {
        workspace_is_found(engine.workspaces@, environment.workspace_id->0@);
    }
}

/// A session is in scope where it is the one asked for, or all are.
pub proof fn scope_is_one_or_all(scope: Option<String>, session_id: Seq<char>)
    ensures
        scope is None ==> concerns(scope, session_id),
        scope is Some ==> concerns(scope, session_id) == (scope->0@ == session_id),
{
}

/// Repairing puts the directories of each session in scope under its name and gives resources to
/// each that had none. A session stays bound to its workspace and works where it did; one that is
/// bound to none works in its own directory. Sessions out of scope are left alone.
pub proof fn repaired_resources_lie_under_their_sessions(
    before: StorageEngine,
    after: StorageEngine,
    scope: Option<String>,
    i: int,
)
    requires
        resources_repaired(before, after, scope),
        0 <= i < after.session_resources@.len(),
    ensures
        after == (StorageEngine { session_resources: after.session_resources, ..before }),
        before.session_resources@.len() <= after.session_resources@.len(),
        ({
            let row = after.session_resources@[i];
            let in_scope = scope is None || scope->0@ == row.session_id@;
            &&& i >= before.session_resources@.len() ==> in_scope
            &&& in_scope ==> {
                &&& row.attachment_directory@ == directory_of(
                    before,
                    row.session_id@,
                    "attachments"@,
                )
                &&& row.private_directory@ == directory_of(before, row.session_id@, "private"@)
                &&& row.workspace_id is None ==> row.working_directory@ == row.private_directory@
            }
            &&& i < before.session_resources@.len() ==> {
                let earlier = before.session_resources@[i];
                &&& row.session_id == earlier.session_id
                &&& row.workspace_id == earlier.workspace_id
                &&& row.created_at_ms == earlier.created_at_ms
                &&& row.workspace_id is Some ==> row.working_directory
                    == earlier.working_directory
                &&& !in_scope ==> row == earlier
            }
            &&& i >= before.session_resources@.len() ==> {
                &&& row.workspace_id is None
                &&& exists|k: int|
                    0 <= k < before.sessions@.len() && (
                    #[trigger] before.sessions@[k]).session_id == row.session_id
                        && before.sessions@[k].created_at_ms == row.created_at_ms
                &&& none_of(
                    before.session_resources@,
                    |other: SessionResources| other.session_id@ == row.session_id@,
                )
            }
        }),
        forall|k: int|
            0 <= k < before.sessions@.len() && (scope is None || scope->0@
                == before.sessions@[k].session_id@) ==> exists|r: int|
                0 <= r < after.session_resources@.len() && (
                #[trigger] after.session_resources@[r]).session_id@ == (
                #[trigger] before.sessions@[k]).session_id@,
{
    let row = after.session_resources@[i];
    directories_lie_under_the_session(before.sessions_directory@, row.session_id@);
    if i >= before.session_resources@.len() {
        assert(added_for_session(before, scope, row));
        let k = choose|k: int|
            0 <= k < before.sessions@.len() && is_unbound(
                before.sessions_directory@,
                #[trigger] before.sessions@[k],
                row,
            ) && concerns(scope, before.sessions@[k].session_id@) && !some_row(
                before.session_resources@,
                is_resources_of(before.sessions@[k].session_id@),
            );
        found_leads(
            before.session_resources@,
            is_resources_of(row.session_id@),
            |other: SessionResources| other.session_id@ == row.session_id@,
        );
        assert(before.sessions@[k].session_id == row.session_id);
    } else if concerns(scope, before.session_resources@[i].session_id@) {
        assert(is_relocated(before.sessions_directory@, before.session_resources@[i], row));
    } else {
        let earlier = before.session_resources@[i];
        assert(after.session_resources@[i] == earlier);
    }
    assert forall|k: int|
        0 <= k < before.sessions@.len() && (scope is None || scope->0@
            == before.sessions@[k].session_id@) implies exists|r: int|
        0 <= r < after.session_resources@.len() && (
        #[trigger] after.session_resources@[r]).session_id@ == (
        #[trigger] before.sessions@[k]).session_id@ by {
        let id = before.sessions@[k].session_id@;
        assert(concerns(scope, id));
        assert(some_row(after.session_resources@, is_resources_of(id)));
        let r = choose|r: int|
            0 <= r < after.session_resources@.len() && is_resources_of(id)(
                #[trigger] after.session_resources@[r],
            );
        assert(after.session_resources@[r].session_id@ == id);
    }
}

/// The owner of an index is a session itself or one of its tasks, by its identifier.
pub open spec fn indexes(head: RecallHeadRow, owner: ConversationOwner) -> bool {
    match (head.owner, owner) {
        (
            ConversationOwner::MainSession { session_id: left },
            ConversationOwner::MainSession { session_id: right },
        ) => left@ == right@,
        (
            ConversationOwner::ChildTask { session_id: _, child_task_id: left },
            ConversationOwner::ChildTask { session_id: _, child_task_id: right },
        ) => left@ == right@,
        _ => false,
    }
}

/// The row of an index.
pub open spec fn head_at(heads: Seq<RecallHeadRow>, i: int, owner: ConversationOwner) -> bool {
    leads(heads, i, |head: RecallHeadRow| indexes(head, owner))
}

/// When a conversation is replaced its index is to be built anew, for the new generation and from
/// nothing. The indexes of others stay.
pub proof fn replaced_conversations_are_indexed_anew(
    heads: Seq<RecallHeadRow>,
    owner: ConversationOwner,
    generation: u64,
)
    ensures
        forall|i: int| #[trigger]
            head_at(heads, i, owner) ==> {
                let after = heads_after_switch(heads, owner, generation);
                &&& after.len() == heads.len()
                &&& after[i].owner == heads[i].owner
                &&& is_to_be_built(after[i], generation)
                &&& forall|j: int|
                    0 <= j < heads.len() && j != i ==> #[trigger] after[j] == heads[j]
            },
        none_of(heads, |head: RecallHeadRow| indexes(head, owner)) ==> {
            let after = heads_after_switch(heads, owner, generation);
            &&& after.len() == heads.len() + 1
            &&& after.drop_last() == heads
            &&& after.last().owner == owner
            &&& is_to_be_built(after.last(), generation)
        },
{
    let plain = |head: RecallHeadRow| indexes(head, owner);
    leader_is_found(heads, is_head_of(owner), plain);
    assert forall|i: int| #[trigger] head_at(heads, i, owner) implies first(
        heads,
        is_head_of(owner),
    ) == Some(i) by {
        assert(leads(heads, i, plain));
    }
    if none_of(heads, plain) {
        if first(heads, is_head_of(owner)) is Some {
            assert(plain(heads[first(heads, is_head_of(owner))->0]));
        }
        assert(heads_after_switch(heads, owner, generation).drop_last() =~= heads);
    }
}

/// An index of a generation of which nothing is built.
pub open spec fn is_to_be_built(head: RecallHeadRow, generation: u64) -> bool {
    &&& head.body_generation == generation
    &&& head.indexed_message_count == 0
    &&& head.state is Dirty
}

/// At a start an index that was being built is to be built again, and every index from nothing where
/// the file that holds them was not there. Others stay.
pub proof fn unfinished_indexes_are_built_again(heads: Seq<RecallHeadRow>, existed: bool, i: int)
    requires
        0 <= i < heads.len(),
    ensures
        heads_after_start(existed, heads).len() == heads.len(),
        heads_after_start(existed, heads)[i].owner == heads[i].owner,
        heads_after_start(existed, heads)[i].body_generation == heads[i].body_generation,
        !existed ==> is_to_be_built(
            heads_after_start(existed, heads)[i],
            heads[i].body_generation,
        ),
        existed && heads[i].state is Rebuilding ==> heads_after_start(
            existed,
            heads,
        )[i].state is Dirty && heads_after_start(existed, heads)[i].indexed_message_count
            == heads[i].indexed_message_count,
        existed && !(heads[i].state is Rebuilding) ==> heads_after_start(existed, heads)[i]
            == heads[i],
{
}

} // verus!
