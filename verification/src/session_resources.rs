//! The directories of a session: what it was created with, and what it has to be.

use vstd::prelude::*;

use crate::engine::{is_path_component, path_component, session_path, StorageEngine};
use crate::error::{
    conflict, conflicting, corrupt, invalid_data, invalid_input, malformed, refusal, Refusal,
    StorageResult, StoreError, StoreErrorKind,
};
use crate::rows::{SessionResources, SessionRow, Workspace, WorkspaceLifecycle};
use crate::table::{any, first, position, some_row};
use crate::text::{characters, optional_text, same_optional_text};

verus! {

/// Where a session works, and which directories are its own.
#[derive(Debug, PartialEq, Eq)]
pub struct SessionExecutionEnvironment {
    pub workspace_id: Option<String>,
    pub working_directory: String,
    pub workspace_private_directory: Option<String>,
    pub session_attachment_directory: String,
    pub session_tool_image_directory: String,
    pub session_private_directory: String,
}

/// The directories below that of a session.
pub open spec fn attachment_path(directory: Seq<char>, session_id: Seq<char>) -> Seq<char> {
    session_path(directory, session_id) + "/attachments"@
}

pub open spec fn private_path(directory: Seq<char>, session_id: Seq<char>) -> Seq<char> {
    session_path(directory, session_id) + "/private"@
}

pub open spec fn tool_image_path(directory: Seq<char>, session_id: Seq<char>) -> Seq<char> {
    session_path(directory, session_id) + "/tool-images"@
}

/// A path from the root.
pub open spec fn absolute(path: Seq<char>) -> bool {
    path.len() > 0 && path[0] == '/'
}

/// Whether a path starts at the root.
pub fn is_absolute(path: &str) -> (result: bool)
    ensures
        result == absolute(path@),
{
    let characters = characters(path);
    characters.len() > 0 && characters[0] == '/'
}

/// The condition of being the directories of a session.
pub open spec fn is_resources_of(session_id: Seq<char>) -> spec_fn(SessionResources) -> bool {
    |row: SessionResources| row.session_id@ == session_id
}

/// The condition of being a workspace.
pub open spec fn is_workspace(workspace_id: Seq<char>) -> spec_fn(Workspace) -> bool {
    |row: Workspace| row.workspace_id@ == workspace_id
}

/// Why the directories of an environment are not those of its session.
pub open spec fn directories_refusal(
    engine: StorageEngine,
    session_id: Seq<char>,
    environment: SessionExecutionEnvironment,
) -> Option<Refusal> {
    let directory = engine.sessions_directory@;
    if !path_component(session_id) {
        Some(malformed("session id is not a directory name"@))
    } else if environment.session_attachment_directory@ != attachment_path(directory, session_id)
        || environment.session_private_directory@ != private_path(directory, session_id)
        || !absolute(environment.working_directory@) || (
    environment.workspace_private_directory is Some && !absolute(
        environment.workspace_private_directory->0@,
    )) {
        Some(corrupt("stored session environment is invalid"@))
    } else {
        None
    }
}

/// Why stored directories do not fit the workspace that they name.
pub open spec fn binding_refusal(engine: StorageEngine, row: SessionResources) -> Option<Refusal> {
    match row.workspace_id {
        Some(workspace_id) => match first(engine.workspaces@, is_workspace(workspace_id@)) {
            Some(i) => if row.working_directory@ != engine.workspaces@[i].user_directory@ {
                Some(corrupt("stored session workspace is invalid"@))
            } else {
                None
            },
            None => Some(corrupt("stored session workspace is invalid"@)),
        },
        None => if row.working_directory@ != row.private_directory@ {
            Some(corrupt("stored unbound session environment is invalid"@))
        } else {
            None
        },
    }
}

/// An environment that stored directories make.
pub open spec fn is_environment_of(
    engine: StorageEngine,
    row: SessionResources,
    environment: SessionExecutionEnvironment,
) -> bool {
    &&& environment.workspace_id == row.workspace_id
    &&& environment.working_directory == row.working_directory
    &&& environment.workspace_private_directory == match row.workspace_id {
        Some(workspace_id) => Some(
            engine.workspaces@[first(
                engine.workspaces@,
                is_workspace(workspace_id@),
            )->0].agent_directory,
        ),
        None => None,
    }
    &&& environment.session_attachment_directory == row.attachment_directory
    &&& environment.session_private_directory == row.private_directory
    &&& environment.session_tool_image_directory@ == tool_image_path(
        engine.sessions_directory@,
        row.session_id@,
    )
}

/// Why a session has no environment that can be used.
pub open spec fn environment_refusal(engine: StorageEngine, session_id: Seq<char>) -> Option<
    Refusal,
> {
    match first(engine.session_resources@, is_resources_of(session_id)) {
        None => Some(corrupt("stored session environment is missing"@)),
        Some(i) => {
            let row = engine.session_resources@[i];
            let directory = engine.sessions_directory@;
            if binding_refusal(engine, row) is Some {
                binding_refusal(engine, row)
            } else if !path_component(session_id) {
                Some(malformed("session id is not a directory name"@))
            } else if row.attachment_directory@ != attachment_path(directory, session_id)
                || row.private_directory@ != private_path(directory, session_id) || !absolute(
                row.working_directory@,
            ) || (row.workspace_id is Some && !absolute(
                engine.workspaces@[first(
                    engine.workspaces@,
                    is_workspace(row.workspace_id->0@),
                )->0].agent_directory@,
            )) {
                Some(corrupt("stored session environment is invalid"@))
            } else {
                None
            }
        },
    }
}

/// A session works in the environment that its row makes.
pub open spec fn works_in(
    engine: StorageEngine,
    session_id: Seq<char>,
    environment: SessionExecutionEnvironment,
) -> bool {
    let place = first(engine.session_resources@, is_resources_of(session_id));
    &&& environment_refusal(engine, session_id) is None
    &&& is_environment_of(engine, engine.session_resources@[place->0], environment)
}

/// Two environments with the same directories.
pub open spec fn same_environment(
    left: SessionExecutionEnvironment,
    right: SessionExecutionEnvironment,
) -> bool {
    &&& optional_text(left.workspace_id) == optional_text(right.workspace_id)
    &&& left.working_directory@ == right.working_directory@
    &&& optional_text(left.workspace_private_directory) == optional_text(
        right.workspace_private_directory,
    )
    &&& left.session_attachment_directory@ == right.session_attachment_directory@
    &&& left.session_tool_image_directory@ == right.session_tool_image_directory@
    &&& left.session_private_directory@ == right.session_private_directory@
}

/// Whether two environments have the same directories.
pub fn is_same_environment(
    left: &SessionExecutionEnvironment,
    right: &SessionExecutionEnvironment,
) -> (result: bool)
    ensures
        result == same_environment(*left, *right),
{
    same_optional_text(&left.workspace_id, &right.workspace_id) && left.working_directory
        == right.working_directory && same_optional_text(
        &left.workspace_private_directory,
        &right.workspace_private_directory,
    ) && left.session_attachment_directory == right.session_attachment_directory
        && left.session_tool_image_directory == right.session_tool_image_directory
        && left.session_private_directory == right.session_private_directory
}

/// Why a new session cannot work in an environment. Whether the directory of its workspace can be
/// used is for the caller to find out.
pub open spec fn new_environment_refusal(
    engine: StorageEngine,
    session_id: Seq<char>,
    environment: SessionExecutionEnvironment,
    workspace_available: bool,
) -> Option<Refusal> {
    if directories_refusal(engine, session_id, environment) is Some {
        directories_refusal(engine, session_id, environment)
    } else {
        match environment.workspace_id {
            Some(workspace_id) => match first(engine.workspaces@, is_workspace(workspace_id@)) {
                None => Some(conflicting("workspace does not exist"@)),
                Some(i) => {
                    let workspace = engine.workspaces@[i];
                    if !(workspace.lifecycle is Active) {
                        Some(conflicting("workspace cannot accept new sessions"@))
                    } else if environment.working_directory@ != workspace.user_directory@
                        || optional_text(environment.workspace_private_directory) != Some(
                        workspace.agent_directory@,
                    ) {
                        Some(malformed("session workspace environment does not match storage"@))
                    } else if !workspace_available {
                        Some(
                            refusal(
                                StoreErrorKind::ResourceUnavailable,
                                "workspace directory is unavailable"@,
                            ),
                        )
                    } else {
                        None
                    }
                },
            },
            None => if environment.workspace_private_directory is Some
                || environment.working_directory@ != environment.session_private_directory@ {
                Some(malformed("unbound session environment is invalid"@))
            } else {
                None
            },
        }
    }
}

/// Directories that belong to where the sessions are now. The directory of a workspace is not the
/// session's, and stays.
pub open spec fn is_relocated(
    directory: Seq<char>,
    row: SessionResources,
    next: SessionResources,
) -> bool {
    &&& next.session_id == row.session_id
    &&& next.workspace_id == row.workspace_id
    &&& next.attachment_directory@ == attachment_path(directory, row.session_id@)
    &&& next.private_directory@ == private_path(directory, row.session_id@)
    &&& next.created_at_ms == row.created_at_ms
    &&& if row.workspace_id is Some {
        next.working_directory == row.working_directory
    } else {
        next.working_directory@ == private_path(directory, row.session_id@)
    }
}

/// The directories of a session that is bound to no workspace.
pub open spec fn is_unbound(
    directory: Seq<char>,
    session: SessionRow,
    row: SessionResources,
) -> bool {
    &&& row.session_id == session.session_id
    &&& row.workspace_id is None
    &&& row.working_directory@ == private_path(directory, session.session_id@)
    &&& row.attachment_directory@ == attachment_path(directory, session.session_id@)
    &&& row.private_directory@ == private_path(directory, session.session_id@)
    &&& row.created_at_ms == session.created_at_ms
}

/// A row concerns a session, or all are meant.
pub open spec fn concerns(scope: Option<String>, session_id: Seq<char>) -> bool {
    scope is None || session_id == scope->0@
}

/// The condition of being a session in scope that cannot have a directory.
pub open spec fn is_misnamed(scope: Option<String>) -> spec_fn(SessionRow) -> bool {
    |row: SessionRow| concerns(scope, row.session_id@) && !path_component(row.session_id@)
}

/// The condition of being directories in scope whose session cannot have a directory.
pub open spec fn is_misplaced(scope: Option<String>) -> spec_fn(SessionResources) -> bool {
    |row: SessionResources| concerns(scope, row.session_id@) && !path_component(row.session_id@)
}

/// The directories of all sessions in scope are where they belong, and none is without.
pub open spec fn resources_repaired(
    before: StorageEngine,
    after: StorageEngine,
    scope: Option<String>,
) -> bool {
    let directory = before.sessions_directory@;
    let old_rows = before.session_resources@;
    let new_rows = after.session_resources@;
    &&& after == (StorageEngine { session_resources: after.session_resources, ..before })
    &&& new_rows.len() >= old_rows.len()
    &&& forall|i: int|
        0 <= i < old_rows.len() ==> if concerns(scope, old_rows[i].session_id@) {
            is_relocated(directory, old_rows[i], #[trigger] new_rows[i])
        } else {
            new_rows[i] == old_rows[i]
        }
    &&& forall|i: int|
        old_rows.len() <= i < new_rows.len() ==> added_for_session(
            before,
            scope,
            #[trigger] new_rows[i],
        )
    &&& forall|i: int, j: int|
        old_rows.len() <= i < new_rows.len() && 0 <= j < i ==> (#[trigger] new_rows[j]).session_id@
            != (#[trigger] new_rows[i]).session_id@
    &&& forall|k: int|
        0 <= k < before.sessions@.len() && concerns(scope, before.sessions@[k].session_id@)
            ==> some_row(
            new_rows,
            is_resources_of((#[trigger] before.sessions@[k]).session_id@),
        )
}

/// Directories for a session in scope that had none.
pub open spec fn added_for_session(
    before: StorageEngine,
    scope: Option<String>,
    row: SessionResources,
) -> bool {
    exists|k: int|
        0 <= k < before.sessions@.len() && is_unbound(
            before.sessions_directory@,
            #[trigger] before.sessions@[k],
            row,
        ) && concerns(scope, before.sessions@[k].session_id@) && !some_row(
            before.session_resources@,
            is_resources_of(before.sessions@[k].session_id@),
        )
}

impl StorageEngine {
    fn below_session(&self, session_id: &String, name: &str) -> (path: String)
        ensures
            path@ == session_path(self.sessions_directory@, session_id@) + name@,
    {
        let mut path = self.sessions_directory.clone();
        path.append("/");
        path.append(session_id.as_str());
        path.append(name);
        path
    }

    fn resources_place(&self, session_id: &String) -> (place: Option<usize>)
        ensures
            match place {
                Some(i) => i < self.session_resources@.len() && first(
                    self.session_resources@,
                    is_resources_of(session_id@),
                ) == Some(i as int) && self.session_resources@[i as int].session_id@
                    == session_id@,
                None => first(self.session_resources@, is_resources_of(session_id@)) is None
                    && !some_row(self.session_resources@, is_resources_of(session_id@)),
            },
    {
        position(
            &self.session_resources,
            Ghost(is_resources_of(session_id@)),
            |row: &SessionResources| -> (found: bool)
                ensures
                    found == (row.session_id@ == session_id@)
                { row.session_id == *session_id },
        )
    }

    fn workspace_place(&self, workspace_id: &String) -> (place: Option<usize>)
        ensures
            match place {
                Some(i) => i < self.workspaces@.len() && first(
                    self.workspaces@,
                    is_workspace(workspace_id@),
                ) == Some(i as int),
                None => first(self.workspaces@, is_workspace(workspace_id@)) is None,
            },
    {
        position(
            &self.workspaces,
            Ghost(is_workspace(workspace_id@)),
            |row: &Workspace| -> (found: bool)
                ensures
                    found == (row.workspace_id@ == workspace_id@)
                { row.workspace_id == *workspace_id },
        )
    }

    /// The environment of a session.
    pub fn load_session_environment(&self, session_id: &String) -> (result: StorageResult<
        SessionExecutionEnvironment,
    >)
        ensures
            match environment_refusal(*self, session_id@) {
                Some(error) => result is Err && result->Err_0@ == error,
                None => result is Ok && works_in(*self, session_id@, result->Ok_0),
            },
    {
        let place: usize = match self.resources_place(session_id) {
            Some(place) => place,
            None => {
                return Err(invalid_data("stored session environment is missing"));
            },
        };
        let row = &self.session_resources[place];
        let workspace_private_directory = match &row.workspace_id {
            Some(workspace_id) => match self.workspace_place(workspace_id) {
                Some(workspace) => {
                    if row.working_directory != self.workspaces[workspace].user_directory {
                        return Err(invalid_data("stored session workspace is invalid"));
                    }
                    Some(self.workspaces[workspace].agent_directory.clone())
                },
                None => {
                    return Err(invalid_data("stored session workspace is invalid"));
                },
            },
            None => {
                if row.working_directory != row.private_directory {
                    return Err(invalid_data("stored unbound session environment is invalid"));
                }
                None
            },
        };
        let environment = SessionExecutionEnvironment {
            workspace_id: row.workspace_id.clone(),
            working_directory: row.working_directory.clone(),
            workspace_private_directory,
            session_attachment_directory: row.attachment_directory.clone(),
            session_tool_image_directory: self.below_session(session_id, "/tool-images"),
            session_private_directory: row.private_directory.clone(),
        };
        match self.validate_stored_session_environment(session_id, &environment) {
            Ok(_) => Ok(environment),
            Err(error) => Err(error),
        }
    }

    /// Whether the directories of an environment are those of its session.
    pub fn validate_stored_session_environment(
        &self,
        session_id: &String,
        environment: &SessionExecutionEnvironment,
    ) -> (result: StorageResult<()>)
        ensures
            match directories_refusal(*self, session_id@, *environment) {
                Some(error) => result is Err && result->Err_0@ == error,
                None => result is Ok,
            },
    {
        match self.session_directory(session_id) {
            Ok(_) => {},
            Err(error) => {
                return Err(error);
            },
        }
        let private_is_relative = match &environment.workspace_private_directory {
            Some(path) => !is_absolute(path.as_str()),
            None => false,
        };
        if environment.session_attachment_directory != self.below_session(
            session_id,
            "/attachments",
        ) || environment.session_private_directory != self.below_session(session_id, "/private")
            || !is_absolute(environment.working_directory.as_str()) || private_is_relative {
            return Err(invalid_data("stored session environment is invalid"));
        }
        Ok(())
    }

    /// Whether a new session can work in an environment.
    pub fn validate_new_session_environment(
        &self,
        session_id: &String,
        environment: &SessionExecutionEnvironment,
        workspace_available: bool,
    ) -> (result: StorageResult<()>)
        ensures
            match new_environment_refusal(*self, session_id@, *environment, workspace_available) {
                Some(error) => result is Err && result->Err_0@ == error,
                None => result is Ok,
            },
    {
        match self.validate_stored_session_environment(session_id, environment) {
            Ok(_) => {},
            Err(error) => {
                return Err(error);
            },
        }
        match &environment.workspace_id {
            Some(workspace_id) => {
                let place: usize = match self.workspace_place(workspace_id) {
                    Some(place) => place,
                    None => {
                        return Err(conflict("workspace does not exist"));
                    },
                };
                let workspace = &self.workspaces[place];
                if !matches!(workspace.lifecycle, WorkspaceLifecycle::Active) {
                    return Err(conflict("workspace cannot accept new sessions"));
                }
                let private_matches = match &environment.workspace_private_directory {
                    Some(path) => *path == workspace.agent_directory,
                    None => false,
                };
                if environment.working_directory != workspace.user_directory || !private_matches {
                    return Err(
                        invalid_input("session workspace environment does not match storage"),
                    );
                }
                if !workspace_available {
                    return Err(
                        StoreError::new(
                            StoreErrorKind::ResourceUnavailable,
                            "workspace directory is unavailable",
                        ),
                    );
                }
            },
            None => {
                if environment.workspace_private_directory.is_some()
                    || environment.working_directory != environment.session_private_directory {
                    return Err(invalid_input("unbound session environment is invalid"));
                }
            },
        }
        Ok(())
    }

    /// Gives every session its directories: those of a session are where the sessions are now, even
    /// if the sessions were moved, and a session without any is bound to no workspace.
    pub fn place_session_resources(&mut self, scope: &Option<String>) -> (result: StorageResult<()>)
        ensures
            some_row(old(self).sessions@, is_misnamed(*scope)) || some_row(
                old(self).session_resources@,
                is_misplaced(*scope),
            ) ==> {
                &&& result is Err && result->Err_0@ == malformed(
                    "session id is not a directory name"@,
                )
                &&& *final(self) == *old(self)
            },
            !some_row(old(self).sessions@, is_misnamed(*scope)) && !some_row(
                old(self).session_resources@,
                is_misplaced(*scope),
            ) ==> result is Ok && resources_repaired(*old(self), *final(self), *scope),
    {
        let misnamed = any(
            &self.sessions,
            Ghost(is_misnamed(*scope)),
            |row: &SessionRow| -> (found: bool)
                ensures
                    found == is_misnamed(*scope)(*row)
                { is_in_scope(scope, &row.session_id) && !is_path_component(row.session_id.as_str()) },
        );
        let misplaced = any(
            &self.session_resources,
            Ghost(is_misplaced(*scope)),
            |row: &SessionResources| -> (found: bool)
                ensures
                    found == is_misplaced(*scope)(*row)
                { is_in_scope(scope, &row.session_id) && !is_path_component(row.session_id.as_str()) },
        );
        if misnamed || misplaced {
            return Err(invalid_input("session id is not a directory name"));
        }
        self.relocate_resources(scope);
        let ghost relocated = *self;
        self.add_missing_resources(scope);
        proof {
            let old_rows = old(self).session_resources@;
            let middle = relocated.session_resources@;
            let rows = self.session_resources@;
            assert forall|i: int| 0 <= i < old_rows.len() implies if concerns(
                *scope,
                old_rows[i].session_id@,
            ) {
                is_relocated(old(self).sessions_directory@, old_rows[i], #[trigger] rows[i])
            } else {
                rows[i] == old_rows[i]
            } by {
                assert(rows[i] == middle[i]);
            }
            assert forall|i: int| old_rows.len() <= i < rows.len() implies added_for_session(
                *old(self),
                *scope,
                #[trigger] rows[i],
            ) by {
                assert(added_for_session(relocated, *scope, rows[i]));
                let k = choose|k: int|
                    0 <= k < relocated.sessions@.len() && is_unbound(
                        relocated.sessions_directory@,
                        #[trigger] relocated.sessions@[k],
                        rows[i],
                    ) && concerns(*scope, relocated.sessions@[k].session_id@) && !some_row(
                        relocated.session_resources@,
                        is_resources_of(relocated.sessions@[k].session_id@),
                    );
                let id = relocated.sessions@[k].session_id@;
                if some_row(old_rows, is_resources_of(id)) {
                    let j = choose|j: int|
                        0 <= j < old_rows.len() && is_resources_of(id)(#[trigger] old_rows[j]);
                    assert(is_resources_of(id)(middle[j]));
                }
                assert(is_unbound(
                    old(self).sessions_directory@,
                    old(self).sessions@[k],
                    rows[i],
                ));
            }
            assert(resources_repaired(*old(self), *self, *scope));
        }
        Ok(())
    }

    fn relocate_resources(&mut self, scope: &Option<String>)
        ensures
            *final(self) == (StorageEngine {
                session_resources: final(self).session_resources,
                ..*old(self)
            }),
            final(self).session_resources@.len() == old(self).session_resources@.len(),
            forall|i: int|
                0 <= i < old(self).session_resources@.len() ==> if concerns(
                    *scope,
                    old(self).session_resources@[i].session_id@,
                ) {
                    is_relocated(
                        old(self).sessions_directory@,
                        old(self).session_resources@[i],
                        #[trigger] final(self).session_resources@[i],
                    )
                } else {
                    final(self).session_resources@[i] == old(self).session_resources@[i]
                },
    {
        let ghost before = *self;
        let mut i: usize = 0;
        while i < self.session_resources.len()
            invariant
                before == *old(self),
                *self == (StorageEngine {
                    session_resources: self.session_resources,
                    ..before
                }),
                i <= self.session_resources@.len(),
                self.session_resources@.len() == before.session_resources@.len(),
                forall|k: int|
                    i <= k < before.session_resources@.len() ==> #[trigger]
                        self.session_resources@[k] == before.session_resources@[k],
                forall|k: int|
                    0 <= k < i ==> if concerns(*scope, before.session_resources@[k].session_id@) {
                        is_relocated(
                            before.sessions_directory@,
                            before.session_resources@[k],
                            #[trigger] self.session_resources@[k],
                        )
                    } else {
                        self.session_resources@[k] == before.session_resources@[k]
                    },
            decreases self.session_resources@.len() - i,
        {
            if is_in_scope(scope, &self.session_resources[i].session_id) {
                let session_id = self.session_resources[i].session_id.clone();
                let row = SessionResources {
                    session_id: self.session_resources[i].session_id.clone(),
                    workspace_id: self.session_resources[i].workspace_id.clone(),
                    working_directory: if self.session_resources[i].workspace_id.is_some() {
                        self.session_resources[i].working_directory.clone()
                    } else {
                        self.below_session(&session_id, "/private")
                    },
                    attachment_directory: self.below_session(&session_id, "/attachments"),
                    private_directory: self.below_session(&session_id, "/private"),
                    created_at_ms: self.session_resources[i].created_at_ms,
                };
                self.session_resources[i] = row;
            }
            i += 1;
        }
    }

    fn add_missing_resources(&mut self, scope: &Option<String>)
        ensures
            *final(self) == (StorageEngine {
                session_resources: final(self).session_resources,
                ..*old(self)
            }),
            final(self).session_resources@.len() >= old(self).session_resources@.len(),
            forall|i: int|
                0 <= i < old(self).session_resources@.len() ==> #[trigger]
                    final(self).session_resources@[i] == old(self).session_resources@[i],
            forall|i: int|
                old(self).session_resources@.len() <= i < final(self).session_resources@.len()
                    ==> added_for_session(
                    *old(self),
                    *scope,
                    #[trigger] final(self).session_resources@[i],
                ),
            forall|i: int, j: int|
                old(self).session_resources@.len() <= i < final(self).session_resources@.len() && 0
                    <= j < i ==> (#[trigger] final(self).session_resources@[j]).session_id@ != (
                #[trigger] final(self).session_resources@[i]).session_id@,
            forall|k: int|
                0 <= k < old(self).sessions@.len() && concerns(
                    *scope,
                    old(self).sessions@[k].session_id@,
                ) ==> some_row(
                    final(self).session_resources@,
                    is_resources_of((#[trigger] old(self).sessions@[k]).session_id@),
                ),
    {
        let ghost before = *self;
        let mut k: usize = 0;
        while k < self.sessions.len()
            invariant
                before == *old(self),
                *self == (StorageEngine {
                    session_resources: self.session_resources,
                    ..before
                }),
                k <= self.sessions@.len(),
                self.session_resources@.len() >= before.session_resources@.len(),
                forall|i: int|
                    0 <= i < before.session_resources@.len() ==> #[trigger]
                        self.session_resources@[i] == before.session_resources@[i],
                forall|i: int|
                    before.session_resources@.len() <= i < self.session_resources@.len()
                        ==> added_for_session(
                        before,
                        *scope,
                        #[trigger] self.session_resources@[i],
                    ),
                forall|i: int, j: int|
                    before.session_resources@.len() <= i < self.session_resources@.len() && 0 <= j
                        < i ==> (#[trigger] self.session_resources@[j]).session_id@ != (
                    #[trigger] self.session_resources@[i]).session_id@,
                forall|j: int|
                    0 <= j < k && concerns(*scope, before.sessions@[j].session_id@) ==> some_row(
                        self.session_resources@,
                        is_resources_of((#[trigger] before.sessions@[j]).session_id@),
                    ),
            decreases self.sessions@.len() - k,
        {
            let ghost rows = self.session_resources@;
            if is_in_scope(scope, &self.sessions[k].session_id) {
                let session_id = self.sessions[k].session_id.clone();
                if self.resources_place(&session_id).is_none() {
                    let row = SessionResources {
                        session_id: self.sessions[k].session_id.clone(),
                        workspace_id: None,
                        working_directory: self.below_session(&session_id, "/private"),
                        attachment_directory: self.below_session(&session_id, "/attachments"),
                        private_directory: self.below_session(&session_id, "/private"),
                        created_at_ms: self.sessions[k].created_at_ms,
                    };
                    self.session_resources.push(row);
                    proof {
                        let id = before.sessions@[k as int].session_id@;
                        if some_row(before.session_resources@, is_resources_of(id)) {
                            let j = choose|j: int|
                                0 <= j < before.session_resources@.len() && is_resources_of(id)(
                                    #[trigger] before.session_resources@[j],
                                );
                            assert(is_resources_of(id)(rows[j]));
                        }
                        assert(is_unbound(
                            before.sessions_directory@,
                            before.sessions@[k as int],
                            self.session_resources@[rows.len() as int],
                        ));
                        assert forall|j: int| 0 <= j < rows.len() implies (
                        #[trigger] self.session_resources@[j]).session_id@ != id by {
                            assert(self.session_resources@[j] == rows[j]);
                            assert(!is_resources_of(id)(rows[j]));
                        }
                    }
                }
            }
            proof {
                let now = self.session_resources@;
                assert forall|j: int| 0 <= j < k + 1 && concerns(
                    *scope,
                    before.sessions@[j].session_id@,
                ) implies some_row(
                    now,
                    is_resources_of((#[trigger] before.sessions@[j]).session_id@),
                ) by {
                    let condition = is_resources_of(before.sessions@[j].session_id@);
                    if j < k {
                        let i = choose|i: int|
                            0 <= i < rows.len() && condition(#[trigger] rows[i]);
                        assert(condition(now[i]));
                    } else if some_row(rows, condition) {
                        let i = choose|i: int|
                            0 <= i < rows.len() && condition(#[trigger] rows[i]);
                        assert(condition(now[i]));
                    } else {
                        assert(condition(now[rows.len() as int]));
                    }
                }
            }
            k += 1;
        }
    }
}

pub fn is_in_scope(scope: &Option<String>, session_id: &String) -> (result: bool)
    ensures
        result == concerns(*scope, session_id@),
{
    match scope {
        None => true,
        Some(wanted) => *session_id == *wanted,
    }
}

} // verus!
