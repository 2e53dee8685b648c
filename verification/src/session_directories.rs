//! The directories that sessions need before they are taken up.

use vstd::prelude::*;

use crate::engine::{session_path, StorageEngine};
use crate::error::{malformed, StorageResult};
use crate::order::{is_order, ordered, SortKey};
use crate::rows::SessionRow;
use crate::session_resources::{
    attachment_path, concerns, environment_refusal, is_in_scope, is_misnamed, is_misplaced,
    private_path, resources_repaired, tool_image_path,
};
use crate::table::{copies, kept, some_row};
use crate::text::joined;

verus! {

/// The directories of a session.
#[derive(Debug, PartialEq, Eq)]
pub struct SessionDirectories {
    pub session_directory: String,
    pub attachment_directory: String,
    pub private_directory: String,
    pub tool_image_directory: String,
}

/// The directories of a session, by their paths.
pub open spec fn is_directories_of(
    engine: StorageEngine,
    session_id: Seq<char>,
    directories: SessionDirectories,
) -> bool {
    let directory = engine.sessions_directory@;
    &&& directories.session_directory@ == session_path(directory, session_id)
    &&& directories.attachment_directory@ == attachment_path(directory, session_id)
    &&& directories.private_directory@ == private_path(directory, session_id)
    &&& directories.tool_image_directory@ == tool_image_path(directory, session_id)
}

/// The condition of being a session that is meant.
pub open spec fn is_meant(scope: Option<String>) -> spec_fn(SessionRow) -> bool {
    |row: SessionRow| concerns(scope, row.session_id@)
}

/// What sessions are ordered by here.
pub open spec fn id_keys(rows: Seq<SessionRow>) -> Seq<SortKey> {
    rows.map_values(|row: SessionRow| SortKey { rank: 0, time: 0, id: row.session_id })
}

/// The directories of the sessions that are meant, in the order of the sessions' names; or why
/// the first session without a usable environment has none.
pub open spec fn directories_listed(
    engine: StorageEngine,
    scope: Option<String>,
    order: Seq<usize>,
    result: StorageResult<Vec<SessionDirectories>>,
) -> bool {
    let rows = kept(engine.sessions@, is_meant(scope));
    &&& is_order(id_keys(rows), order)
    &&& match result {
        Ok(list) => {
            &&& list@.len() == rows.len()
            &&& forall|k: int|
                0 <= k < list@.len() ==> is_directories_of(
                    engine,
                    rows[order[k] as int].session_id@,
                    #[trigger] list@[k],
                ) && environment_refusal(engine, rows[order[k] as int].session_id@) is None
        },
        Err(error) => exists|k: int|
            0 <= k < order.len() && environment_refusal(
                engine,
                rows[#[trigger] order[k] as int].session_id@,
            ) == Some(error@) && forall|j: int|
                0 <= j < k ==> environment_refusal(
                    engine,
                    rows[#[trigger] order[j] as int].session_id@,
                ) is None,
    }
}

/// The sessions that are meant have their directories where they belong: or some name makes no
/// directory, and nothing is done.
pub open spec fn resources_recovered(
    before: StorageEngine,
    after: StorageEngine,
    scope: Option<String>,
    order: Seq<usize>,
    result: StorageResult<Vec<SessionDirectories>>,
) -> bool {
    if is_astray(before, scope) {
        &&& result is Err
        &&& result->Err_0@ == malformed("session id is not a directory name"@)
        &&& after == before
    } else {
        &&& resources_repaired(before, after, scope)
        &&& directories_listed(after, scope, order, result)
    }
}

/// Some session that is meant, or the owner of some directories that are, has a name that makes no
/// directory.
pub open spec fn is_astray(engine: StorageEngine, scope: Option<String>) -> bool {
    some_row(engine.sessions@, is_misnamed(scope)) || some_row(
        engine.session_resources@,
        is_misplaced(scope),
    )
}

impl StorageEngine {
    /// The directories of a session.
    pub fn session_directories(&self, session_id: &String) -> (directories: SessionDirectories)
        ensures
            is_directories_of(*self, session_id@, directories),
    {
        let parent = joined(self.sessions_directory.as_str(), "/");
        let session_directory = joined(parent.as_str(), session_id.as_str());
        SessionDirectories {
            attachment_directory: joined(session_directory.as_str(), "/attachments"),
            private_directory: joined(session_directory.as_str(), "/private"),
            tool_image_directory: joined(session_directory.as_str(), "/tool-images"),
            session_directory,
        }
    }

    /// The directories that sessions with a usable environment need.
    pub fn recover_session_resource_directories(&self, scope: &Option<String>) -> (result:
        StorageResult<Vec<SessionDirectories>>)
        ensures
            exists|order: Seq<usize>| #[trigger] directories_listed(*self, *scope, order, result),
    {
        let rows = copies(
            &self.sessions,
            Ghost(is_meant(*scope)),
            |row: &SessionRow| -> (found: bool)
                ensures
                    found == concerns(*scope, row.session_id@)
                { is_in_scope(scope, &row.session_id) },
            |row: &SessionRow| -> (same: SessionRow)
                ensures
                    same == *row
                { row.copy() },
        );
        let mut keys: Vec<SortKey> = Vec::new();
        let mut i: usize = 0;
        while i < rows.len()
            invariant
                i <= rows@.len(),
                keys@.len() == i,
                forall|k: int|
                    0 <= k < i ==> #[trigger] keys@[k] == (SortKey {
                        rank: 0,
                        time: 0,
                        id: rows@[k].session_id,
                    }),
            decreases rows@.len() - i,
        {
            keys.push(SortKey { rank: 0, time: 0, id: rows[i].session_id.clone() });
            i += 1;
        }
        proof {
            assert(keys@ =~= id_keys(rows@));
        }
        let order = ordered(&keys);
        let mut list: Vec<SessionDirectories> = Vec::new();
        let mut k: usize = 0;
        while k < order.len()
            invariant
                k <= order@.len(),
                list@.len() == k,
                rows@ == kept(self.sessions@, is_meant(*scope)),
                is_order(id_keys(rows@), order@),
                forall|j: int|
                    0 <= j < k ==> is_directories_of(
                        *self,
                        rows@[order@[j] as int].session_id@,
                        #[trigger] list@[j],
                    ) && environment_refusal(*self, rows@[order@[j] as int].session_id@) is None,
            decreases order@.len() - k,
        {
            let session_id = &rows[order[k]].session_id;
            match self.load_session_environment(session_id) {
                Ok(_) => {},
                Err(error) => {
                    let result = Err(error);
                    proof {
                        assert forall|j: int| 0 <= j < k implies environment_refusal(
                            *self,
                            rows@[#[trigger] order@[j] as int].session_id@,
                        ) is None by {
                            assert(is_directories_of(
                                *self,
                                rows@[order@[j] as int].session_id@,
                                list@[j],
                            ));
                        }
                        assert(environment_refusal(
                            *self,
                            rows@[order@[k as int] as int].session_id@,
                        ) == Some(error@));
                        assert(directories_listed(*self, *scope, order@, result));
                    }
                    return result;
                },
            }
            list.push(self.session_directories(session_id));
            k += 1;
        }
        let result = Ok(list);
        assert(directories_listed(*self, *scope, order@, result));
        result
    }

    /// Gives the sessions that are meant their directories, and says which are to be there.
    pub fn repair_session_resources(&mut self, scope: &Option<String>) -> (result: StorageResult<
        Vec<SessionDirectories>,
    >)
        ensures
            exists|order: Seq<usize>| #[trigger]
                resources_recovered(*old(self), *final(self), *scope, order, result),
    {
        match self.place_session_resources(scope) {
            Ok(()) => {},
            Err(error) => {
                let result = Err(error);
                assert(resources_recovered(*old(self), *self, *scope, Seq::empty(), result));
                return result;
            },
        }
        let result = self.recover_session_resource_directories(scope);
        proof {
            let order = choose|order: Seq<usize>| #[trigger]
                directories_listed(*self, *scope, order, result);
            assert(resources_recovered(*old(self), *self, *scope, order, result));
        }
        result
    }
}

} // verus!
