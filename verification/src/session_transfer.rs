//! Deleting a session for good, without losing it half way.
//!
//! The directory of a session is set aside under a name that tells which deletion it belongs to,
//! then the tables forget the session, and only then the directory goes. After a restart the
//! tables decide what becomes of a directory that was set aside.

use vstd::prelude::*;
use vstd::utf8::{encode_utf8, valid_utf8};

use crate::cascade::inputs_removed;
use crate::engine::{
    is_path_component, is_session, path_component, session_path, BodyFile, StorageEngine,
};
use crate::error::{
    conflict, conflicting, corrupt, invalid_data, invalid_input, malformed, outcome_of, Refusal,
    StorageResult,
};
use crate::idle::busy_for_transfer;
use crate::rows::{
    ChildTaskRow, HistoryOperationRow, RunRow, SessionResources, SessionRole, SessionRow,
    SessionUsageRow, StoredAttachment, StoredInput,
};
use crate::session_history::{
    history_dropped, inputs_of, is_input_of, is_other_text, usage_elsewhere,
};
use crate::session_rewrite::input_key;
use crate::table::{count, first, first_is_found, keep, kept, kept_rows, listed, some_row};
use crate::text::{
    before_first, cut_at, cut_of_joined, has_prefix, joined, optional_text, starts_with,
};

verus! {

/// The text that bytes encode, by [`String::from_utf8`]: there is one exactly where the bytes are
/// valid UTF-8, and its UTF-8 encoding is the bytes.
#[verifier::external_body]
fn decoded_text(bytes: Vec<u8>) -> (text: Option<String>)
    ensures
        match text {
            Some(text) => valid_utf8(bytes@) && encode_utf8(text@) == bytes@,
            None => !valid_utf8(bytes@),
        },
{
    String::from_utf8(bytes).ok()
}

/// The text of a path that a request names, given its bytes.
pub fn path_text(path: Vec<u8>) -> (result: StorageResult<String>)
    ensures
        valid_utf8(path@) ==> result is Ok && encode_utf8(result->Ok_0@) == path@,
        !valid_utf8(path@) ==> result is Err && result->Err_0@ == malformed("path must be UTF-8"@),
{
    match decoded_text(path) {
        Some(text) => Ok(text),
        None => Err(invalid_input("path must be UTF-8")),
    }
}

/// The text of a path of the runtime, given its bytes.
pub fn runtime_path_text(path: Vec<u8>) -> (result: StorageResult<String>)
    ensures
        valid_utf8(path@) ==> result is Ok && encode_utf8(result->Ok_0@) == path@,
        !valid_utf8(path@) ==> result is Err && result->Err_0@ == corrupt(
            "runtime path is not valid UTF-8"@,
        ),
{
    match decoded_text(path) {
        Some(text) => Ok(text),
        None => Err(invalid_data("runtime path is not valid UTF-8")),
    }
}

/// How much goes with a session.
#[derive(Clone, Copy, Debug, PartialEq, Eq, Structural)]
pub struct DeleteSessionImpact {
    pub message_count: u64,
    pub run_count: u64,
    pub child_task_count: u64,
    pub attachment_count: u64,
}

/// A request to delete a session, with how much its user was told that goes with it.
#[derive(Debug)]
pub struct SessionDeletion {
    pub session_id: String,
    pub operation_id: String,
    pub expected_impact: DeleteSessionImpact,
}

/// What becomes of a directory that a deletion set aside.
#[derive(Debug, PartialEq, Eq)]
pub enum StagedDeletion {
    /// The session is still there: the directory goes back.
    Restore(String),
    /// The session is gone: the directory goes too.
    Remove,
}

/// The condition of belonging to a session.
pub open spec fn is_run_in(session_id: Seq<char>) -> spec_fn(RunRow) -> bool {
    |row: RunRow| row.session_id@ == session_id
}

pub open spec fn is_task_in(session_id: Seq<char>) -> spec_fn(ChildTaskRow) -> bool {
    |row: ChildTaskRow| row.session_id@ == session_id
}

pub open spec fn is_attachment_in(session_id: Seq<char>) -> spec_fn(StoredAttachment) -> bool {
    |row: StoredAttachment| row.session_id@ == session_id
}

/// The condition of belonging to another session.
pub open spec fn session_elsewhere(session_id: Seq<char>) -> spec_fn(SessionRow) -> bool {
    |row: SessionRow| row.session_id@ != session_id
}

pub open spec fn resources_elsewhere(session_id: Seq<char>) -> spec_fn(SessionResources) -> bool {
    |row: SessionResources| row.session_id@ != session_id
}

pub open spec fn attachment_elsewhere(session_id: Seq<char>) -> spec_fn(StoredAttachment) -> bool {
    |row: StoredAttachment| row.session_id@ != session_id
}

pub open spec fn operation_elsewhere(session_id: Seq<char>) -> spec_fn(HistoryOperationRow) -> bool {
    |row: HistoryOperationRow| row.session_id@ != session_id
}

/// A path below the directory of a session.
pub open spec fn below_session(directory: Seq<char>, session_id: Seq<char>, path: Seq<char>) -> bool {
    has_prefix(path, session_path(directory, session_id) + "/"@)
}

/// The condition of lying outside the directory of a session.
pub open spec fn body_elsewhere(directory: Seq<char>, session_id: Seq<char>) -> spec_fn(
    BodyFile,
) -> bool {
    |file: BodyFile| !below_session(directory, session_id, file.path@)
}

/// How much goes with a session.
pub open spec fn impact_of(engine: StorageEngine, session_id: Seq<char>) -> DeleteSessionImpact {
    DeleteSessionImpact {
        message_count: engine.sessions@[first(
            engine.sessions@,
            is_session(session_id),
        )->0].message_count,
        run_count: kept(engine.runs@, is_run_in(session_id)).len() as u64,
        child_task_count: kept(engine.child_tasks@, is_task_in(session_id)).len() as u64,
        attachment_count: kept(engine.attachments@, is_attachment_in(session_id)).len() as u64,
    }
}

/// Why it cannot be told how much goes with a session.
pub open spec fn impact_refusal(engine: StorageEngine, session_id: Seq<char>) -> Option<Refusal> {
    if !path_component(session_id) {
        Some(malformed("session id is not a directory name"@))
    } else if first(engine.sessions@, is_session(session_id)) is None {
        Some(conflicting("delete session does not exist"@))
    } else {
        None
    }
}

/// Why a session cannot be deleted. Whether the name that its directory would be set aside under is
/// taken is for the caller to find out.
pub open spec fn deletion_refusal(
    engine: StorageEngine,
    deletion: SessionDeletion,
    staging_taken: bool,
) -> Option<Refusal> {
    let session_id = deletion.session_id@;
    if impact_refusal(engine, session_id) is Some {
        impact_refusal(engine, session_id)
    } else if !(engine.sessions@[first(
        engine.sessions@,
        is_session(session_id),
    )->0].role is Standard) {
        Some(conflicting("session role cannot be deleted"@))
    } else if busy_for_transfer(engine, session_id) {
        Some(conflicting("session is not idle"@))
    } else if impact_of(engine, session_id) != deletion.expected_impact {
        Some(conflicting("delete session impact changed"@))
    } else if staging_taken {
        Some(conflicting("delete staging path already exists"@))
    } else {
        None
    }
}

/// The name that the directory of a session is set aside under.
pub open spec fn staging_name(session_id: Seq<char>, operation_id: Seq<char>) -> Seq<char> {
    session_id + "."@ + operation_id
}

/// The engine without a session, given the engine without its inputs.
pub open spec fn session_forgotten(
    cut: StorageEngine,
    after: StorageEngine,
    session_id: Seq<char>,
) -> bool {
    &&& after == (StorageEngine {
        files: after.files,
        sessions: after.sessions,
        session_resources: after.session_resources,
        feedback: after.feedback,
        work_plans: after.work_plans,
        work_plan_receipts: after.work_plan_receipts,
        goals: after.goals,
        skill_activations: after.skill_activations,
        mcp_selections: after.mcp_selections,
        request_records: after.request_records,
        recall_heads: after.recall_heads,
        session_usage: after.session_usage,
        history_operations: after.history_operations,
        attachments: after.attachments,
        unavailable_sessions: after.unavailable_sessions,
        ..cut
    })
    &&& after.files@ == kept(cut.files@, body_elsewhere(cut.sessions_directory@, session_id))
    &&& after.sessions@ == kept(cut.sessions@, session_elsewhere(session_id))
    &&& after.session_resources@ == kept(cut.session_resources@, resources_elsewhere(session_id))
    &&& history_dropped(cut, after, session_id)
    &&& after.session_usage@ == kept(cut.session_usage@, usage_elsewhere(session_id))
    &&& after.history_operations@ == kept(cut.history_operations@, operation_elsewhere(session_id))
    &&& after.attachments@ == kept(cut.attachments@, attachment_elsewhere(session_id))
    &&& after.unavailable_sessions@ == kept(cut.unavailable_sessions@, is_other_text(session_id))
}

/// The engine without a session, and without anything that belonged to it.
pub open spec fn session_deleted(
    before: StorageEngine,
    after: StorageEngine,
    session_id: Seq<char>,
) -> bool {
    exists|cut: StorageEngine| #[trigger]
        inputs_removed(before, cut, inputs_of(before.inputs@, session_id)) && session_forgotten(
            cut,
            after,
            session_id,
        )
}

/// The directory of the session that the name of a set-aside directory tells of.
pub open spec fn staged_target(engine: StorageEngine, name: Option<Seq<char>>) -> Option<Seq<char>> {
    match name {
        None => None,
        Some(name) => match before_first(name, '.') {
            None => None,
            Some(session_id) => if path_component(session_id) {
                Some(session_path(engine.sessions_directory@, session_id))
            } else {
                None
            },
        },
    }
}

/// What becomes of a directory that a deletion set aside, or why that cannot be told.
pub open spec fn staged_outcome(
    engine: StorageEngine,
    name: Option<Seq<char>>,
    target_exists: bool,
) -> Result<Option<Seq<char>>, Refusal> {
    match name {
        None => Err(corrupt("delete staging entry name is invalid"@)),
        Some(name) => match before_first(name, '.') {
            None => Err(corrupt("delete staging entry name is invalid"@)),
            Some(session_id) => if !path_component(session_id) {
                Err(malformed("session id is not a directory name"@))
            } else if !some_row(engine.sessions@, is_session(session_id)) {
                Ok(None)
            } else if target_exists {
                Err(corrupt("delete recovery found duplicate session directories"@))
            } else {
                Ok(Some(session_id))
            },
        },
    }
}

/// A session was deleted, or refused to be. Where it was, its directory is put aside under a name.
pub open spec fn deletion_attempted(
    before: StorageEngine,
    after: StorageEngine,
    deletion: SessionDeletion,
    staging_taken: bool,
    outcome: Result<String, Refusal>,
) -> bool {
    match deletion_refusal(before, deletion, staging_taken) {
        Some(error) => after == before && outcome == Err::<String, _>(error),
        None => {
            &&& outcome is Ok
            &&& outcome->Ok_0@ == staging_name(deletion.session_id@, deletion.operation_id@)
            &&& session_deleted(before, after, deletion.session_id@)
        },
    }
}

impl StorageEngine {
    /// How much goes with a session.
    pub fn inspect_session_deletion(&self, session_id: &String) -> (result: StorageResult<
        DeleteSessionImpact,
    >)
        ensures
            match impact_refusal(*self, session_id@) {
                Some(error) => result is Err && result->Err_0@ == error,
                None => result is Ok && result->Ok_0 == impact_of(*self, session_id@),
            },
    {
        match self.session_directory(session_id) {
            Ok(_) => {},
            Err(error) => {
                return Err(error);
            },
        }
        let place: usize = match self.session_place(session_id) {
            Some(place) => place,
            None => {
                return Err(conflict("delete session does not exist"));
            },
        };
        Ok(
            DeleteSessionImpact {
                message_count: self.sessions[place].message_count,
                run_count: count(
                    &self.runs,
                    Ghost(is_run_in(session_id@)),
                    |row: &RunRow| -> (found: bool)
                        ensures
                            found == (row.session_id@ == session_id@)
                        { row.session_id == *session_id },
                ) as u64,
                child_task_count: count(
                    &self.child_tasks,
                    Ghost(is_task_in(session_id@)),
                    |row: &ChildTaskRow| -> (found: bool)
                        ensures
                            found == (row.session_id@ == session_id@)
                        { row.session_id == *session_id },
                ) as u64,
                attachment_count: count(
                    &self.attachments,
                    Ghost(is_attachment_in(session_id@)),
                    |row: &StoredAttachment| -> (found: bool)
                        ensures
                            found == (row.session_id@ == session_id@)
                        { row.session_id == *session_id },
                ) as u64,
            },
        )
    }

    /// Whether a session can be deleted, and the name to set its directory aside under.
    pub fn check_session_deletion(&self, deletion: &SessionDeletion, staging_taken: bool) -> (result:
        StorageResult<String>)
        ensures
            match deletion_refusal(*self, *deletion, staging_taken) {
                Some(error) => result is Err && result->Err_0@ == error,
                None => result is Ok && result->Ok_0@ == staging_name(
                    deletion.session_id@,
                    deletion.operation_id@,
                ),
            },
    {
        let session_id = &deletion.session_id;
        let impact = match self.inspect_session_deletion(session_id) {
            Ok(impact) => impact,
            Err(error) => {
                return Err(error);
            },
        };
        match self.session_place(session_id) {
            Some(place) => {
                if !matches!(self.sessions[place].role, SessionRole::Standard) {
                    return Err(conflict("session role cannot be deleted"));
                }
            },
            None => {
                return Err(conflict("delete session does not exist"));
            },
        }
        match self.ensure_session_idle_for_transfer(session_id) {
            Ok(_) => {},
            Err(error) => {
                return Err(error);
            },
        }
        if impact != deletion.expected_impact {
            return Err(conflict("delete session impact changed"));
        }
        if staging_taken {
            return Err(conflict("delete staging path already exists"));
        }
        let mut name = joined(session_id.as_str(), ".");
        name.append(deletion.operation_id.as_str());
        Ok(name)
    }

    /// Deletes a session, with all that belonged to it, and names what its directory was set aside
    /// under.
    pub fn delete_session(&mut self, deletion: &SessionDeletion, staging_taken: bool) -> (result:
        StorageResult<String>)
        ensures
            deletion_attempted(
                *old(self),
                *final(self),
                *deletion,
                staging_taken,
                outcome_of(result),
            ),
            match deletion_refusal(*old(self), *deletion, staging_taken) {
                Some(error) => {
                    &&& result is Err && result->Err_0@ == error
                    &&& *final(self) == *old(self)
                },
                None => {
                    &&& result is Ok
                    &&& result->Ok_0@ == staging_name(
                        deletion.session_id@,
                        deletion.operation_id@,
                    )
                    &&& session_deleted(*old(self), *final(self), deletion.session_id@)
                },
            },
    {
        let name = match self.check_session_deletion(deletion, staging_taken) {
            Ok(name) => name,
            Err(error) => {
                return Err(error);
            },
        };
        let session_id = &deletion.session_id;
        let gone = listed(
            &self.inputs,
            Ghost(is_input_of(session_id@)),
            |row: &StoredInput| -> (goes: bool)
                ensures
                    goes == (row.session_id@ == session_id@)
                { row.session_id == *session_id },
            Ghost(input_key()),
            |row: &StoredInput| -> (id: String)
                ensures
                    id == row.input_id
                { row.input_id.clone() },
        );
        let _ = self.remove_inputs(&gone);
        let ghost cut = *self;
        self.forget_session(session_id);
        proof {
            let all = inputs_of(old(self).inputs@, session_id@);
            assert(gone@ == all);
            assert(inputs_removed(*old(self), cut, all));
            assert(session_deleted(*old(self), *self, session_id@));
        }
        Ok(name)
    }

    fn forget_session(&mut self, session_id: &String)
        ensures
            session_forgotten(*old(self), *final(self), session_id@),
    {
        let mut directory = self.sessions_directory.clone();
        directory.append("/");
        directory.append(session_id.as_str());
        directory.append("/");
        let ghost sessions = self.sessions_directory@;
        keep(
            &mut self.files,
            Ghost(body_elsewhere(sessions, session_id@)),
            |file: &BodyFile| -> (other: bool)
                ensures
                    other == body_elsewhere(sessions, session_id@)(*file)
                { !starts_with(file.path.as_str(), directory.as_str()) },
        );
        keep(
            &mut self.sessions,
            Ghost(session_elsewhere(session_id@)),
            |row: &SessionRow| -> (other: bool)
                ensures
                    other == (row.session_id@ != session_id@)
                { !(row.session_id == *session_id) },
        );
        keep(
            &mut self.session_resources,
            Ghost(resources_elsewhere(session_id@)),
            |row: &SessionResources| -> (other: bool)
                ensures
                    other == (row.session_id@ != session_id@)
                { !(row.session_id == *session_id) },
        );
        self.drop_history(session_id);
        keep(
            &mut self.session_usage,
            Ghost(usage_elsewhere(session_id@)),
            |row: &SessionUsageRow| -> (other: bool)
                ensures
                    other == (row.session_id@ != session_id@)
                { !(row.session_id == *session_id) },
        );
        keep(
            &mut self.history_operations,
            Ghost(operation_elsewhere(session_id@)),
            |row: &HistoryOperationRow| -> (other: bool)
                ensures
                    other == (row.session_id@ != session_id@)
                { !(row.session_id == *session_id) },
        );
        keep(
            &mut self.attachments,
            Ghost(attachment_elsewhere(session_id@)),
            |row: &StoredAttachment| -> (other: bool)
                ensures
                    other == (row.session_id@ != session_id@)
                { !(row.session_id == *session_id) },
        );
        keep(
            &mut self.unavailable_sessions,
            Ghost(is_other_text(session_id@)),
            |other: &String| -> (stays: bool)
                ensures
                    stays == (other@ != session_id@)
                { !(*other == *session_id) },
        );
    }

    /// The directory that a session has if a directory that a deletion set aside is its own.
    pub fn directory_of_staged(&self, name: &Option<String>) -> (directory: Option<String>)
        ensures
            optional_text(directory) == staged_target(*self, optional_text(*name)),
    {
        match name {
            Some(name) => match cut_at(name.as_str(), '.') {
                Some(session_id) => match self.session_directory(&session_id) {
                    Ok(directory) => Some(directory),
                    Err(_) => None,
                },
                None => None,
            },
            None => None,
        }
    }

    /// What becomes of a directory that a deletion set aside before a restart.
    pub fn recover_session_deletion(&self, name: &Option<String>, target_exists: bool) -> (result:
        StorageResult<StagedDeletion>)
        ensures
            match staged_outcome(*self, optional_text(*name), target_exists) {
                Err(error) => result is Err && result->Err_0@ == error,
                Ok(None) => result is Ok && result->Ok_0 is Remove,
                Ok(Some(session_id)) => result is Ok && result->Ok_0 is Restore
                    && result->Ok_0->Restore_0@ == session_id,
            },
    {
        let name = match name {
            Some(name) => name,
            None => {
                return Err(invalid_data("delete staging entry name is invalid"));
            },
        };
        let session_id = match cut_at(name.as_str(), '.') {
            Some(session_id) => session_id,
            None => {
                return Err(invalid_data("delete staging entry name is invalid"));
            },
        };
        if !is_path_component(session_id.as_str()) {
            return Err(invalid_input("session id is not a directory name"));
        }
        proof {
            first_is_found(self.sessions@, is_session(session_id@));
        }
        if self.session_place(&session_id).is_none() {
            return Ok(StagedDeletion::Remove);
        }
        if target_exists {
            return Err(invalid_data("delete recovery found duplicate session directories"));
        }
        Ok(StagedDeletion::Restore(session_id))
    }
}

/// A directory that was set aside is recognised: before the tables forget the session it goes back,
/// and after that it goes.
pub proof fn staged_directory_is_recognised(
    engine: StorageEngine,
    session_id: Seq<char>,
    operation_id: Seq<char>,
)
    requires
        path_component(session_id),
        !session_id.contains('.'),
    ensures
        staged_outcome(engine, Some(staging_name(session_id, operation_id)), false) == Ok::<
            _,
            Refusal,
        >(
            if some_row(engine.sessions@, is_session(session_id)) {
                Some(session_id)
            } else {
                None
            },
        ),
{
    reveal_strlit(".");
    assert("."@ =~= seq!['.']);
    assert(staging_name(session_id, operation_id) =~= session_id.push('.') + operation_id);
    cut_of_joined(session_id, '.', operation_id);
}

/// A deleted session is gone.
pub proof fn deleted_session_is_gone(
    before: StorageEngine,
    after: StorageEngine,
    session_id: Seq<char>,
)
    requires
        session_deleted(before, after, session_id),
    ensures
        !some_row(after.sessions@, is_session(session_id)),
{
    let cut = choose|cut: StorageEngine| #[trigger]
        inputs_removed(before, cut, inputs_of(before.inputs@, session_id)) && session_forgotten(
            cut,
            after,
            session_id,
        );
    kept_rows(cut.sessions@, session_elsewhere(session_id));
    let rows = after.sessions@;
    assert forall|i: int| 0 <= i < rows.len() implies !is_session(session_id)(
        #[trigger] rows[i],
    ) by {
        assert(session_elsewhere(session_id)(rows[i]));
    }
}

} // verus!
