//! The storage engine: its tables, its conversation bodies, and how they are found.

use std::sync::Arc;
use vstd::prelude::*;

use crate::append_effect::{ConversationStorageTarget, StagedAppend};
use crate::conversation::{conversation_of, decode, RecordedMessage};
use crate::error::{
    conflict, conflicting, failed, internal_error, invalid_input, malformed, Refusal, StorageResult,
};
use crate::keys::{has_one_of_each, is_keyed};
use crate::message::{ConversationMessage, Messages};
use crate::rows::{
    ChildTaskRow, Device, FeedbackRow, HistoryOperationRow, McpSelectionRow, ModelRequestRecord,
    PendingStart, RecallHeadRow, RunMessageRef, RunRow, SessionResources, SessionRow,
    SessionUsageRow, SkillNameState, StoredAttachment, StoredGoal, StoredInput,
    StoredSkillActivation, Workspace,
};
use crate::table::{first, first_is, first_is_found, keep, kept, position};
use crate::text::{characters, decimal, decimal_text, has_prefix, joined, same_text, starts_with};
use crate::tool_exchange::PendingExchange;
use crate::work_plan::StoredWorkPlan;

verus! {

/// A conversation body and where it lies.
#[derive(Debug, PartialEq, Eq)]
pub struct BodyFile {
    pub path: String,
    pub bytes: Vec<u8>,
}

/// The tables and conversation bodies of one runtime.
///
/// Bodies are the authority on what was said; the tables say which body of a session counts, what
/// work is under way and what is still to be written. `known` pairs the records that bodies may
/// hold with the messages they stand for.
#[derive(Debug)]
pub struct StorageEngine {
    pub sessions_directory: String,
    pub deletion_staging_directory: String,
    pub files: Vec<BodyFile>,
    pub known: Vec<Arc<RecordedMessage>>,
    pub sessions: Vec<SessionRow>,
    pub session_resources: Vec<SessionResources>,
    pub workspaces: Vec<Workspace>,
    pub devices: Vec<Device>,
    pub inputs: Vec<StoredInput>,
    pub runs: Vec<RunRow>,
    pub run_message_refs: Vec<RunMessageRef>,
    pub child_tasks: Vec<ChildTaskRow>,
    pub body_appends: Vec<Arc<StagedAppend>>,
    pub child_body_appends: Vec<Arc<StagedAppend>>,
    pub pending_exchanges: Vec<Arc<PendingExchange>>,
    pub child_pending_exchanges: Vec<Arc<PendingExchange>>,
    pub pending_starts: Vec<PendingStart>,
    pub child_pending_starts: Vec<PendingStart>,
    pub history_operations: Vec<HistoryOperationRow>,
    pub work_plans: Vec<Arc<StoredWorkPlan>>,
    pub work_plan_receipts: Vec<Arc<StoredWorkPlan>>,
    pub goals: Vec<StoredGoal>,
    pub session_usage: Vec<SessionUsageRow>,
    pub request_records: Vec<ModelRequestRecord>,
    pub feedback: Vec<FeedbackRow>,
    pub skill_name_states: Vec<SkillNameState>,
    pub skill_activations: Vec<StoredSkillActivation>,
    pub attachments: Vec<StoredAttachment>,
    pub mcp_selections: Vec<McpSelectionRow>,
    pub recall_heads: Vec<RecallHeadRow>,
    pub unavailable_sessions: Vec<String>,
    pub unavailable_child_tasks: Vec<String>,
}

/// The bodies by path; where two files share a path the first one counts.
pub open spec fn bodies(files: Seq<BodyFile>) -> Map<Seq<char>, Seq<u8>>
    decreases files.len(),
{
    if files.len() == 0 {
        Map::empty()
    } else {
        bodies(files.drop_first()).insert(files[0].path@, files[0].bytes@)
    }
}

/// The condition of having a path.
pub open spec fn has_path(path: Seq<char>) -> spec_fn(BodyFile) -> bool {
    |file: BodyFile| file.path@ == path
}

/// The condition of not having a path.
pub open spec fn has_other_path(path: Seq<char>) -> spec_fn(BodyFile) -> bool {
    |file: BodyFile| file.path@ != path
}

/// A path leads to the first file that has it.
proof fn body_is_first(files: Seq<BodyFile>, path: Seq<char>)
    ensures
        match first(files, has_path(path)) {
            Some(i) => 0 <= i < files.len() && bodies(files).contains_key(path)
                && bodies(files)[path] == files[i].bytes@,
            None => !bodies(files).contains_key(path),
        },
    decreases files.len(),
{
    first_is_found(files, has_path(path));
    if files.len() > 0 {
        body_is_first(files.drop_first(), path);
        first_is_found(files.drop_first(), has_path(path));
        match first(files, has_path(path)) {
            Some(i) => {
                if i > 0 {
                    assert(files.drop_first()[i - 1] == files[i]);
                    assert forall|j: int| 0 <= j < i - 1 implies !has_path(path)(
                        #[trigger] files.drop_first()[j],
                    ) by {
                        assert(files.drop_first()[j] == files[j + 1]);
                    }
                    first_is(files.drop_first(), has_path(path), i - 1);
                }
            },
            None => {
                assert(!has_path(path)(files[0]));
                assert forall|j: int| 0 <= j < files.drop_first().len() implies !has_path(path)(
                    #[trigger] files.drop_first()[j],
                ) by {
                    assert(files.drop_first()[j] == files[j + 1]);
                }
            },
        }
    }
}

proof fn bodies_after_update(files: Seq<BodyFile>, i: int, file: BodyFile)
    requires
        0 <= i < files.len(),
        file.path@ == files[i].path@,
        first(files, has_path(file.path@)) == Some(i),
    ensures
        bodies(files.update(i, file)) =~= bodies(files).insert(file.path@, file.bytes@),
    decreases files.len(),
{
    first_is_found(files, has_path(file.path@));
    let rest = files.drop_first();
    if i == 0 {
        assert(files.update(0, file).drop_first() =~= rest);
    } else {
        assert(files.update(i, file).drop_first() =~= rest.update(i - 1, file));
        assert(rest[i - 1] == files[i]);
        assert forall|j: int| 0 <= j < i - 1 implies !has_path(file.path@)(
            #[trigger] rest[j],
        ) by {
            assert(rest[j] == files[j + 1]);
        }
        first_is(rest, has_path(file.path@), i - 1);
        bodies_after_update(rest, i - 1, file);
        assert(files[0].path@ != file.path@) by {
            assert(!has_path(file.path@)(files[0]));
        }
    }
}

proof fn bodies_after_push(files: Seq<BodyFile>, file: BodyFile)
    requires
        !bodies(files).contains_key(file.path@),
    ensures
        bodies(files.push(file)) =~= bodies(files).insert(file.path@, file.bytes@),
    decreases files.len(),
{
    if files.len() == 0 {
        assert(files.push(file).drop_first() =~= files);
    } else {
        assert(files.push(file).drop_first() =~= files.drop_first().push(file));
        bodies_after_push(files.drop_first(), file);
        assert(files.push(file)[0] == files[0]);
    }
}

proof fn bodies_after_removal(files: Seq<BodyFile>, path: Seq<char>)
    ensures
        bodies(kept(files, has_other_path(path))) =~= bodies(files).remove(path),
    decreases files.len(),
{
    let condition = has_other_path(path);
    if files.len() > 0 {
        let rest = files.drop_last();
        bodies_after_removal(rest, path);
        last_file_counts_least(rest, files.last());
        assert(rest.push(files.last()) =~= files);
        if condition(files.last()) {
            last_file_counts_least(kept(rest, condition), files.last());
        }
    }
}

proof fn last_file_counts_least(files: Seq<BodyFile>, file: BodyFile)
    ensures
        bodies(files.push(file)) =~= if bodies(files).contains_key(file.path@) {
            bodies(files)
        } else {
            bodies(files).insert(file.path@, file.bytes@)
        },
    decreases files.len(),
{
    if files.len() == 0 {
        assert(files.push(file).drop_first() =~= files);
    } else {
        assert(files.push(file).drop_first() =~= files.drop_first().push(file));
        last_file_counts_least(files.drop_first(), file);
        assert(files.push(file)[0] == files[0]);
    }
}

/// Keeping files by their path keeps the bodies at those paths.
pub proof fn bodies_after_keeping(
    files: Seq<BodyFile>,
    condition: spec_fn(BodyFile) -> bool,
    path: Seq<char>,
)
    requires
        forall|left: BodyFile, right: BodyFile|
            left.path@ == right.path@ ==> #[trigger] condition(left) == #[trigger] condition(right),
        forall|file: BodyFile| file.path@ == path ==> #[trigger] condition(file),
    ensures
        bodies(kept(files, condition)).contains_key(path) == bodies(files).contains_key(path),
        bodies(files).contains_key(path) ==> bodies(kept(files, condition))[path] == bodies(
            files,
        )[path],
    decreases files.len(),
{
    if files.len() > 0 {
        let rest = files.drop_last();
        bodies_after_keeping(rest, condition, path);
        last_file_counts_least(rest, files.last());
        assert(rest.push(files.last()) =~= files);
        if condition(files.last()) {
            last_file_counts_least(kept(rest, condition), files.last());
        }
    }
}

/// The condition of having none of some paths.
pub open spec fn has_no_path_of(paths: Set<Seq<char>>) -> spec_fn(BodyFile) -> bool {
    |file: BodyFile| !paths.contains(file.path@)
}

/// Dropping the files at some paths drops the bodies there, and no others.
pub proof fn bodies_after_dropping(files: Seq<BodyFile>, paths: Set<Seq<char>>)
    ensures
        bodies(kept(files, has_no_path_of(paths))) =~= bodies(files).remove_keys(paths),
    decreases files.len(),
{
    let condition = has_no_path_of(paths);
    if files.len() > 0 {
        let rest = files.drop_last();
        bodies_after_dropping(rest, paths);
        last_file_counts_least(rest, files.last());
        assert(rest.push(files.last()) =~= files);
        if condition(files.last()) {
            last_file_counts_least(kept(rest, condition), files.last());
        }
    }
}

/// Writes a body, whether or not there was one at the path.
pub fn write_body(files: &mut Vec<BodyFile>, path: &String, bytes: Vec<u8>)
    ensures
        bodies(final(files)@) == bodies(old(files)@).insert(path@, bytes@),
{
    let ghost before = files@;
    proof {
        body_is_first(before, path@);
    }
    match position(
        files,
        Ghost(has_path(path@)),
        |file: &BodyFile| -> (found: bool)
            ensures
                found == (file.path@ == path@)
            { file.path == *path },
    ) {
        Some(i) => {
            let file = BodyFile { path: path.clone(), bytes };
            proof {
                bodies_after_update(before, i as int, file);
            }
            files[i] = file;
        },
        None => {
            let file = BodyFile { path: path.clone(), bytes };
            proof {
                bodies_after_push(before, file);
            }
            files.push(file);
        },
    }
}

/// Removes the body at a path.
pub fn remove_body(files: &mut Vec<BodyFile>, path: &String)
    ensures
        bodies(final(files)@) == bodies(old(files)@).remove(path@),
{
    proof {
        bodies_after_removal(files@, path@);
    }
    keep(
        files,
        Ghost(has_other_path(path@)),
        |file: &BodyFile| -> (other: bool)
            ensures
                other == (file.path@ != path@)
            { !(file.path == *path) },
    );
}

/// The place of the body at a path.
pub fn body_place(files: &Vec<BodyFile>, path: &String) -> (place: Option<usize>)
    ensures
        match place {
            Some(i) => i < files@.len() && bodies(files@).contains_key(path@)
                && bodies(files@)[path@] == files@[i as int].bytes@,
            None => !bodies(files@).contains_key(path@),
        },
{
    proof {
        body_is_first(files@, path@);
    }
    position(
        files,
        Ghost(has_path(path@)),
        |file: &BodyFile| -> (found: bool)
            ensures
                found == (file.path@ == path@)
            { file.path == *path },
    )
}

/// A name that denotes an entry right below a directory.
pub open spec fn path_component(name: Seq<char>) -> bool {
    &&& name.len() > 0
    &&& name != "."@
    &&& name != ".."@
    &&& !name.contains('/')
    &&& !name.contains('\\')
    &&& !name.contains('\0')
}

/// Whether a name denotes an entry right below a directory.
pub fn is_path_component(name: &str) -> (result: bool)
    ensures
        result == path_component(name@),
{
    let characters = characters(name);
    if characters.len() == 0 || same_text(name, ".") || same_text(name, "..") {
        return false;
    }
    let mut i: usize = 0;
    while i < characters.len()
        invariant
            i <= characters@.len(),
            characters@ == name@,
            !name@.take(i as int).contains('/'),
            !name@.take(i as int).contains('\\'),
            !name@.take(i as int).contains('\0'),
        decreases characters@.len() - i,
    {
        let c: char = characters[i];
        if c == '/' || c == '\\' || c == '\0' {
            assert(name@.contains(name@[i as int]));
            return false;
        }
        proof {
            let longer = name@.take(i + 1);
            assert forall|d: char| longer.contains(d) && d != c implies name@.take(
                i as int,
            ).contains(d) by {
                let k = longer.index_of(d);
                assert(name@.take(i as int)[k] == d);
            }
        }
        i += 1;
    }
    proof {
        assert(name@.take(name@.len() as int) =~= name@);
    }
    true
}

/// The directory of a session.
pub open spec fn session_path(directory: Seq<char>, session_id: Seq<char>) -> Seq<char> {
    directory + "/"@ + session_id
}

/// The body of a session at a generation.
pub open spec fn session_body_path(
    directory: Seq<char>,
    session_id: Seq<char>,
    generation: u64,
) -> Seq<char> {
    session_path(directory, session_id) + "/conversation."@ + decimal(generation as nat)
        + ".jsonl"@
}

/// The body of a delegated task at a generation.
pub open spec fn child_body_path(
    directory: Seq<char>,
    session_id: Seq<char>,
    child_task_id: Seq<char>,
    generation: u64,
) -> Seq<char> {
    session_path(directory, session_id) + "/child-tasks/"@ + child_task_id + "/body-"@ + decimal(
        generation as nat,
    ) + ".jsonl"@
}

/// The directory of a delegated task, in front of what lies in it.
pub open spec fn task_directory(
    directory: Seq<char>,
    session_id: Seq<char>,
    child_task_id: Seq<char>,
) -> Seq<char> {
    session_path(directory, session_id) + "/child-tasks/"@ + child_task_id + "/"@
}

/// A path lies in the directory of a delegated task of a list.
pub open spec fn lies_in_a_task(
    directory: Seq<char>,
    session_id: Seq<char>,
    tasks: Seq<String>,
    path: Seq<char>,
) -> bool {
    exists|i: int|
        0 <= i < tasks.len() && has_prefix(
            path,
            task_directory(directory, session_id, (#[trigger] tasks[i])@),
        )
}

/// The paths in the directories of delegated tasks of a list.
pub open spec fn task_paths(
    directory: Seq<char>,
    session_id: Seq<char>,
    tasks: Seq<String>,
) -> Set<Seq<char>> {
    Set::new(|path: Seq<char>| lies_in_a_task(directory, session_id, tasks, path))
}

/// The condition of being a session.
pub open spec fn is_session(session_id: Seq<char>) -> spec_fn(SessionRow) -> bool {
    |row: SessionRow| row.session_id@ == session_id
}

/// The condition of being a task of a session.
pub open spec fn is_child(session_id: Seq<char>, child_task_id: Seq<char>) -> spec_fn(
    ChildTaskRow,
) -> bool {
    |row: ChildTaskRow| row.child_task_id@ == child_task_id && row.session_id@ == session_id
}

/// The condition of being a run of a session.
pub open spec fn is_run(session_id: Seq<char>, run_id: Seq<char>) -> spec_fn(RunRow) -> bool {
    |row: RunRow| row.run_id@ == run_id && row.session_id@ == session_id
}

/// The condition of having a run identifier.
pub open spec fn has_run_id(run_id: Seq<char>) -> spec_fn(RunRow) -> bool {
    |row: RunRow| row.run_id@ == run_id
}

/// The condition of having an input identifier.
pub open spec fn has_input_id(input_id: Seq<char>) -> spec_fn(StoredInput) -> bool {
    |row: StoredInput| row.input_id@ == input_id
}

/// The body generation that counts for a target.
pub open spec fn generation_of(engine: StorageEngine, target: ConversationStorageTarget) -> Result<
    u64,
    Refusal,
> {
    match target {
        ConversationStorageTarget::Session { session_id, run_id } => match first(
            engine.sessions@,
            is_session(session_id@),
        ) {
            Some(i) => Ok(engine.sessions@[i].body_generation),
            None => Err(conflicting("session does not exist"@)),
        },
        ConversationStorageTarget::ChildTask { session_id, child_task_id } => match first(
            engine.child_tasks@,
            is_child(session_id@, child_task_id@),
        ) {
            Some(i) => Ok(engine.child_tasks@[i].body_generation),
            None => Err(conflicting("child task does not exist"@)),
        },
    }
}

/// The path of a target's body at a generation.
pub open spec fn path_of(
    engine: StorageEngine,
    target: ConversationStorageTarget,
    generation: u64,
) -> Result<Seq<char>, Refusal> {
    match target {
        ConversationStorageTarget::Session { session_id, run_id } => if path_component(
            session_id@,
        ) {
            Ok(session_body_path(engine.sessions_directory@, session_id@, generation))
        } else {
            Err(malformed("session id is not a directory name"@))
        },
        ConversationStorageTarget::ChildTask { session_id, child_task_id } => if !path_component(
            session_id@,
        ) {
            Err(malformed("session id is not a directory name"@))
        } else if !path_component(child_task_id@) {
            Err(malformed("child task id is not a directory name"@))
        } else {
            Ok(
                child_body_path(
                    engine.sessions_directory@,
                    session_id@,
                    child_task_id@,
                    generation,
                ),
            )
        },
    }
}

/// The conversation in the body of a target at a generation.
pub open spec fn conversation_at(
    engine: StorageEngine,
    target: ConversationStorageTarget,
    generation: u64,
) -> Result<Seq<Arc<ConversationMessage>>, Refusal> {
    match path_of(engine, target, generation) {
        Err(error) => Err(error),
        Ok(path) => if bodies(engine.files@).contains_key(path) {
            conversation_of(engine.known@, bodies(engine.files@)[path])
        } else {
            Err(failed("conversation body could not be read"@))
        },
    }
}

/// The conversation that counts for a target.
pub open spec fn current_conversation(
    engine: StorageEngine,
    target: ConversationStorageTarget,
) -> Result<Seq<Arc<ConversationMessage>>, Refusal> {
    match generation_of(engine, target) {
        Err(error) => Err(error),
        Ok(generation) => conversation_at(engine, target, generation),
    }
}

impl StorageEngine {
    /// An engine without any rows.
    pub fn new(sessions_directory: String, deletion_staging_directory: String) -> (engine:
        StorageEngine)
        ensures
            engine.sessions_directory == sessions_directory,
            engine.deletion_staging_directory == deletion_staging_directory,
            engine.files@.len() == 0,
            engine.known@.len() == 0,
            engine.sessions@.len() == 0,
            engine.session_resources@.len() == 0,
            engine.workspaces@.len() == 0,
            engine.devices@.len() == 0,
            engine.inputs@.len() == 0,
            engine.runs@.len() == 0,
            engine.run_message_refs@.len() == 0,
            engine.child_tasks@.len() == 0,
            engine.body_appends@.len() == 0,
            engine.child_body_appends@.len() == 0,
            engine.pending_exchanges@.len() == 0,
            engine.child_pending_exchanges@.len() == 0,
            engine.pending_starts@.len() == 0,
            engine.child_pending_starts@.len() == 0,
            engine.history_operations@.len() == 0,
            engine.work_plans@.len() == 0,
            engine.work_plan_receipts@.len() == 0,
            engine.goals@.len() == 0,
            engine.session_usage@.len() == 0,
            engine.request_records@.len() == 0,
            engine.feedback@.len() == 0,
            engine.skill_name_states@.len() == 0,
            engine.skill_activations@.len() == 0,
            engine.attachments@.len() == 0,
            engine.mcp_selections@.len() == 0,
            engine.recall_heads@.len() == 0,
            engine.unavailable_sessions@.len() == 0,
            engine.unavailable_child_tasks@.len() == 0,
            is_keyed(engine),
    {
        proof {
            reveal(has_one_of_each);
        }
        StorageEngine {
            sessions_directory,
            deletion_staging_directory,
            files: Vec::new(),
            known: Vec::new(),
            sessions: Vec::new(),
            session_resources: Vec::new(),
            workspaces: Vec::new(),
            devices: Vec::new(),
            inputs: Vec::new(),
            runs: Vec::new(),
            run_message_refs: Vec::new(),
            child_tasks: Vec::new(),
            body_appends: Vec::new(),
            child_body_appends: Vec::new(),
            pending_exchanges: Vec::new(),
            child_pending_exchanges: Vec::new(),
            pending_starts: Vec::new(),
            child_pending_starts: Vec::new(),
            history_operations: Vec::new(),
            work_plans: Vec::new(),
            work_plan_receipts: Vec::new(),
            goals: Vec::new(),
            session_usage: Vec::new(),
            request_records: Vec::new(),
            feedback: Vec::new(),
            skill_name_states: Vec::new(),
            skill_activations: Vec::new(),
            attachments: Vec::new(),
            mcp_selections: Vec::new(),
            recall_heads: Vec::new(),
            unavailable_sessions: Vec::new(),
            unavailable_child_tasks: Vec::new(),
        }
    }

    /// The place of a session among the rows.
    pub fn session_place(&self, session_id: &String) -> (place: Option<usize>)
        ensures
            match place {
                Some(i) => i < self.sessions@.len() && first(
                    self.sessions@,
                    is_session(session_id@),
                ) == Some(i as int) && self.sessions@[i as int].session_id@ == session_id@,
                None => first(self.sessions@, is_session(session_id@)) is None,
            },
    {
        position(
            &self.sessions,
            Ghost(is_session(session_id@)),
            |row: &SessionRow| -> (found: bool)
                ensures
                    found == (row.session_id@ == session_id@)
                { row.session_id == *session_id },
        )
    }

    /// The place of a delegated task of a session among the rows.
    pub fn child_place(&self, session_id: &String, child_task_id: &String) -> (place: Option<
        usize,
    >)
        ensures
            match place {
                Some(i) => i < self.child_tasks@.len() && first(
                    self.child_tasks@,
                    is_child(session_id@, child_task_id@),
                ) == Some(i as int),
                None => first(
                    self.child_tasks@,
                    is_child(session_id@, child_task_id@),
                ) is None,
            },
    {
        position(
            &self.child_tasks,
            Ghost(is_child(session_id@, child_task_id@)),
            |row: &ChildTaskRow| -> (found: bool)
                ensures
                    found == (row.child_task_id@ == child_task_id@ && row.session_id@
                        == session_id@)
                { row.child_task_id == *child_task_id && row.session_id == *session_id },
        )
    }

    /// The place of a run of a session among the rows.
    pub fn run_place(&self, session_id: &String, run_id: &String) -> (place: Option<usize>)
        ensures
            match place {
                Some(i) => i < self.runs@.len() && first(
                    self.runs@,
                    is_run(session_id@, run_id@),
                ) == Some(i as int) && self.runs@[i as int].run_id@ == run_id@
                    && self.runs@[i as int].session_id@ == session_id@,
                None => first(self.runs@, is_run(session_id@, run_id@)) is None,
            },
    {
        position(
            &self.runs,
            Ghost(is_run(session_id@, run_id@)),
            |row: &RunRow| -> (found: bool)
                ensures
                    found == (row.run_id@ == run_id@ && row.session_id@ == session_id@)
                { row.run_id == *run_id && row.session_id == *session_id },
        )
    }

    /// The place of an input among the rows.
    pub fn input_place(&self, input_id: &String) -> (place: Option<usize>)
        ensures
            match place {
                Some(i) => i < self.inputs@.len() && first(self.inputs@, has_input_id(input_id@))
                    == Some(i as int) && self.inputs@[i as int].input_id@ == input_id@,
                None => first(self.inputs@, has_input_id(input_id@)) is None,
            },
    {
        position(
            &self.inputs,
            Ghost(has_input_id(input_id@)),
            |row: &StoredInput| -> (found: bool)
                ensures
                    found == (row.input_id@ == input_id@)
                { row.input_id == *input_id },
        )
    }

    /// Drops the bodies in the directories of delegated tasks.
    pub fn remove_task_bodies(&mut self, session_id: &String, tasks: &Vec<String>)
        ensures
            *final(self) == (StorageEngine { files: final(self).files, ..*old(self) }),
            bodies(final(self).files@) == bodies(old(self).files@).remove_keys(
                task_paths(old(self).sessions_directory@, session_id@, tasks@),
            ),
    {
        let mut parent = joined(self.sessions_directory.as_str(), "/");
        parent.append(session_id.as_str());
        parent.append("/child-tasks/");
        let ghost directory = self.sessions_directory@;
        let ghost paths = task_paths(directory, session_id@, tasks@);
        proof {
            bodies_after_dropping(self.files@, paths);
            assert(parent@ =~= session_path(directory, session_id@) + "/child-tasks/"@);
        }
        keep(
            &mut self.files,
            Ghost(has_no_path_of(paths)),
            |file: &BodyFile| -> (stays: bool)
                ensures
                    stays == !paths.contains(file.path@)
                { !is_in_a_task(&file.path, &parent, tasks, Ghost(directory), Ghost(session_id@)) },
        );
    }

    /// The directory of a session.
    pub fn session_directory(&self, session_id: &String) -> (result: StorageResult<String>)
        ensures
            path_component(session_id@) ==> result is Ok && result->Ok_0@ == session_path(
                self.sessions_directory@,
                session_id@,
            ),
            !path_component(session_id@) ==> result is Err && result->Err_0@ == malformed(
                "session id is not a directory name"@,
            ),
    {
        if !is_path_component(session_id.as_str()) {
            return Err(invalid_input("session id is not a directory name"));
        }
        let mut path = self.sessions_directory.clone();
        path.append("/");
        path.append(session_id.as_str());
        Ok(path)
    }

    /// The body generation that counts for a target.
    pub fn target_generation(&self, target: &ConversationStorageTarget) -> (result: StorageResult<
        u64,
    >)
        ensures
            match generation_of(*self, *target) {
                Ok(generation) => result is Ok && result->Ok_0 == generation,
                Err(error) => result is Err && result->Err_0@ == error,
            },
    {
        match target {
            ConversationStorageTarget::Session { session_id, run_id } => {
                match self.session_place(session_id) {
                    Some(i) => Ok(self.sessions[i].body_generation),
                    None => Err(conflict("session does not exist")),
                }
            },
            ConversationStorageTarget::ChildTask { session_id, child_task_id } => {
                match self.child_place(session_id, child_task_id) {
                    Some(i) => Ok(self.child_tasks[i].body_generation),
                    None => Err(conflict("child task does not exist")),
                }
            },
        }
    }

    /// The path of a target's body at a generation.
    pub fn target_body_path(
        &self,
        target: &ConversationStorageTarget,
        generation: u64,
    ) -> (result: StorageResult<String>)
        ensures
            match path_of(*self, *target, generation) {
                Ok(path) => result is Ok && result->Ok_0@ == path,
                Err(error) => result is Err && result->Err_0@ == error,
            },
    {
        match target {
            ConversationStorageTarget::Session { session_id, run_id } => {
                let mut path = match self.session_directory(session_id) {
                    Ok(path) => path,
                    Err(error) => {
                        return Err(error);
                    },
                };
                path.append("/conversation.");
                path.append(decimal_text(generation).as_str());
                path.append(".jsonl");
                Ok(path)
            },
            ConversationStorageTarget::ChildTask { session_id, child_task_id } => {
                let mut path = match self.session_directory(session_id) {
                    Ok(path) => path,
                    Err(error) => {
                        return Err(error);
                    },
                };
                if !is_path_component(child_task_id.as_str()) {
                    return Err(invalid_input("child task id is not a directory name"));
                }
                path.append("/child-tasks/");
                path.append(child_task_id.as_str());
                path.append("/body-");
                path.append(decimal_text(generation).as_str());
                path.append(".jsonl");
                Ok(path)
            },
        }
    }

    /// The conversation in the body of a target at a generation.
    pub fn read_conversation(
        &self,
        target: &ConversationStorageTarget,
        generation: u64,
    ) -> (result: StorageResult<Messages>)
        ensures
            match conversation_at(*self, *target, generation) {
                Ok(messages) => result is Ok && result->Ok_0@ == messages,
                Err(error) => result is Err && result->Err_0@ == error,
            },
    {
        let path = match self.target_body_path(target, generation) {
            Ok(path) => path,
            Err(error) => {
                return Err(error);
            },
        };
        match body_place(&self.files, &path) {
            Some(i) => decode(&self.known, &self.files[i].bytes),
            None => Err(internal_error("conversation body could not be read")),
        }
    }

    /// The conversation that counts for a target.
    pub fn load_target_conversation(&self, target: &ConversationStorageTarget) -> (result:
        StorageResult<Messages>)
        ensures
            match current_conversation(*self, *target) {
                Ok(messages) => result is Ok && result->Ok_0@ == messages,
                Err(error) => result is Err && result->Err_0@ == error,
            },
    {
        match self.target_generation(target) {
            Ok(generation) => self.read_conversation(target, generation),
            Err(error) => Err(error),
        }
    }
}

fn is_in_a_task(
    path: &String,
    parent: &String,
    tasks: &Vec<String>,
    Ghost(directory): Ghost<Seq<char>>,
    Ghost(session_id): Ghost<Seq<char>>,
) -> (result: bool)
    requires
        parent@ == session_path(directory, session_id) + "/child-tasks/"@,
    ensures
        result == lies_in_a_task(directory, session_id, tasks@, path@),
{
    let mut i: usize = 0;
    while i < tasks.len()
        invariant
            i <= tasks@.len(),
            parent@ == session_path(directory, session_id) + "/child-tasks/"@,
            forall|j: int|
                0 <= j < i ==> !has_prefix(
                    path@,
                    task_directory(directory, session_id, (#[trigger] tasks@[j])@),
                ),
        decreases tasks@.len() - i,
    {
        let mut prefix = joined(parent.as_str(), tasks[i].as_str());
        prefix.append("/");
        if starts_with(path.as_str(), prefix.as_str()) {
            assert(has_prefix(
                path@,
                task_directory(directory, session_id, tasks@[i as int]@),
            ));
            return true;
        }
        i += 1;
    }
    false
}

} // verus!
