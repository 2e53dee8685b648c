//! Appends that survive interruption, and bodies that are replaced as a whole.
//!
//! An append is first announced in a table, then written to its body, and last entered in the
//! tables. Wherever it stops, it can be taken up again from the announcement.

use std::sync::Arc;
use vstd::prelude::*;

use crate::append_effect::{
    owner_of, purpose_applied, purpose_refusal, purpose_tables, session_of, AppendPurpose,
    ConversationStorageTarget, PurposeTables, SettlementTables, StagedAppend,
};
use crate::conversation::{
    batch_messages, batch_records, candidate_refusal, conversation_of, copied_bytes, decode,
    encodable, encode_messages, framed, known_message, message_of, messages_of, one_line,
    reconcile_append, reconciled, validate_candidate, RecordedMessage,
};
use crate::engine::{
    bodies, body_place, conversation_at, current_conversation, generation_of, is_child, is_session,
    path_component, path_of, remove_body, session_body_path, write_body, StorageEngine,
};
use crate::error::{
    conflict, conflicting, corrupt, failed, internal_error, invalid_data, invalid_input, malformed,
    outcome_of, Refusal, StorageResult,
};
use crate::message::{held, key_of, message_id, share, ConversationMessage, Messages};
use crate::numbers::{to_i64, STORED_MAX};
use crate::order::{is_order, ordered, SortKey};
use crate::recall::heads_after_switch;
use crate::rows::{ChildTaskRow, ConversationOwner, RunMessageRef, SessionRow};
use crate::table::{
    any, first, first_after_update, first_is_found, keep, kept, position, selected, some_row,
};
use crate::text::{add_text, blank, is_blank, with_text};
use crate::usage::{
    apply_plan, plan_requests, reported_requests, requests_of, with_requests, UsagePlan,
    UsageTables,
};

verus! {

/// Which appends are meant: those of sessions or those of delegated tasks.
#[derive(Clone, Copy, Debug, PartialEq, Eq, Structural)]
pub enum AppendTable {
    Session,
    ChildTask,
}

/// Messages that a run adds to its session.
#[derive(Debug)]
pub struct AppendRequest {
    pub operation_id: String,
    pub session_id: String,
    pub run_id: String,
    pub messages: Vec<Arc<RecordedMessage>>,
    pub message_step: Option<u32>,
    pub created_at_ms: i64,
}

/// Messages that a delegated task adds to its own conversation.
#[derive(Debug)]
pub struct ChildAppendRequest {
    pub operation_id: String,
    pub child_task_id: String,
    pub session_id: String,
    pub messages: Vec<Arc<RecordedMessage>>,
    pub message_step: Option<u32>,
    pub created_at_ms: i64,
    pub purpose: AppendPurpose,
}

/// The announced appends of a table.
pub open spec fn appends(engine: StorageEngine, table: AppendTable) -> Seq<Arc<StagedAppend>> {
    match table {
        AppendTable::Session => engine.body_appends@,
        AppendTable::ChildTask => engine.child_body_appends@,
    }
}

/// The table that announces the appends to a target.
pub open spec fn table_of(target: ConversationStorageTarget) -> AppendTable {
    match target {
        ConversationStorageTarget::Session { .. } => AppendTable::Session,
        ConversationStorageTarget::ChildTask { .. } => AppendTable::ChildTask,
    }
}

/// The condition of being an append.
pub open spec fn is_append(operation_id: Seq<char>) -> spec_fn(Arc<StagedAppend>) -> bool {
    |row: Arc<StagedAppend>| row.operation_id@ == operation_id
}

/// The condition of being another append.
pub open spec fn is_other_append(operation_id: Seq<char>) -> spec_fn(Arc<StagedAppend>) -> bool {
    |row: Arc<StagedAppend>| row.operation_id@ != operation_id
}

/// The messages that the records of a batch stand for once the engine knows the batch.
pub open spec fn resolved(known: Seq<Arc<RecordedMessage>>, batch: Seq<Arc<RecordedMessage>>) -> Seq<
    Arc<ConversationMessage>,
> {
    batch.map_values(|entry: Arc<RecordedMessage>| message_of(known + batch, entry.record@)->0)
}

pub proof fn message_of_joined(
    left: Seq<Arc<RecordedMessage>>,
    right: Seq<Arc<RecordedMessage>>,
    record: Seq<u8>,
)
    ensures
        message_of(left + right, record) == if message_of(left, record) is Some {
            message_of(left, record)
        } else {
            message_of(right, record)
        },
    decreases left.len(),
{
    if left.len() == 0 {
        assert(left + right =~= right);
    } else {
        message_of_joined(left.drop_first(), right, record);
        assert((left + right).drop_first() =~= left.drop_first() + right);
        assert((left + right)[0] == left[0]);
    }
}

pub proof fn message_of_entry(known: Seq<Arc<RecordedMessage>>, i: int)
    requires
        0 <= i < known.len(),
    ensures
        message_of(known, known[i].record@) is Some,
    decreases known.len(),
{
    if i > 0 && known[0].record@ != known[i].record@ {
        assert(known.drop_first()[i - 1] == known[i]);
        message_of_entry(known.drop_first(), i - 1);
    }
}

/// Once a batch is known, its records are read as the batch resolves them.
pub proof fn resolved_batch_is_read(known: Seq<Arc<RecordedMessage>>, batch: Seq<Arc<RecordedMessage>>)
    ensures
        messages_of(known + batch, batch_records(batch)) == Some(resolved(known, batch)),
{
    resolved_prefix_is_read(known, batch, batch.len() as int);
    assert(batch_records(batch).take(batch.len() as int) =~= batch_records(batch));
    assert(resolved(known, batch).take(batch.len() as int) =~= resolved(known, batch));
}

proof fn resolved_prefix_is_read(
    known: Seq<Arc<RecordedMessage>>,
    batch: Seq<Arc<RecordedMessage>>,
    n: int,
)
    requires
        0 <= n <= batch.len(),
    ensures
        messages_of(known + batch, batch_records(batch).take(n)) == Some(
            resolved(known, batch).take(n),
        ),
    decreases n,
{
    let records = batch_records(batch);
    let all = resolved(known, batch);
    if n == 0 {
        assert(all.take(0) =~= Seq::empty());
    } else {
        resolved_prefix_is_read(known, batch, n - 1);
        assert(records.take(n).drop_last() =~= records.take(n - 1));
        assert(records.take(n).last() == batch[n - 1].record@);
        assert((known + batch)[known.len() + n - 1] == batch[n - 1]);
        message_of_entry(known + batch, known.len() + n - 1);
        assert(all.take(n) =~= all.take(n - 1).push(all[n - 1]));
    }
}

/// A batch of records that are new to the engine resolves to its own messages.
pub proof fn new_batch_resolves_to_itself(
    known: Seq<Arc<RecordedMessage>>,
    batch: Seq<Arc<RecordedMessage>>,
)
    requires
        forall|i: int|
            0 <= i < batch.len() ==> message_of(known, (#[trigger] batch[i]).record@) is None,
        forall|i: int, j: int|
            0 <= i < j < batch.len() ==> (#[trigger] batch[i]).record@ != (
            #[trigger] batch[j]).record@,
    ensures
        resolved(known, batch) == batch_messages(batch),
{
    assert forall|i: int| 0 <= i < batch.len() implies #[trigger] resolved(known, batch)[i]
        == batch_messages(batch)[i] by {
        message_of_joined(known, batch, batch[i].record@);
        distinct_record_is_found(batch, i);
    }
    assert(resolved(known, batch) =~= batch_messages(batch));
}

proof fn distinct_record_is_found(batch: Seq<Arc<RecordedMessage>>, i: int)
    requires
        0 <= i < batch.len(),
        forall|k: int, j: int|
            0 <= k < j < batch.len() ==> (#[trigger] batch[k]).record@ != (
            #[trigger] batch[j]).record@,
    ensures
        message_of(batch, batch[i].record@) == Some(batch[i].message),
    decreases batch.len(),
{
    if i > 0 {
        let rest = batch.drop_first();
        assert(batch[0].record@ != batch[i].record@);
        assert(rest[i - 1] == batch[i]);
        assert forall|k: int, j: int| 0 <= k < j < rest.len() implies (#[trigger] rest[k]).record@
            != (#[trigger] rest[j]).record@ by {
            assert(rest[k] == batch[k + 1]);
            assert(rest[j] == batch[j + 1]);
        }
        distinct_record_is_found(rest, i - 1);
    }
}

/// The batch with each message replaced by the one its record is known for.
fn resolve(known: &Vec<Arc<RecordedMessage>>, batch: Vec<Arc<RecordedMessage>>) -> (result: Vec<
    Arc<RecordedMessage>,
>)
    ensures
        batch_records(result@) == batch_records(batch@),
        batch_messages(result@) == resolved(known@, batch@),
        forall|record: Seq<u8>| #[trigger]
            message_of(known@ + result@, record) == message_of(known@ + batch@, record),
{
    let mut result: Vec<Arc<RecordedMessage>> = Vec::new();
    let mut i: usize = 0;
    while i < batch.len()
        invariant
            i <= batch@.len(),
            result@.len() == i,
            forall|k: int|
                0 <= k < i ==> (#[trigger] result@[k]).record@ == batch@[k].record@
                    && result@[k].message == resolved(known@, batch@)[k],
        decreases batch@.len() - i,
    {
        proof {
            message_of_joined(known@, batch@, batch@[i as int].record@);
            message_of_entry(batch@, i as int);
        }
        let record = &batch[i].record;
        let message = match known_message(known, record) {
            Some(message) => message,
            None => match known_message(&batch, record) {
                Some(message) => message,
                None => share(&batch[i].message),
            },
        };
        result.push(Arc::new(RecordedMessage { record: copied_bytes(record), message }));
        i += 1;
    }
    proof {
        assert(batch_records(result@) =~= batch_records(batch@));
        assert(batch_messages(result@) =~= resolved(known@, batch@));
        assert forall|record: Seq<u8>| #[trigger]
            message_of(known@ + result@, record) == message_of(known@ + batch@, record) by {
            message_of_joined(known@, result@, record);
            message_of_joined(known@, batch@, record);
            if message_of(known@, record) is None {
                assert(batch@.skip(0) =~= batch@);
                assert(result@.skip(0) =~= result@);
                resolved_entries_agree(known@, batch@, result@, 0, record);
            }
        }
    }
    result
}

proof fn resolved_entries_agree(
    known: Seq<Arc<RecordedMessage>>,
    batch: Seq<Arc<RecordedMessage>>,
    result: Seq<Arc<RecordedMessage>>,
    from: int,
    record: Seq<u8>,
)
    requires
        0 <= from <= batch.len(),
        result.len() == batch.len(),
        message_of(known, record) is None,
        message_of(batch, record) == message_of(batch.skip(from), record),
        forall|k: int|
            0 <= k < batch.len() ==> (#[trigger] result[k]).record@ == batch[k].record@
                && result[k].message == resolved(known, batch)[k],
    ensures
        message_of(result.skip(from), record) == message_of(batch.skip(from), record),
    decreases batch.len() - from,
{
    if from < batch.len() {
        assert(batch.skip(from).drop_first() =~= batch.skip(from + 1));
        assert(result.skip(from).drop_first() =~= result.skip(from + 1));
        assert(batch.skip(from)[0] == batch[from]);
        assert(result.skip(from)[0] == result[from]);
        if batch[from].record@ == record {
            message_of_joined(known, batch, record);
        } else {
            resolved_entries_agree(known, batch, result, from + 1, record);
        }
    }
}

/// Why an append cannot be announced.
pub open spec fn staging_refusal(
    engine: StorageEngine,
    operation_id: Seq<char>,
    target: ConversationStorageTarget,
    batch: Seq<Arc<RecordedMessage>>,
) -> Option<Refusal> {
    if blank(operation_id) || batch.len() == 0 {
        Some(malformed("staged conversation append is invalid"@))
    } else {
        match current_conversation(engine, target) {
            Err(error) => Some(error),
            Ok(current) => {
                let generation = generation_of(engine, target)->Ok_0;
                let path = path_of(engine, target, generation)->Ok_0;
                if candidate_refusal(current, resolved(engine.known@, batch)) is Some {
                    candidate_refusal(current, resolved(engine.known@, batch))
                } else if !encodable(batch) {
                    Some(malformed("conversation message could not be encoded"@))
                } else if generation > STORED_MAX {
                    Some(malformed("body generation exceeds SQLite range"@))
                } else if bodies(engine.files@)[path].len() > STORED_MAX {
                    Some(malformed("conversation file exceeds SQLite range"@))
                } else if batch.len() > STORED_MAX {
                    Some(malformed("message count exceeds SQLite range"@))
                } else if some_row(appends(engine, table_of(target)), is_append(operation_id)) {
                    Some(conflicting("conversation append could not be staged"@))
                } else {
                    None
                }
            },
        }
    }
}

/// The announcement of an append: to the body that counts, behind what it holds now.
pub open spec fn announces(
    row: StagedAppend,
    engine: StorageEngine,
    operation_id: String,
    target: ConversationStorageTarget,
    batch: Seq<Arc<RecordedMessage>>,
    message_step: Option<u32>,
    created_at_ms: i64,
    purpose: AppendPurpose,
) -> bool {
    let generation = generation_of(engine, target)->Ok_0;
    let path = path_of(engine, target, generation)->Ok_0;
    &&& row.operation_id == operation_id
    &&& row.target == target
    &&& row.body_generation == generation
    &&& row.base_byte_length == bodies(engine.files@)[path].len()
    &&& row.payload@ == framed(batch_records(batch))
    &&& row.message_count_delta == batch.len()
    &&& row.message_step == message_step
    &&& row.created_at_ms == created_at_ms
    &&& *row.purpose == purpose
}

/// The engine with an append announced, and its records known.
pub open spec fn staged(
    before: StorageEngine,
    after: StorageEngine,
    operation_id: String,
    target: ConversationStorageTarget,
    batch: Seq<Arc<RecordedMessage>>,
    message_step: Option<u32>,
    created_at_ms: i64,
    purpose: AppendPurpose,
) -> bool {
    &&& after == (StorageEngine {
        known: after.known,
        body_appends: after.body_appends,
        child_body_appends: after.child_body_appends,
        ..before
    })
    &&& forall|record: Seq<u8>| #[trigger]
        message_of(after.known@, record) == message_of(before.known@ + batch, record)
    &&& appends(after, table_of(target)).len() == appends(before, table_of(target)).len() + 1
    &&& appends(after, table_of(target)).drop_last() == appends(before, table_of(target))
    &&& announces(
        *appends(after, table_of(target)).last(),
        before,
        operation_id,
        target,
        batch,
        message_step,
        created_at_ms,
        purpose,
    )
    &&& table_of(target) is Session ==> after.child_body_appends == before.child_body_appends
    &&& table_of(target) is ChildTask ==> after.body_appends == before.body_appends
}

impl StorageEngine {
    /// Announces an append of the messages of a run.
    pub fn stage_append_for(&mut self, request: AppendRequest, purpose: AppendPurpose) -> (result:
        StorageResult<()>)
        ensures
            ({
                let target = ConversationStorageTarget::Session {
                    session_id: request.session_id,
                    run_id: request.run_id,
                };
                match staging_refusal(
                    *old(self),
                    request.operation_id@,
                    target,
                    request.messages@,
                ) {
                    Some(error) => {
                        &&& result is Err && result->Err_0@ == error
                        &&& *final(self) == *old(self)
                    },
                    None => result is Ok && staged(
                        *old(self),
                        *final(self),
                        request.operation_id,
                        target,
                        request.messages@,
                        request.message_step,
                        request.created_at_ms,
                        purpose,
                    ),
                }
            }),
    {
        self.stage_target_append(
            request.operation_id,
            ConversationStorageTarget::Session {
                session_id: request.session_id,
                run_id: request.run_id,
            },
            request.messages,
            request.message_step,
            request.created_at_ms,
            purpose,
        )
    }

    /// Announces an append: from now on it will be completed, even across a restart.
    pub fn stage_target_append(
        &mut self,
        operation_id: String,
        target: ConversationStorageTarget,
        messages: Vec<Arc<RecordedMessage>>,
        message_step: Option<u32>,
        created_at_ms: i64,
        purpose: AppendPurpose,
    ) -> (result: StorageResult<()>)
        ensures
            match staging_refusal(*old(self), operation_id@, target, messages@) {
                Some(error) => {
                    &&& result is Err && result->Err_0@ == error
                    &&& *final(self) == *old(self)
                },
                None => result is Ok && staged(
                    *old(self),
                    *final(self),
                    operation_id,
                    target,
                    messages@,
                    message_step,
                    created_at_ms,
                    purpose,
                ),
            },
    {
        if is_blank(operation_id.as_str()) || messages.len() == 0 {
            return Err(invalid_input("staged conversation append is invalid"));
        }
        let ghost given = messages@;
        let generation: u64 = match self.target_generation(&target) {
            Ok(generation) => generation,
            Err(error) => {
                return Err(error);
            },
        };
        let current = match self.read_conversation(&target, generation) {
            Ok(current) => current,
            Err(error) => {
                return Err(error);
            },
        };
        let mut batch = resolve(&self.known, messages);
        match validate_candidate(&current, &batch) {
            Ok(_) => {},
            Err(error) => {
                return Err(error);
            },
        }
        proof {
            assert forall|i: int| 0 <= i < given.len() implies given[i].record@
                == (#[trigger] batch@[i]).record@ by {
                assert(batch_records(batch@)[i] == batch_records(given)[i]);
            }
            assert(batch@.len() == given.len()) by {
                assert(batch_records(batch@).len() == batch_records(given).len());
            }
            assert(encodable(batch@) == encodable(given)) by {
                if encodable(given) {
                    assert forall|i: int| 0 <= i < batch@.len() implies one_line(
                        (#[trigger] batch@[i]).record@,
                    ) by {
                        assert(one_line(given[i].record@));
                    }
                }
                if encodable(batch@) {
                    assert forall|i: int| 0 <= i < given.len() implies one_line(
                        (#[trigger] given[i]).record@,
                    ) by {
                        assert(one_line(batch@[i].record@));
                    }
                }
            }
        }
        let payload = match encode_messages(&batch) {
            Ok(payload) => payload,
            Err(error) => {
                return Err(error);
            },
        };
        let path = match self.target_body_path(&target, generation) {
            Ok(path) => path,
            Err(error) => {
                return Err(error);
            },
        };
        let base_byte_length: u64 = match body_place(&self.files, &path) {
            Some(place) => self.files[place].bytes.len() as u64,
            None => {
                return Err(internal_error("conversation body could not be read"));
            },
        };
        let message_count_delta: u64 = batch.len() as u64;
        match to_i64(generation, "body generation exceeds SQLite range") {
            Ok(_) => {},
            Err(error) => {
                return Err(error);
            },
        }
        match to_i64(base_byte_length, "conversation file exceeds SQLite range") {
            Ok(_) => {},
            Err(error) => {
                return Err(error);
            },
        }
        match to_i64(message_count_delta, "message count exceeds SQLite range") {
            Ok(_) => {},
            Err(error) => {
                return Err(error);
            },
        }
        if self.is_staged(&operation_id, &target) {
            return Err(conflict("conversation append could not be staged"));
        }
        let row = Arc::new(
            StagedAppend {
                operation_id,
                target,
                body_generation: generation,
                base_byte_length,
                payload,
                message_count_delta,
                message_step,
                created_at_ms,
                purpose: Arc::new(purpose),
            },
        );
        self.known.append(&mut batch);
        match &row.target {
            ConversationStorageTarget::Session { session_id, run_id } => {
                self.body_appends.push(share(&row));
                proof {
                    assert(self.body_appends@.drop_last() =~= old(self).body_appends@);
                }
            },
            ConversationStorageTarget::ChildTask { session_id, child_task_id } => {
                self.child_body_appends.push(share(&row));
                proof {
                    assert(self.child_body_appends@.drop_last() =~= old(self).child_body_appends@);
                }
            },
        }
        Ok(())
    }

    fn is_staged(&self, operation_id: &String, target: &ConversationStorageTarget) -> (result: bool)
        ensures
            result == some_row(appends(*self, table_of(*target)), is_append(operation_id@)),
    {
        match target {
            ConversationStorageTarget::Session { session_id, run_id } => any(
                &self.body_appends,
                Ghost(is_append(operation_id@)),
                |row: &Arc<StagedAppend>| -> (same: bool)
                    ensures
                        same == (row.operation_id@ == operation_id@)
                    { row.operation_id == *operation_id },
            ),
            ConversationStorageTarget::ChildTask { session_id, child_task_id } => any(
                &self.child_body_appends,
                Ghost(is_append(operation_id@)),
                |row: &Arc<StagedAppend>| -> (same: bool)
                    ensures
                        same == (row.operation_id@ == operation_id@)
                    { row.operation_id == *operation_id },
            ),
        }
    }
}

/// The announced append, or that there is none.
pub open spec fn announced(engine: StorageEngine, operation_id: Seq<char>, table: AppendTable) -> Result<
    StagedAppend,
    Refusal,
> {
    match first(appends(engine, table), is_append(operation_id)) {
        Some(i) => Ok(*appends(engine, table)[i]),
        None => Err(conflicting("staged append does not exist"@)),
    }
}

/// Why an append does not go to the body that counts.
pub open spec fn generation_refusal(engine: StorageEngine, row: StagedAppend) -> Option<Refusal> {
    match generation_of(engine, row.target) {
        Err(error) => Some(error),
        Ok(generation) => if generation != row.body_generation {
            Some(corrupt("staged append targets a non-authoritative generation"@))
        } else {
            None
        },
    }
}

/// Where an append is written, and the body after it.
pub open spec fn written(engine: StorageEngine, operation_id: Seq<char>, table: AppendTable) -> Result<
    (Seq<char>, Seq<u8>),
    Refusal,
> {
    match announced(engine, operation_id, table) {
        Err(error) => Err(error),
        Ok(row) => if generation_refusal(engine, row) is Some {
            Err(generation_refusal(engine, row)->0)
        } else {
            match path_of(engine, row.target, row.body_generation) {
                Err(error) => Err(error),
                Ok(path) => if !bodies(engine.files@).contains_key(path) {
                    Err(failed("conversation body could not be read"@))
                } else {
                    match reconciled(
                        bodies(engine.files@)[path],
                        row.base_byte_length as nat,
                        row.payload@,
                    ) {
                        Some(bytes) => Ok((path, bytes)),
                        None => Err(corrupt("conversation tail conflicts with staged append"@)),
                    }
                },
            }
        },
    }
}

/// The messages of an announced append.
pub open spec fn payload_messages(engine: StorageEngine, row: StagedAppend) -> Seq<
    Arc<ConversationMessage>,
> {
    conversation_of(engine.known@, row.payload@)->Ok_0
}

/// The run that requests of an append belong to.
pub open spec fn run_of(target: ConversationStorageTarget) -> Option<String> {
    match target {
        ConversationStorageTarget::Session { session_id, run_id } => Some(run_id),
        ConversationStorageTarget::ChildTask { session_id, child_task_id } => None,
    }
}

/// How many messages the conversation of a target has, by its row.
pub open spec fn recorded_count(engine: StorageEngine, target: ConversationStorageTarget) -> u64 {
    match target {
        ConversationStorageTarget::Session { session_id, run_id } => engine.sessions@[first(
            engine.sessions@,
            is_session(session_id@),
        )->0].message_count,
        ConversationStorageTarget::ChildTask { session_id, child_task_id } => {
            engine.child_tasks@[first(
                engine.child_tasks@,
                is_child(session_id@, child_task_id@),
            )->0].message_count
        },
    }
}

/// The usage tables of an engine.
pub open spec fn usage_tables(engine: StorageEngine) -> UsageTables {
    UsageTables { records: engine.request_records@, usage: engine.session_usage@ }
}

/// The usage tables once the messages of an append are accounted for.
pub open spec fn accounted(engine: StorageEngine, row: StagedAppend) -> Result<
    UsageTables,
    Refusal,
> {
    with_requests(
        usage_tables(engine),
        requests_of(
            owner_of(row.target),
            run_of(row.target),
            payload_messages(engine, row),
            row.created_at_ms,
            false,
        ),
    )
}

/// Why an append cannot be entered in the tables.
pub open spec fn finalization_refusal(
    engine: StorageEngine,
    operation_id: Seq<char>,
    table: AppendTable,
) -> Option<Refusal> {
    match announced(engine, operation_id, table) {
        Err(error) => Some(error),
        Ok(row) => if generation_refusal(engine, row) is Some {
            generation_refusal(engine, row)
        } else {
            match conversation_of(engine.known@, row.payload@) {
                Err(error) => Some(error),
                Ok(messages) => if messages.len() != row.message_count_delta {
                    Some(corrupt("staged append message count does not match payload"@))
                } else if recorded_count(engine, row.target) + row.message_count_delta
                    > STORED_MAX {
                    Some(failed("conversation append metadata could not be updated"@))
                } else {
                    match accounted(engine, row) {
                        Err(error) => Some(error),
                        Ok(_) => purpose_refusal(
                            purpose_tables(engine),
                            row.target,
                            *row.purpose,
                        ),
                    }
                },
            }
        },
    }
}

/// The sessions with the messages of an append counted.
pub open spec fn counted_sessions(rows: Seq<SessionRow>, row: StagedAppend) -> Seq<SessionRow> {
    match row.target {
        ConversationStorageTarget::Session { session_id, run_id } => {
            let place = first(rows, is_session(session_id@))->0;
            rows.update(
                place,
                SessionRow {
                    message_count: (rows[place].message_count + row.message_count_delta) as u64,
                    ..rows[place]
                },
            )
        },
        ConversationStorageTarget::ChildTask { session_id, child_task_id } => rows,
    }
}

/// The delegated tasks with the messages of an append counted.
pub open spec fn counted_children(rows: Seq<ChildTaskRow>, row: StagedAppend) -> Seq<
    ChildTaskRow,
> {
    match row.target {
        ConversationStorageTarget::Session { session_id, run_id } => rows,
        ConversationStorageTarget::ChildTask { session_id, child_task_id } => {
            let place = first(rows, is_child(session_id@, child_task_id@))->0;
            rows.update(
                place,
                ChildTaskRow {
                    message_count: (rows[place].message_count + row.message_count_delta) as u64,
                    ..rows[place]
                },
            )
        },
    }
}

/// The references of a run to the messages of an append.
pub open spec fn message_refs(
    target: ConversationStorageTarget,
    messages: Seq<Arc<ConversationMessage>>,
    step: Option<u32>,
) -> Seq<RunMessageRef> {
    match target {
        ConversationStorageTarget::Session { session_id, run_id } => messages.map_values(
            |message: Arc<ConversationMessage>|
                RunMessageRef { run_id, message_id: key_of(*message), step },
        ),
        ConversationStorageTarget::ChildTask { session_id, child_task_id } => Seq::empty(),
    }
}

/// The engine with an append entered in the tables: its messages are counted, referred to and
/// accounted for, its purpose is carried out, and it is no longer announced.
pub open spec fn finalized(
    before: StorageEngine,
    after: StorageEngine,
    row: StagedAppend,
    table: AppendTable,
) -> bool {
    let purpose = purpose_applied(
        purpose_tables(before),
        row.target,
        *row.purpose,
        row.created_at_ms,
    );
    &&& after == (StorageEngine {
        sessions: after.sessions,
        inputs: after.inputs,
        runs: after.runs,
        goals: after.goals,
        pending_exchanges: after.pending_exchanges,
        pending_starts: after.pending_starts,
        child_pending_exchanges: after.child_pending_exchanges,
        child_pending_starts: after.child_pending_starts,
        skill_activations: after.skill_activations,
        child_tasks: after.child_tasks,
        run_message_refs: after.run_message_refs,
        request_records: after.request_records,
        session_usage: after.session_usage,
        body_appends: after.body_appends,
        child_body_appends: after.child_body_appends,
        ..before
    })
    &&& purpose_tables(after) == (PurposeTables {
        settlement: SettlementTables {
            sessions: counted_sessions(purpose.settlement.sessions, row),
            ..purpose.settlement
        },
        ..purpose
    })
    &&& after.child_tasks@ == counted_children(before.child_tasks@, row)
    &&& after.run_message_refs@ == before.run_message_refs@ + message_refs(
        row.target,
        payload_messages(before, row),
        row.message_step,
    )
    &&& Ok::<_, Refusal>(usage_tables(after)) == accounted(before, row)
    &&& appends(after, table) == kept(appends(before, table), is_other_append(row.operation_id@))
    &&& table is Session ==> after.child_body_appends == before.child_body_appends
    &&& table is ChildTask ==> after.body_appends == before.body_appends
}

/// The messages that an append brought into a conversation, behind those that were there.
#[derive(Debug)]
pub struct CommittedBatch {
    pub owner: ConversationOwner,
    pub body_generation: u64,
    pub base_message_ordinal: u64,
    pub messages: Messages,
}

/// The batch that an append brought into a conversation.
pub open spec fn committed(
    batch: CommittedBatch,
    before: StorageEngine,
    row: StagedAppend,
) -> bool {
    &&& batch.owner == owner_of(row.target)
    &&& batch.body_generation == row.body_generation
    &&& batch.base_message_ordinal == recorded_count(before, row.target)
    &&& batch.messages@ == payload_messages(before, row)
}

fn push_refs(
    refs: &mut Vec<RunMessageRef>,
    run_id: &String,
    messages: &Messages,
    step: Option<u32>,
)
    ensures
        final(refs)@ == old(refs)@ + messages@.map_values(
            |message: Arc<ConversationMessage>|
                RunMessageRef { run_id: *run_id, message_id: key_of(*message), step },
        ),
{
    let ghost before = refs@;
    let ghost all = messages@.map_values(
        |message: Arc<ConversationMessage>|
            RunMessageRef { run_id: *run_id, message_id: key_of(*message), step },
    );
    let mut i: usize = 0;
    while i < messages.len()
        invariant
            i <= messages@.len(),
            all == messages@.map_values(
                |message: Arc<ConversationMessage>|
                    RunMessageRef { run_id: *run_id, message_id: key_of(*message), step },
            ),
            refs@ =~= before + all.take(i as int),
        decreases messages@.len() - i,
    {
        refs.push(
            RunMessageRef {
                run_id: run_id.clone(),
                message_id: message_id(&messages[i]).clone(),
                step,
            },
        );
        i += 1;
    }
    proof {
        assert(all.take(all.len() as int) =~= all);
    }
}

proof fn purpose_keeps_session_place(
    tables: PurposeTables,
    target: ConversationStorageTarget,
    purpose: AppendPurpose,
    created_at_ms: i64,
    session_id: Seq<char>,
)
    requires
        purpose_refusal(tables, target, purpose) is None,
    ensures
        first(
            purpose_applied(tables, target, purpose, created_at_ms).settlement.sessions,
            is_session(session_id),
        ) == first(tables.settlement.sessions, is_session(session_id)),
        purpose_applied(tables, target, purpose, created_at_ms).settlement.sessions.len()
            == tables.settlement.sessions.len(),
        forall|i: int|
            0 <= i < tables.settlement.sessions.len() ==> (#[trigger] purpose_applied(
                tables,
                target,
                purpose,
                created_at_ms,
            ).settlement.sessions[i]).message_count
                == tables.settlement.sessions[i].message_count,
{
    match (target, purpose) {
        (
            ConversationStorageTarget::Session { session_id: session, run_id },
            AppendPurpose::RunSettlement(effect),
        ) => {
            let rows = tables.settlement.sessions;
            first_is_found(rows, is_session(session@));
            let place = first(rows, is_session(session@))->0;
            first_after_update(
                rows,
                is_session(session_id),
                place,
                SessionRow { updated_at_ms: created_at_ms, ..rows[place] },
            );
        },
        _ => {},
    }
}

impl StorageEngine {
    /// The announced append of an operation.
    pub fn staged_append(&self, operation_id: &String, table: AppendTable) -> (result:
        StorageResult<Arc<StagedAppend>>)
        ensures
            match announced(*self, operation_id@, table) {
                Ok(row) => result is Ok && *result->Ok_0 == row && row.operation_id@
                    == operation_id@,
                Err(error) => result is Err && result->Err_0@ == error,
            },
    {
        let rows = match table {
            AppendTable::Session => &self.body_appends,
            AppendTable::ChildTask => &self.child_body_appends,
        };
        match position(
            rows,
            Ghost(is_append(operation_id@)),
            |row: &Arc<StagedAppend>| -> (same: bool)
                ensures
                    same == (row.operation_id@ == operation_id@)
                { row.operation_id == *operation_id },
        ) {
            Some(place) => Ok(share(&rows[place])),
            None => Err(conflict("staged append does not exist")),
        }
    }

    /// Whether an append goes to the body that counts.
    pub fn verify_staged_generation(&self, staged: &StagedAppend) -> (result: StorageResult<()>)
        ensures
            match generation_refusal(*self, *staged) {
                Some(error) => result is Err && result->Err_0@ == error,
                None => result is Ok,
            },
    {
        match self.target_generation(&staged.target) {
            Err(error) => Err(error),
            Ok(generation) => {
                if generation != staged.body_generation {
                    Err(invalid_data("staged append targets a non-authoritative generation"))
                } else {
                    Ok(())
                }
            },
        }
    }

    /// Writes the announced append of a session to its body.
    pub fn write_staged_append(&mut self, operation_id: &String) -> (result: StorageResult<()>)
        ensures
            match written(*old(self), operation_id@, AppendTable::Session) {
                Err(error) => {
                    &&& result is Err && result->Err_0@ == error
                    &&& *final(self) == *old(self)
                },
                Ok((path, bytes)) => {
                    &&& result is Ok
                    &&& *final(self) == (StorageEngine { files: final(self).files, ..*old(self) })
                    &&& bodies(final(self).files@) == bodies(old(self).files@).insert(path, bytes)
                },
            },
    {
        self.write_target_append(operation_id, AppendTable::Session)
    }

    /// Writes an announced append to its body, or what is missing of it.
    pub fn write_target_append(&mut self, operation_id: &String, table: AppendTable) -> (result:
        StorageResult<()>)
        ensures
            match written(*old(self), operation_id@, table) {
                Err(error) => {
                    &&& result is Err && result->Err_0@ == error
                    &&& *final(self) == *old(self)
                },
                Ok((path, bytes)) => {
                    &&& result is Ok
                    &&& *final(self) == (StorageEngine { files: final(self).files, ..*old(self) })
                    &&& bodies(final(self).files@) == bodies(old(self).files@).insert(path, bytes)
                },
            },
    {
        let staged = match self.staged_append(operation_id, table) {
            Ok(staged) => staged,
            Err(error) => {
                return Err(error);
            },
        };
        match self.verify_staged_generation(&staged) {
            Ok(_) => {},
            Err(error) => {
                return Err(error);
            },
        }
        let path = match self.target_body_path(&staged.target, staged.body_generation) {
            Ok(path) => path,
            Err(error) => {
                return Err(error);
            },
        };
        let bytes = match body_place(&self.files, &path) {
            Some(place) => match reconcile_append(
                &self.files[place].bytes,
                staged.base_byte_length,
                &staged.payload,
            ) {
                Ok(bytes) => bytes,
                Err(error) => {
                    return Err(error);
                },
            },
            None => {
                return Err(internal_error("conversation body could not be read"));
            },
        };
        write_body(&mut self.files, &path, bytes);
        Ok(())
    }

    /// Enters an append that has reached its body in the tables.
    pub fn finalize_target_append(&mut self, operation_id: &String, table: AppendTable) -> (result:
        StorageResult<CommittedBatch>)
        ensures
            match finalization_refusal(*old(self), operation_id@, table) {
                Some(error) => {
                    &&& result is Err && result->Err_0@ == error
                    &&& *final(self) == *old(self)
                },
                None => {
                    let row = announced(*old(self), operation_id@, table)->Ok_0;
                    &&& result is Ok
                    &&& committed(result->Ok_0, *old(self), row)
                    &&& finalized(*old(self), *final(self), row, table)
                },
            },
    {
        let staged = match self.staged_append(operation_id, table) {
            Ok(staged) => staged,
            Err(error) => {
                return Err(error);
            },
        };
        match self.verify_staged_generation(&staged) {
            Ok(_) => {},
            Err(error) => {
                return Err(error);
            },
        }
        let messages = match decode(&self.known, &staged.payload) {
            Ok(messages) => messages,
            Err(error) => {
                return Err(error);
            },
        };
        if messages.len() as u64 != staged.message_count_delta {
            return Err(invalid_data("staged append message count does not match payload"));
        }
        let (owner, run_id, count, place) = match self.count_place(&staged.target) {
            Ok(found) => found,
            Err(error) => {
                return Err(error);
            },
        };
        if count > STORED_MAX || staged.message_count_delta > STORED_MAX - count {
            return Err(internal_error("conversation append metadata could not be updated"));
        }
        let requests = reported_requests(&owner, &run_id, &messages, staged.created_at_ms, false);
        let plan = match plan_requests(
            &self.request_records,
            &self.session_usage,
            &owner,
            &requests,
        ) {
            Ok(plan) => plan,
            Err(error) => {
                return Err(error);
            },
        };
        match self.check_purpose(&staged.target, &staged.purpose) {
            Ok(_) => {},
            Err(error) => {
                return Err(error);
            },
        }
        self.enter_append(&staged, table, &messages, plan, place);
        Ok(
            CommittedBatch {
                owner,
                body_generation: staged.body_generation,
                base_message_ordinal: count,
                messages,
            },
        )
    }

    fn count_place(&self, target: &ConversationStorageTarget) -> (result: StorageResult<
        (ConversationOwner, Option<String>, u64, usize),
    >)
        ensures
            match generation_of(*self, *target) {
                Err(error) => result is Err && result->Err_0@ == error,
                Ok(_) => {
                    &&& result is Ok
                    &&& result->Ok_0.0 == owner_of(*target)
                    &&& result->Ok_0.1 == run_of(*target)
                    &&& result->Ok_0.2 == recorded_count(*self, *target)
                    &&& match *target {
                        ConversationStorageTarget::Session { session_id, run_id } => {
                            &&& first(self.sessions@, is_session(session_id@)) == Some(
                                result->Ok_0.3 as int,
                            )
                            &&& result->Ok_0.3 < self.sessions@.len()
                        },
                        ConversationStorageTarget::ChildTask { session_id, child_task_id } => {
                            &&& first(
                                self.child_tasks@,
                                is_child(session_id@, child_task_id@),
                            ) == Some(result->Ok_0.3 as int)
                            &&& result->Ok_0.3 < self.child_tasks@.len()
                        },
                    }
                },
            },
    {
        match target {
            ConversationStorageTarget::Session { session_id, run_id } => {
                match self.session_place(session_id) {
                    Some(place) => Ok(
                        (
                            ConversationOwner::MainSession { session_id: session_id.clone() },
                            Some(run_id.clone()),
                            self.sessions[place].message_count,
                            place,
                        ),
                    ),
                    None => Err(conflict("session does not exist")),
                }
            },
            ConversationStorageTarget::ChildTask { session_id, child_task_id } => {
                match self.child_place(session_id, child_task_id) {
                    Some(place) => Ok(
                        (
                            ConversationOwner::ChildTask {
                                session_id: session_id.clone(),
                                child_task_id: child_task_id.clone(),
                            },
                            None,
                            self.child_tasks[place].message_count,
                            place,
                        ),
                    ),
                    None => Err(conflict("child task does not exist")),
                }
            },
        }
    }

    fn enter_append(
        &mut self,
        staged: &Arc<StagedAppend>,
        table: AppendTable,
        messages: &Messages,
        plan: UsagePlan,
        place: usize,
    )
        requires
            messages@ == payload_messages(*old(self), **staged),
            purpose_refusal(
                purpose_tables(*old(self)),
                staged.target,
                *staged.purpose,
            ) is None,
            recorded_count(*old(self), staged.target) + staged.message_count_delta <= STORED_MAX,
            plan.fits(usage_tables(*old(self))),
            accounted(*old(self), **staged) == Ok::<_, Refusal>(
                plan.applied(usage_tables(*old(self))),
            ),
            match staged.target {
                ConversationStorageTarget::Session { session_id, run_id } => {
                    &&& first(old(self).sessions@, is_session(session_id@)) == Some(place as int)
                    &&& place < old(self).sessions@.len()
                },
                ConversationStorageTarget::ChildTask { session_id, child_task_id } => {
                    &&& first(old(self).child_tasks@, is_child(session_id@, child_task_id@))
                        == Some(place as int)
                    &&& place < old(self).child_tasks@.len()
                },
            },
        ensures
            finalized(*old(self), *final(self), **staged, table),
    {
        let ghost before = *self;
        let ghost row: StagedAppend = held(*staged);
        let _ = self.apply_purpose(&staged.target, &staged.purpose, staged.created_at_ms);
        match &staged.target {
            ConversationStorageTarget::Session { session_id, run_id } => {
                proof {
                    purpose_keeps_session_place(
                        purpose_tables(before),
                        row.target,
                        held(row.purpose),
                        row.created_at_ms,
                        session_id@,
                    );
                }
                let ghost rows = self.sessions@;
                self.sessions[place].message_count = self.sessions[place].message_count
                    + staged.message_count_delta;
                proof {
                    assert(self.sessions@ =~= counted_sessions(rows, **staged));
                }
                push_refs(&mut self.run_message_refs, run_id, messages, staged.message_step);
            },
            ConversationStorageTarget::ChildTask { session_id, child_task_id } => {
                self.child_tasks[place].message_count = self.child_tasks[place].message_count
                    + staged.message_count_delta;
                proof {
                    assert(self.child_tasks@ =~= counted_children(before.child_tasks@, **staged));
                    assert(self.run_message_refs@ =~= before.run_message_refs@ + Seq::empty());
                }
            },
        }
        apply_plan(&mut self.request_records, &mut self.session_usage, plan);
        let operation_id = &staged.operation_id;
        match table {
            AppendTable::Session => keep(
                &mut self.body_appends,
                Ghost(is_other_append(operation_id@)),
                |row: &Arc<StagedAppend>| -> (other: bool)
                    ensures
                        other == (row.operation_id@ != operation_id@)
                    { !(row.operation_id == *operation_id) },
            ),
            AppendTable::ChildTask => keep(
                &mut self.child_body_appends,
                Ghost(is_other_append(operation_id@)),
                |row: &Arc<StagedAppend>| -> (other: bool)
                    ensures
                        other == (row.operation_id@ != operation_id@)
                    { !(row.operation_id == *operation_id) },
            ),
        }
    }
}

/// Why an append cannot be completed.
pub open spec fn completion_refusal(
    engine: StorageEngine,
    operation_id: Seq<char>,
    table: AppendTable,
) -> Option<Refusal> {
    match written(engine, operation_id, table) {
        Err(error) => Some(error),
        Ok(_) => finalization_refusal(engine, operation_id, table),
    }
}

/// The engine after an attempt to complete an append. What cannot be written changes nothing; what
/// was written but cannot be entered in the tables leaves no trace but in its body.
pub open spec fn attempted(
    before: StorageEngine,
    after: StorageEngine,
    operation_id: Seq<char>,
    table: AppendTable,
) -> bool {
    match written(before, operation_id, table) {
        Err(_) => after == before,
        Ok((path, bytes)) => {
            let reached = StorageEngine { files: after.files, ..before };
            &&& bodies(after.files@) == bodies(before.files@).insert(path, bytes)
            &&& match finalization_refusal(before, operation_id, table) {
                Some(_) => after == reached,
                None => finalized(
                    reached,
                    after,
                    announced(before, operation_id, table)->Ok_0,
                    table,
                ),
            }
        },
    }
}

/// The condition of belonging to a session, where one is given.
pub open spec fn in_scope(scope: Option<String>) -> spec_fn(Arc<StagedAppend>) -> bool {
    |row: Arc<StagedAppend>|
        scope is None || session_of(row.target)@ == scope->0@
}

/// What announced appends are ordered by.
pub open spec fn append_keys(rows: Seq<Arc<StagedAppend>>) -> Seq<SortKey> {
    rows.map_values(
        |row: Arc<StagedAppend>| SortKey { rank: 0, time: row.created_at_ms, id: row.operation_id },
    )
}

/// Who cannot be used while an append stands incomplete.
pub open spec fn append_owner(target: ConversationStorageTarget) -> String {
    match target {
        ConversationStorageTarget::Session { session_id, run_id } => session_id,
        ConversationStorageTarget::ChildTask { session_id, child_task_id } => child_task_id,
    }
}

/// The owners of the first `n` appends that could not be completed, each once.
pub open spec fn failed_owners(
    rows: Seq<Arc<StagedAppend>>,
    table: AppendTable,
    order: Seq<usize>,
    trace: Seq<StorageEngine>,
    n: int,
) -> Seq<String>
    decreases n,
{
    if n <= 0 {
        Seq::empty()
    } else {
        let earlier = failed_owners(rows, table, order, trace, n - 1);
        let row = rows[order[n - 1] as int];
        if completion_refusal(trace[n - 1], row.operation_id@, table) is Some {
            with_text(earlier, append_owner(row.target))
        } else {
            earlier
        }
    }
}

/// The engine passes from state to state by attempts to complete the appends, earlier ones first.
pub open spec fn completes_in_turn(
    rows: Seq<Arc<StagedAppend>>,
    table: AppendTable,
    order: Seq<usize>,
    trace: Seq<StorageEngine>,
) -> bool {
    &&& is_order(append_keys(rows), order)
    &&& trace.len() == order.len() + 1
    &&& forall|k: int|
        0 <= k < order.len() ==> attempted(
            trace[k],
            trace[k + 1],
            rows[#[trigger] order[k] as int].operation_id@,
            table,
        )
}

/// The engine after every announced append in scope was attempted, and the owners of those that
/// could not be completed.
pub open spec fn appends_recovered(
    before: StorageEngine,
    after: StorageEngine,
    scope: Option<String>,
    table: AppendTable,
    unavailable: Seq<String>,
) -> bool {
    let rows = kept(appends(before, table), in_scope(scope));
    exists|order: Seq<usize>, trace: Seq<StorageEngine>| #[trigger]
        completes_in_turn(rows, table, order, trace) && trace[0] == before && trace.last() == after
            && unavailable == failed_owners(rows, table, order, trace, order.len() as int)
}

fn keys_of(rows: &Vec<Arc<StagedAppend>>) -> (keys: Vec<SortKey>)
    ensures
        keys@ == append_keys(rows@),
{
    let mut keys: Vec<SortKey> = Vec::new();
    let mut i: usize = 0;
    while i < rows.len()
        invariant
            i <= rows@.len(),
            keys@ =~= append_keys(rows@).take(i as int),
        decreases rows@.len() - i,
    {
        keys.push(SortKey { rank: 0, time: rows[i].created_at_ms, id: rows[i].operation_id.clone() });
        i += 1;
    }
    proof {
        assert(append_keys(rows@).take(rows@.len() as int) =~= append_keys(rows@));
    }
    keys
}

impl StorageEngine {
    /// Writes an announced append to its body and enters it in the tables.
    pub fn complete_target_append(&mut self, operation_id: &String, table: AppendTable) -> (result:
        StorageResult<CommittedBatch>)
        ensures
            attempted(*old(self), *final(self), operation_id@, table),
            match completion_refusal(*old(self), operation_id@, table) {
                Some(error) => result is Err && result->Err_0@ == error,
                None => result is Ok && committed(
                    result->Ok_0,
                    *old(self),
                    announced(*old(self), operation_id@, table)->Ok_0,
                ),
            },
    {
        match self.write_target_append(operation_id, table) {
            Ok(_) => {},
            Err(error) => {
                return Err(error);
            },
        }
        let ghost reached = *self;
        let result = self.finalize_target_append(operation_id, table);
        proof {
            assert(reached == (StorageEngine { files: self.files, ..*old(self) }));
        }
        result
    }

    /// Completes the announced append of a session.
    pub fn complete_staged_append(&mut self, operation_id: &String) -> (result: StorageResult<
        CommittedBatch,
    >)
        ensures
            attempted(*old(self), *final(self), operation_id@, AppendTable::Session),
            match completion_refusal(*old(self), operation_id@, AppendTable::Session) {
                Some(error) => result is Err && result->Err_0@ == error,
                None => result is Ok && committed(
                    result->Ok_0,
                    *old(self),
                    announced(*old(self), operation_id@, AppendTable::Session)->Ok_0,
                ),
            },
    {
        self.complete_target_append(operation_id, AppendTable::Session)
    }

    /// How many appends of sessions are announced.
    pub fn staged_append_count(&self) -> (count: u64)
        ensures
            count == self.body_appends@.len(),
    {
        self.body_appends.len() as u64
    }

    #[verifier::spinoff_prover]
    fn recover_appends(&mut self, scope: &Option<String>, table: AppendTable) -> (unavailable: Vec<
        String,
    >)
        ensures
            appends_recovered(*old(self), *final(self), *scope, table, unavailable@),
    {
        let test = |row: &Arc<StagedAppend>| -> (inside: bool)
            ensures
                inside == in_scope(*scope)(*row)
            {
                match scope {
                    None => true,
                    Some(session_id) => match &row.target {
                        ConversationStorageTarget::Session { session_id: session, run_id } => {
                            *session == *session_id
                        },
                        ConversationStorageTarget::ChildTask {
                            session_id: session,
                            child_task_id,
                        } => *session == *session_id,
                    },
                }
            };
        let rows = match table {
            AppendTable::Session => selected(&self.body_appends, Ghost(in_scope(*scope)), test),
            AppendTable::ChildTask => selected(
                &self.child_body_appends,
                Ghost(in_scope(*scope)),
                test,
            ),
        };
        let order = ordered(&keys_of(&rows));
        let mut unavailable: Vec<String> = Vec::new();
        let ghost mut trace: Seq<StorageEngine> = seq![*self];
        let mut i: usize = 0;
        proof {
            reveal(attempts_in_turn);
        }
        while i < order.len()
            invariant
                i <= order@.len(),
                rows@ == kept(appends(*old(self), table), in_scope(*scope)),
                is_order(append_keys(rows@), order@),
                trace.len() == i + 1,
                trace[0] == *old(self),
                trace[i as int] == *self,
                attempts_in_turn(rows@, table, order@, trace),
                unavailable@ == failed_owners(rows@, table, order@, trace, i as int),
            decreases order@.len() - i,
        {
            let ghost before = trace;
            let row = share(&rows[order[i]]);
            let result = self.complete_target_append(&row.operation_id, table);
            proof {
                trace = trace.push(*self);
                turn_is_added(rows@, table, order@, before, *self);
            }
            if result.is_err() {
                let owner = match &row.target {
                    ConversationStorageTarget::Session { session_id, run_id } => session_id,
                    ConversationStorageTarget::ChildTask { session_id, child_task_id } => {
                        child_task_id
                    },
                };
                add_text(&mut unavailable, owner);
            }
            i += 1;
        }
        proof {
            reveal(attempts_in_turn);
            assert(completes_in_turn(rows@, table, order@, trace));
        }
        unavailable
    }

    /// Completes the announced appends of sessions, of one or of all, and names the sessions for
    /// which that failed.
    pub fn recover_body_appends(&mut self, scope: &Option<String>) -> (unavailable: Vec<String>)
        ensures
            appends_recovered(
                *old(self),
                *final(self),
                *scope,
                AppendTable::Session,
                unavailable@,
            ),
    {
        self.recover_appends(scope, AppendTable::Session)
    }

    /// Completes the announced appends of delegated tasks, of one session or of all, and names
    /// the tasks for which that failed.
    pub fn recover_child_body_appends(&mut self, scope: &Option<String>) -> (unavailable: Vec<
        String,
    >)
        ensures
            appends_recovered(
                *old(self),
                *final(self),
                *scope,
                AppendTable::ChildTask,
                unavailable@,
            ),
    {
        self.recover_appends(scope, AppendTable::ChildTask)
    }
}

/// The first attempts of a sequence were made, one behind the other.
#[verifier::opaque]
spec fn attempts_in_turn(
    rows: Seq<Arc<StagedAppend>>,
    table: AppendTable,
    order: Seq<usize>,
    trace: Seq<StorageEngine>,
) -> bool {
    forall|k: int|
        0 <= k < trace.len() - 1 ==> attempted(
            trace[k],
            trace[k + 1],
            rows[#[trigger] order[k] as int].operation_id@,
            table,
        )
}

/// One more attempt behind the others.
proof fn turn_is_added(
    rows: Seq<Arc<StagedAppend>>,
    table: AppendTable,
    order: Seq<usize>,
    trace: Seq<StorageEngine>,
    next: StorageEngine,
)
    requires
        0 < trace.len() <= order.len(),
        attempts_in_turn(rows, table, order, trace),
        attempted(
            trace.last(),
            next,
            rows[order[trace.len() - 1] as int].operation_id@,
            table,
        ),
    ensures
        attempts_in_turn(rows, table, order, trace.push(next)),
        ({
            let n = trace.len() as int;
            let row = rows[order[n - 1] as int];
            let earlier = failed_owners(rows, table, order, trace, n - 1);
            failed_owners(rows, table, order, trace.push(next), n) == if completion_refusal(
                trace.last(),
                row.operation_id@,
                table,
            ) is Some {
                with_text(earlier, append_owner(row.target))
            } else {
                earlier
            }
        }),
{
    reveal(attempts_in_turn);
    let longer = trace.push(next);
    let n = trace.len() as int;
    failed_owners_of_longer_trace(rows, table, order, trace, next, n - 1);
    assert(longer[n - 1] == trace.last());
    assert forall|k: int| 0 <= k < longer.len() - 1 implies attempted(
        longer[k],
        longer[k + 1],
        rows[#[trigger] order[k] as int].operation_id@,
        table,
    ) by {
        assert(longer[k] == trace[k]);
        if k < n - 1 {
            assert(longer[k + 1] == trace[k + 1]);
        }
    }
}

proof fn failed_owners_of_longer_trace(
    rows: Seq<Arc<StagedAppend>>,
    table: AppendTable,
    order: Seq<usize>,
    trace: Seq<StorageEngine>,
    next: StorageEngine,
    n: int,
)
    requires
        0 <= n <= trace.len(),
    ensures
        failed_owners(rows, table, order, trace.push(next), n) == failed_owners(
            rows,
            table,
            order,
            trace,
            n,
        ),
    decreases n,
{
    if n > 0 {
        failed_owners_of_longer_trace(rows, table, order, trace, next, n - 1);
        assert(trace.push(next)[n - 1] == trace[n - 1]);
    }
}

/// The engine after messages were announced and their append attempted.
pub open spec fn append_attempted(
    before: StorageEngine,
    after: StorageEngine,
    operation_id: String,
    target: ConversationStorageTarget,
    batch: Seq<Arc<RecordedMessage>>,
    message_step: Option<u32>,
    created_at_ms: i64,
    purpose: AppendPurpose,
    outcome: Result<CommittedBatch, Refusal>,
) -> bool {
    match staging_refusal(before, operation_id@, target, batch) {
        Some(error) => after == before && outcome == Err::<CommittedBatch, _>(error),
        None => exists|announcing: StorageEngine| #[trigger]
            staged(
                before,
                announcing,
                operation_id,
                target,
                batch,
                message_step,
                created_at_ms,
                purpose,
            ) && attempted(announcing, after, operation_id@, table_of(target)) && match outcome {
                Err(error) => completion_refusal(announcing, operation_id@, table_of(target))
                    == Some(error),
                Ok(batch) => {
                    &&& completion_refusal(announcing, operation_id@, table_of(target)) is None
                    &&& committed(
                        batch,
                        announcing,
                        announced(announcing, operation_id@, table_of(target))->Ok_0,
                    )
                },
            },
    }
}

/// A body that is written beside the one that counts, ready to take its place.
#[derive(Debug)]
pub struct ReplacementPlan {
    pub session_id: String,
    pub previous_generation: u64,
    pub new_generation: u64,
    pub message_count: u64,
    pub changed_at_ms: i64,
}

/// A session as the target of a replacement.
pub open spec fn main_target(session_id: String) -> ConversationStorageTarget {
    ConversationStorageTarget::Session { session_id, run_id: session_id }
}

/// The first generation from `from` on that has no body yet.
pub open spec fn free_generation(
    files: Map<Seq<char>, Seq<u8>>,
    directory: Seq<char>,
    session_id: Seq<char>,
    from: int,
) -> Option<u64>
    decreases u64::MAX - from + 1,
{
    if from > u64::MAX || from < 0 {
        None
    } else if !files.contains_key(session_body_path(directory, session_id, from as u64)) {
        Some(from as u64)
    } else {
        free_generation(files, directory, session_id, from + 1)
    }
}

/// Why a conversation cannot be prepared to replace another.
pub open spec fn replacement_refusal(
    engine: StorageEngine,
    session_id: String,
    batch: Seq<Arc<RecordedMessage>>,
) -> Option<Refusal> {
    if !encodable(batch) {
        Some(malformed("conversation message could not be encoded"@))
    } else {
        match conversation_of(engine.known@ + batch, framed(batch_records(batch))) {
            Err(error) => Some(error),
            Ok(_) => match generation_of(engine, main_target(session_id)) {
                Err(error) => Some(error),
                Ok(generation) => if !path_component(session_id@) {
                    Some(malformed("session id is not a directory name"@))
                } else if free_generation(
                    bodies(engine.files@),
                    engine.sessions_directory@,
                    session_id@,
                    generation + 1,
                ) is None {
                    Some(conflicting("conversation generation is exhausted"@))
                } else {
                    None
                },
            },
        }
    }
}

/// The plan for a replacement.
pub open spec fn planned(
    engine: StorageEngine,
    session_id: String,
    batch: Seq<Arc<RecordedMessage>>,
    changed_at_ms: i64,
) -> ReplacementPlan {
    let generation = generation_of(engine, main_target(session_id))->Ok_0;
    ReplacementPlan {
        session_id,
        previous_generation: generation,
        new_generation: free_generation(
            bodies(engine.files@),
            engine.sessions_directory@,
            session_id@,
            generation + 1,
        )->0,
        message_count: batch.len() as u64,
        changed_at_ms,
    }
}

/// The engine with a replacement written. Nothing that counts has changed.
pub open spec fn replacement_written(
    before: StorageEngine,
    after: StorageEngine,
    session_id: String,
    batch: Seq<Arc<RecordedMessage>>,
    plan: ReplacementPlan,
) -> bool {
    &&& after == (StorageEngine { known: after.known, files: after.files, ..before })
    &&& forall|record: Seq<u8>| #[trigger]
        message_of(after.known@, record) == message_of(before.known@ + batch, record)
    &&& bodies(after.files@) == bodies(before.files@).insert(
        session_body_path(before.sessions_directory@, session_id@, plan.new_generation),
        framed(batch_records(batch)),
    )
}

/// Why a replacement cannot take the place of the body that counts.
pub open spec fn switch_refusal(engine: StorageEngine, plan: ReplacementPlan) -> Option<Refusal> {
    match conversation_at(engine, main_target(plan.session_id), plan.new_generation) {
        Err(error) => Some(error),
        Ok(messages) => if plan.new_generation > STORED_MAX {
            Some(malformed("body generation exceeds SQLite range"@))
        } else if plan.message_count > STORED_MAX {
            Some(malformed("message count exceeds SQLite range"@))
        } else if plan.previous_generation > STORED_MAX {
            Some(malformed("body generation exceeds SQLite range"@))
        } else if generation_of(engine, main_target(plan.session_id)) != Ok::<_, Refusal>(
            plan.previous_generation,
        ) {
            Some(conflicting("conversation generation changed before replacement commit"@))
        } else {
            match with_requests(
                usage_tables(engine),
                requests_of(
                    ConversationOwner::MainSession { session_id: plan.session_id },
                    None,
                    messages,
                    plan.changed_at_ms,
                    false,
                ),
            ) {
                Err(error) => Some(error),
                Ok(_) => None,
            }
        },
    }
}

/// The engine with a replacement in the place of the body that counted, which is gone.
pub open spec fn switched(
    before: StorageEngine,
    after: StorageEngine,
    plan: ReplacementPlan,
) -> bool {
    let place = first(before.sessions@, is_session(plan.session_id@))->0;
    &&& after == (StorageEngine {
        files: after.files,
        sessions: after.sessions,
        request_records: after.request_records,
        session_usage: after.session_usage,
        recall_heads: after.recall_heads,
        ..before
    })
    &&& after.sessions@ == before.sessions@.update(
        place,
        SessionRow {
            body_generation: plan.new_generation,
            message_count: plan.message_count,
            ..before.sessions@[place]
        },
    )
    &&& after.recall_heads@ == heads_after_switch(
        before.recall_heads@,
        ConversationOwner::MainSession { session_id: plan.session_id },
        plan.new_generation,
    )
    &&& Ok::<_, Refusal>(usage_tables(after)) == with_requests(
        usage_tables(before),
        requests_of(
            ConversationOwner::MainSession { session_id: plan.session_id },
            None,
            conversation_at(before, main_target(plan.session_id), plan.new_generation)->Ok_0,
            plan.changed_at_ms,
            false,
        ),
    )
    &&& bodies(after.files@) == bodies(before.files@).remove(
        session_body_path(
            before.sessions_directory@,
            plan.session_id@,
            plan.previous_generation,
        ),
    )
}

impl StorageEngine {
    /// Adds the messages of a run to its session.
    pub fn append_messages(&mut self, request: AppendRequest) -> (result: StorageResult<
        CommittedBatch,
    >)
        ensures
            append_attempted(
                *old(self),
                *final(self),
                request.operation_id,
                ConversationStorageTarget::Session {
                    session_id: request.session_id,
                    run_id: request.run_id,
                },
                request.messages@,
                request.message_step,
                request.created_at_ms,
                AppendPurpose::Messages,
                outcome_of(result),
            ),
    {
        let target = ConversationStorageTarget::Session {
            session_id: request.session_id,
            run_id: request.run_id,
        };
        self.append_to_target(
            request.operation_id,
            target,
            request.messages,
            request.message_step,
            request.created_at_ms,
            AppendPurpose::Messages,
        )
    }

    /// Announces an append of messages and nothing else.
    pub fn stage_append(&mut self, request: AppendRequest) -> (result: StorageResult<()>)
        ensures
            ({
                let target = ConversationStorageTarget::Session {
                    session_id: request.session_id,
                    run_id: request.run_id,
                };
                match staging_refusal(
                    *old(self),
                    request.operation_id@,
                    target,
                    request.messages@,
                ) {
                    Some(error) => {
                        &&& result is Err && result->Err_0@ == error
                        &&& *final(self) == *old(self)
                    },
                    None => result is Ok && staged(
                        *old(self),
                        *final(self),
                        request.operation_id,
                        target,
                        request.messages@,
                        request.message_step,
                        request.created_at_ms,
                        AppendPurpose::Messages,
                    ),
                }
            }),
    {
        self.stage_append_for(request, AppendPurpose::Messages)
    }

    /// Announces an append to a target and attempts it.
    pub fn append_to_target(
        &mut self,
        operation_id: String,
        target: ConversationStorageTarget,
        messages: Vec<Arc<RecordedMessage>>,
        message_step: Option<u32>,
        created_at_ms: i64,
        purpose: AppendPurpose,
    ) -> (result: StorageResult<CommittedBatch>)
        ensures
            append_attempted(
                *old(self),
                *final(self),
                operation_id,
                target,
                messages@,
                message_step,
                created_at_ms,
                purpose,
                outcome_of(result),
            ),
    {
        let operation = operation_id.clone();
        let table = match &target {
            ConversationStorageTarget::Session { session_id, run_id } => AppendTable::Session,
            ConversationStorageTarget::ChildTask { session_id, child_task_id } => {
                AppendTable::ChildTask
            },
        };
        match self.stage_target_append(
            operation_id,
            target,
            messages,
            message_step,
            created_at_ms,
            purpose,
        ) {
            Ok(_) => {},
            Err(error) => {
                return Err(error);
            },
        }
        let ghost announcing = *self;
        let result = self.complete_target_append(&operation, table);
        proof {
            assert(staged(
                *old(self),
                announcing,
                operation_id,
                target,
                messages@,
                message_step,
                created_at_ms,
                purpose,
            ));
        }
        result
    }

    /// Adds messages of a delegated task to its conversation.
    pub fn append_child_messages(&mut self, request: ChildAppendRequest) -> (result: StorageResult<
        CommittedBatch,
    >)
        ensures
            append_attempted(
                *old(self),
                *final(self),
                request.operation_id,
                ConversationStorageTarget::ChildTask {
                    session_id: request.session_id,
                    child_task_id: request.child_task_id,
                },
                request.messages@,
                request.message_step,
                request.created_at_ms,
                request.purpose,
                outcome_of(result),
            ),
    {
        let target = ConversationStorageTarget::ChildTask {
            session_id: request.session_id,
            child_task_id: request.child_task_id,
        };
        self.append_to_target(
            request.operation_id,
            target,
            request.messages,
            request.message_step,
            request.created_at_ms,
            request.purpose,
        )
    }

    /// Writes a conversation beside the one that counts.
    pub fn begin_replacement(
        &mut self,
        session_id: &String,
        messages: Vec<Arc<RecordedMessage>>,
        changed_at_ms: i64,
    ) -> (result: StorageResult<ReplacementPlan>)
        ensures
            match replacement_refusal(*old(self), *session_id, messages@) {
                Some(error) => {
                    &&& result is Err && result->Err_0@ == error
                    &&& *final(self) == *old(self)
                },
                None => {
                    &&& result is Ok
                    &&& result->Ok_0 == planned(
                        *old(self),
                        *session_id,
                        messages@,
                        changed_at_ms,
                    )
                    &&& replacement_written(
                        *old(self),
                        *final(self),
                        *session_id,
                        messages@,
                        result->Ok_0,
                    )
                },
            },
    {
        let ghost given = messages@;
        let payload = match encode_messages(&messages) {
            Ok(payload) => payload,
            Err(error) => {
                return Err(error);
            },
        };
        let message_count: u64 = messages.len() as u64;
        match self.decode_with(&messages, &payload) {
            Ok(_) => {},
            Err(error) => {
                return Err(error);
            },
        }
        let target = ConversationStorageTarget::Session {
            session_id: session_id.clone(),
            run_id: session_id.clone(),
        };
        let previous_generation: u64 = match self.target_generation(&target) {
            Ok(generation) => generation,
            Err(error) => {
                return Err(error);
            },
        };
        match self.session_directory(session_id) {
            Ok(_) => {},
            Err(error) => {
                return Err(error);
            },
        }
        let new_generation: u64 = match self.free_generation_after(session_id, previous_generation) {
            Some(generation) => generation,
            None => {
                return Err(conflict("conversation generation is exhausted"));
            },
        };
        match self.target_body_path(&target, new_generation) {
            Ok(path) => write_body(&mut self.files, &path, payload),
            Err(error) => {
                return Err(error);
            },
        }
        let mut batch = messages;
        self.known.append(&mut batch);
        Ok(
            ReplacementPlan {
                session_id: session_id.clone(),
                previous_generation,
                new_generation,
                message_count,
                changed_at_ms,
            },
        )
    }

    /// The first generation behind `previous` that has no body yet.
    fn free_generation_after(&self, session_id: &String, previous: u64) -> (generation: Option<u64>)
        requires
            path_component(session_id@),
        ensures
            generation == free_generation(
                bodies(self.files@),
                self.sessions_directory@,
                session_id@,
                previous + 1,
            ),
    {
        let target = ConversationStorageTarget::Session {
            session_id: session_id.clone(),
            run_id: session_id.clone(),
        };
        let mut taken: u64 = previous;
        while taken < u64::MAX
            invariant
                target == main_target(*session_id),
                path_component(session_id@),
                free_generation(
                    bodies(self.files@),
                    self.sessions_directory@,
                    session_id@,
                    previous + 1,
                ) == free_generation(
                    bodies(self.files@),
                    self.sessions_directory@,
                    session_id@,
                    taken + 1,
                ),
            decreases u64::MAX - taken,
        {
            match self.target_body_path(&target, taken + 1) {
                Ok(path) => {
                    if body_place(&self.files, &path).is_none() {
                        return Some(taken + 1);
                    }
                },
                Err(_) => {},
            }
            taken = taken + 1;
        }
        None
    }

    /// The conversation in `bytes` once the engine knows a batch.
    pub(crate) fn decode_with(&self, batch: &Vec<Arc<RecordedMessage>>, bytes: &Vec<u8>) -> (result: StorageResult<
        Messages,
    >)
        ensures
            match conversation_of(self.known@ + batch@, bytes@) {
                Ok(messages) => result is Ok && result->Ok_0@ == messages,
                Err(error) => result is Err && result->Err_0@ == error,
            },
    {
        let mut known: Vec<Arc<RecordedMessage>> = Vec::new();
        let mut i: usize = 0;
        while i < self.known.len()
            invariant
                i <= self.known@.len(),
                known@ =~= self.known@.take(i as int),
            decreases self.known@.len() - i,
        {
            known.push(share(&self.known[i]));
            i += 1;
        }
        let mut j: usize = 0;
        while j < batch.len()
            invariant
                j <= batch@.len(),
                known@ =~= self.known@ + batch@.take(j as int),
            decreases batch@.len() - j,
        {
            known.push(share(&batch[j]));
            j += 1;
        }
        proof {
            assert(known@ =~= self.known@ + batch@);
        }
        decode(&known, bytes)
    }

    /// Lets a replacement take the place of the body that counts.
    pub fn commit_replacement(&mut self, plan: &ReplacementPlan) -> (result: StorageResult<()>)
        ensures
            match switch_refusal(*old(self), *plan) {
                Some(error) => {
                    &&& result is Err && result->Err_0@ == error
                    &&& *final(self) == *old(self)
                },
                None => result is Ok && switched(*old(self), *final(self), *plan),
            },
    {
        let target = ConversationStorageTarget::Session {
            session_id: plan.session_id.clone(),
            run_id: plan.session_id.clone(),
        };
        let messages = match self.read_conversation(&target, plan.new_generation) {
            Ok(messages) => messages,
            Err(error) => {
                return Err(error);
            },
        };
        match to_i64(plan.new_generation, "body generation exceeds SQLite range") {
            Ok(_) => {},
            Err(error) => {
                return Err(error);
            },
        }
        match to_i64(plan.message_count, "message count exceeds SQLite range") {
            Ok(_) => {},
            Err(error) => {
                return Err(error);
            },
        }
        match to_i64(plan.previous_generation, "body generation exceeds SQLite range") {
            Ok(_) => {},
            Err(error) => {
                return Err(error);
            },
        }
        let place: usize = match self.session_place(&plan.session_id) {
            Some(place) => place,
            None => {
                return Err(
                    conflict("conversation generation changed before replacement commit"),
                );
            },
        };
        if self.sessions[place].body_generation != plan.previous_generation {
            return Err(conflict("conversation generation changed before replacement commit"));
        }
        let owner = ConversationOwner::MainSession { session_id: plan.session_id.clone() };
        let requests = reported_requests(&owner, &None, &messages, plan.changed_at_ms, false);
        let usage = match plan_requests(
            &self.request_records,
            &self.session_usage,
            &owner,
            &requests,
        ) {
            Ok(usage) => usage,
            Err(error) => {
                return Err(error);
            },
        };
        let old_path = match self.target_body_path(&target, plan.previous_generation) {
            Ok(path) => path,
            Err(error) => {
                return Err(error);
            },
        };
        let ghost rows = self.sessions@;
        self.sessions[place].body_generation = plan.new_generation;
        self.sessions[place].message_count = plan.message_count;
        proof {
            assert(self.sessions@ =~= rows.update(
                place as int,
                SessionRow {
                    body_generation: plan.new_generation,
                    message_count: plan.message_count,
                    ..rows[place as int]
                },
            ));
        }
        apply_plan(&mut self.request_records, &mut self.session_usage, usage);
        self.mark_recall_owner_dirty(&owner, plan.new_generation);
        remove_body(&mut self.files, &old_path);
        Ok(())
    }
}

/// What is read depends on nothing but the messages that records are known for.
pub proof fn equal_knowledge_reads_equal(
    left: Seq<Arc<RecordedMessage>>,
    right: Seq<Arc<RecordedMessage>>,
    records: Seq<Seq<u8>>,
)
    requires
        forall|record: Seq<u8>| #[trigger] message_of(left, record) == message_of(right, record),
    ensures
        messages_of(left, records) == messages_of(right, records),
    decreases records.len(),
{
    if records.len() > 0 {
        equal_knowledge_reads_equal(left, right, records.drop_last());
    }
}

} // verus!
