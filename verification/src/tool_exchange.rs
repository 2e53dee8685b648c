//! Tool exchanges in two phases, for runs and for delegated tasks alike.
//!
//! The calls of an assistant message are recorded before any of them is carried out, and each call
//! is recorded as started before it has an effect. Only with all results at hand do the messages
//! enter the conversation. What a restart interrupts is completed with results that say so.

use std::sync::Arc;
use vstd::prelude::*;

use crate::append_effect::{AppendPurpose, ConversationStorageTarget};
use crate::conversation::RecordedMessage;
use crate::engine::{is_child, is_run, StorageEngine};
use crate::error::{
    conflict, conflicting, corrupt, invalid_data, invalid_input, malformed, outcome_of, Refusal,
    StorageResult,
};
use crate::message::{
    calls_are_paired, distinct, held, share, texts_are_distinct, tool_call_ids, tool_calls,
    tool_exchanges_are_paired, ConversationMessage, Messages, ToolCall,
};
use crate::recovery::{append_attempted, CommittedBatch};
use crate::rows::{ChildTaskStatus, PendingStart, PendingState, StoredSkillActivation};
use crate::run_projection::RunStatus;
use crate::table::{any, first, position, some_row};
use crate::text::{holds_text, listed_texts, texts};

verus! {

/// The run or delegated task that a tool exchange belongs to.
#[derive(Debug, PartialEq, Eq)]
pub enum PendingTarget {
    Run { session_id: String, run_id: String },
    ChildTask { session_id: String, child_task_id: String },
}

/// What the completion of a tool exchange adds to the conversation.
#[derive(Debug, PartialEq, Eq)]
pub struct ReadyExchange {
    pub results: Vec<Arc<RecordedMessage>>,
    pub activation_message: Option<Arc<RecordedMessage>>,
    pub skill_activations: Arc<Vec<StoredSkillActivation>>,
}

/// A tool exchange whose messages are not in the conversation yet.
#[derive(Debug, PartialEq, Eq)]
pub struct PendingExchange {
    pub receipt_id: String,
    pub target: PendingTarget,
    pub assistant: Arc<RecordedMessage>,
    pub ready: Option<Arc<ReadyExchange>>,
    pub state: PendingState,
    pub step: Option<u32>,
    pub created_at_ms: i64,
}

/// Which exchanges are meant: those of runs or those of delegated tasks.
#[derive(Clone, Copy, Debug, PartialEq, Eq, Structural)]
pub enum PendingTable {
    Run,
    ChildTask,
}

/// The calls that a run or delegated task is about to carry out.
#[derive(Debug)]
pub struct NewExchange {
    pub receipt_id: String,
    pub target: PendingTarget,
    pub assistant: Arc<RecordedMessage>,
    pub step: Option<u32>,
    pub created_at_ms: i64,
}

/// The start of one call.
#[derive(Debug)]
pub struct ExecutionStart {
    pub receipt_id: String,
    pub target: PendingTarget,
    pub call_id: String,
    pub started_at_ms: i64,
}

/// The results of an exchange.
#[derive(Debug)]
pub struct CompletedExchange {
    pub operation_id: String,
    pub receipt_id: String,
    pub target: PendingTarget,
    pub ready: Arc<ReadyExchange>,
    pub step: Option<u32>,
    pub completed_at_ms: i64,
}

impl PendingTarget {
    /// The same value once more.
    pub fn copy(&self) -> (copy: PendingTarget)
        ensures
            copy == *self,
    {
        match self {
            PendingTarget::Run { session_id, run_id } => PendingTarget::Run {
                session_id: session_id.clone(),
                run_id: run_id.clone(),
            },
            PendingTarget::ChildTask { session_id, child_task_id } => PendingTarget::ChildTask {
                session_id: session_id.clone(),
                child_task_id: child_task_id.clone(),
            },
        }
    }
}

/// Two names of one run or delegated task.
pub open spec fn same_owner(left: PendingTarget, right: PendingTarget) -> bool {
    match (left, right) {
        (
            PendingTarget::Run { session_id, run_id },
            PendingTarget::Run { session_id: session, run_id: run },
        ) => session_id@ == session@ && run_id@ == run@,
        (
            PendingTarget::ChildTask { session_id, child_task_id },
            PendingTarget::ChildTask { session_id: session, child_task_id: child },
        ) => session_id@ == session@ && child_task_id@ == child@,
        _ => false,
    }
}

fn is_same_owner(left: &PendingTarget, right: &PendingTarget) -> (result: bool)
    ensures
        result == same_owner(*left, *right),
{
    match (left, right) {
        (
            PendingTarget::Run { session_id, run_id },
            PendingTarget::Run { session_id: session, run_id: run },
        ) => *session_id == *session && *run_id == *run,
        (
            PendingTarget::ChildTask { session_id, child_task_id },
            PendingTarget::ChildTask { session_id: session, child_task_id: child },
        ) => *session_id == *session && *child_task_id == *child,
        _ => false,
    }
}

/// The table that holds the exchanges of a target.
pub open spec fn pending_table(target: PendingTarget) -> PendingTable {
    match target {
        PendingTarget::Run { .. } => PendingTable::Run,
        PendingTarget::ChildTask { .. } => PendingTable::ChildTask,
    }
}

/// The conversation that an exchange of a target goes to.
pub open spec fn conversation_target(target: PendingTarget) -> ConversationStorageTarget {
    match target {
        PendingTarget::Run { session_id, run_id } => ConversationStorageTarget::Session {
            session_id,
            run_id,
        },
        PendingTarget::ChildTask { session_id, child_task_id } => {
            ConversationStorageTarget::ChildTask { session_id, child_task_id }
        },
    }
}

/// The exchanges of a table.
pub open spec fn exchanges(engine: StorageEngine, table: PendingTable) -> Seq<
    Arc<PendingExchange>,
> {
    match table {
        PendingTable::Run => engine.pending_exchanges@,
        PendingTable::ChildTask => engine.child_pending_exchanges@,
    }
}

/// The started calls of a table.
pub open spec fn starts(engine: StorageEngine, table: PendingTable) -> Seq<PendingStart> {
    match table {
        PendingTable::Run => engine.pending_starts@,
        PendingTable::ChildTask => engine.child_pending_starts@,
    }
}

/// The condition of being an exchange.
pub open spec fn is_exchange(receipt_id: Seq<char>) -> spec_fn(Arc<PendingExchange>) -> bool {
    |row: Arc<PendingExchange>| row.receipt_id@ == receipt_id
}

/// The condition of being the start of a call.
pub open spec fn is_start(receipt_id: Seq<char>, call_id: Seq<char>) -> spec_fn(
    PendingStart,
) -> bool {
    |row: PendingStart| row.receipt_id@ == receipt_id && row.call_id@ == call_id
}

/// The condition of being the start of a call that the exchange does not have.
pub open spec fn is_stray_start(receipt_id: Seq<char>, ids: Seq<Seq<char>>) -> spec_fn(
    PendingStart,
) -> bool {
    |row: PendingStart| row.receipt_id@ == receipt_id && !ids.contains(row.call_id@)
}

/// The calls of a message; none but an assistant's message has any.
pub open spec fn calls_of(message: ConversationMessage) -> Seq<ToolCall> {
    match message {
        ConversationMessage::Assistant(message) => tool_calls(message.parts@),
        _ => Seq::empty(),
    }
}

/// The identifiers of the calls of a message.
pub open spec fn ids_of(message: ConversationMessage) -> Seq<Seq<char>> {
    calls_of(message).map_values(|call: ToolCall| call.id@)
}

fn call_ids_of(message: &ConversationMessage) -> (ids: Vec<String>)
    ensures
        texts(ids@) == ids_of(*message),
{
    match message {
        ConversationMessage::Assistant(message) => tool_call_ids(message),
        _ => {
            let ids: Vec<String> = Vec::new();
            proof {
                assert(texts(ids@) =~= ids_of(*message));
            }
            ids
        },
    }
}

/// Why the calls of a message cannot be carried out.
pub open spec fn calls_refusal(message: ConversationMessage) -> Option<Refusal> {
    if calls_of(message).len() == 0 {
        Some(malformed("pending assistant message has no tool calls"@))
    } else if !distinct(ids_of(message)) {
        Some(malformed("pending assistant message has duplicate tool calls"@))
    } else {
        None
    }
}

/// Whether the calls of a message can be carried out.
pub fn validate_assistant_calls(message: &ConversationMessage) -> (result: StorageResult<()>)
    ensures
        match calls_refusal(*message) {
            Some(error) => result is Err && result->Err_0@ == error,
            None => result is Ok,
        },
{
    let ids = call_ids_of(message);
    proof {
        assert(texts(ids@).len() == calls_of(*message).len());
    }
    if ids.len() == 0 {
        return Err(invalid_input("pending assistant message has no tool calls"));
    }
    if !texts_are_distinct(&ids) {
        return Err(invalid_input("pending assistant message has duplicate tool calls"));
    }
    Ok(())
}

/// Whether each message carries the result of a tool.
pub open spec fn all_tool_results(results: Seq<Arc<RecordedMessage>>) -> bool {
    forall|i: int| 0 <= i < results.len() ==> *(#[trigger] results[i]).message is Tool
}

/// The messages of recorded messages.
pub open spec fn messages_in(records: Seq<Arc<RecordedMessage>>) -> Seq<Arc<ConversationMessage>> {
    records.map_values(|record: Arc<RecordedMessage>| record.message)
}

/// Why results do not answer the calls of a message.
pub open spec fn exchange_refusal(
    assistant: Arc<RecordedMessage>,
    results: Seq<Arc<RecordedMessage>>,
) -> Option<Refusal> {
    if calls_refusal(*assistant.message) is Some {
        calls_refusal(*assistant.message)
    } else if !all_tool_results(results) || !calls_are_paired(
        messages_in(seq![assistant] + results),
    ) {
        Some(malformed("tool exchange batch is invalid"@))
    } else {
        None
    }
}

/// Whether results answer the calls of a message, one for each.
pub fn validate_exchange(
    assistant: &Arc<RecordedMessage>,
    results: &Vec<Arc<RecordedMessage>>,
) -> (result: StorageResult<()>)
    ensures
        match exchange_refusal(*assistant, results@) {
            Some(error) => result is Err && result->Err_0@ == error,
            None => result is Ok,
        },
{
    match validate_assistant_calls(&assistant.message) {
        Ok(_) => {},
        Err(error) => {
            return Err(error);
        },
    }
    let mut messages: Messages = Vec::new();
    messages.push(share(&assistant.message));
    let mut i: usize = 0;
    let ghost all = messages_in(seq![*assistant] + results@);
    proof {
        assert(all[0] == assistant.message);
    }
    while i < results.len()
        invariant
            i <= results@.len(),
            all == messages_in(seq![*assistant] + results@),
            calls_refusal(*assistant.message) is None,
            messages@ =~= all.take(i + 1),
            forall|k: int| 0 <= k < i ==> *(#[trigger] results@[k]).message is Tool,
        decreases results@.len() - i,
    {
        if !matches!(*results[i].message, ConversationMessage::Tool(_)) {
            assert(!(*results@[i as int].message is Tool));
            return Err(invalid_input("tool exchange batch is invalid"));
        }
        proof {
            assert((seq![*assistant] + results@)[i + 1] == results@[i as int]);
        }
        messages.push(share(&results[i].message));
        i += 1;
    }
    proof {
        assert(messages@ =~= all);
    }
    if !tool_exchanges_are_paired(&messages) {
        return Err(invalid_input("tool exchange batch is invalid"));
    }
    Ok(())
}

/// Why a target cannot begin an exchange.
pub open spec fn target_refusal(engine: StorageEngine, target: PendingTarget) -> Option<Refusal> {
    match target {
        PendingTarget::Run { session_id, run_id } => match first(
            engine.runs@,
            is_run(session_id@, run_id@),
        ) {
            None => Some(conflicting("tool exchange run does not exist"@)),
            Some(i) => if engine.runs@[i].status is Running {
                None
            } else {
                Some(conflicting("run cannot begin a tool exchange"@))
            },
        },
        PendingTarget::ChildTask { session_id, child_task_id } => match first(
            engine.child_tasks@,
            is_child(session_id@, child_task_id@),
        ) {
            None => Some(conflicting("child task does not exist"@)),
            Some(i) => if engine.child_tasks@[i].status is Running {
                None
            } else {
                Some(conflicting("child task cannot begin a tool exchange"@))
            },
        },
    }
}

/// Why an exchange cannot begin.
pub open spec fn begin_refusal(engine: StorageEngine, new: NewExchange) -> Option<Refusal> {
    if calls_refusal(*new.assistant.message) is Some {
        calls_refusal(*new.assistant.message)
    } else if target_refusal(engine, new.target) is Some {
        target_refusal(engine, new.target)
    } else if some_row(
        exchanges(engine, pending_table(new.target)),
        is_exchange(new.receipt_id@),
    ) {
        Some(conflicting("pending tool exchange could not be created"@))
    } else {
        None
    }
}

/// An exchange that has just begun.
pub open spec fn begun(new: NewExchange) -> PendingExchange {
    PendingExchange {
        receipt_id: new.receipt_id,
        target: new.target,
        assistant: new.assistant,
        ready: None,
        state: PendingState::Begun,
        step: new.step,
        created_at_ms: new.created_at_ms,
    }
}

/// The exchange of a receipt, or why it cannot be used.
pub open spec fn loaded(engine: StorageEngine, receipt_id: Seq<char>, table: PendingTable) -> Result<
    PendingExchange,
    Refusal,
> {
    match first(exchanges(engine, table), is_exchange(receipt_id)) {
        None => Err(conflicting("pending tool exchange does not exist"@)),
        Some(i) => {
            let row = held(exchanges(engine, table)[i]);
            if some_row(
                starts(engine, table),
                is_stray_start(receipt_id, ids_of(*row.assistant.message)),
            ) {
                Err(corrupt("pending tool start does not belong to assistant message"@))
            } else {
                Ok(row)
            }
        },
    }
}

/// Why a call cannot be recorded as started.
pub open spec fn start_refusal(
    engine: StorageEngine,
    start: ExecutionStart,
    table: PendingTable,
) -> Option<Refusal> {
    match loaded(engine, start.receipt_id@, table) {
        Err(error) => Some(error),
        Ok(row) => if !same_owner(row.target, start.target) {
            Some(conflicting("tool execution start ownership does not match"@))
        } else if !(row.state is Begun) {
            Some(conflicting("tool execution cannot start after results are ready"@))
        } else if !ids_of(*row.assistant.message).contains(start.call_id@) {
            Some(conflicting("tool execution start does not belong to pending exchange"@))
        } else if some_row(
            starts(engine, table),
            is_start(start.receipt_id@, start.call_id@),
        ) {
            Some(conflicting("tool execution start is already recorded"@))
        } else {
            None
        },
    }
}

/// The calls of an assistant message are recorded, or nothing is.
pub open spec fn exchange_begun(
    before: StorageEngine,
    after: StorageEngine,
    new: NewExchange,
    outcome: Result<(), Refusal>,
) -> bool {
    let table = pending_table(new.target);
    match begin_refusal(before, new) {
        Some(error) => outcome == Err::<(), _>(error) && after == before,
        None => {
            &&& outcome is Ok
            &&& after == (StorageEngine {
                pending_exchanges: after.pending_exchanges,
                child_pending_exchanges: after.child_pending_exchanges,
                ..before
            })
            &&& exchanges(after, table).len() == exchanges(before, table).len() + 1
            &&& exchanges(after, table).drop_last() == exchanges(before, table)
            &&& *exchanges(after, table).last() == begun(new)
            &&& table is Run ==> after.child_pending_exchanges == before.child_pending_exchanges
            &&& table is ChildTask ==> after.pending_exchanges == before.pending_exchanges
        },
    }
}

/// The start of a call is recorded, or nothing is.
pub open spec fn execution_started(
    before: StorageEngine,
    after: StorageEngine,
    start: ExecutionStart,
    table: PendingTable,
    outcome: Result<(), Refusal>,
) -> bool {
    match start_refusal(before, start, table) {
        Some(error) => outcome == Err::<(), _>(error) && after == before,
        None => {
            &&& outcome is Ok
            &&& after == (StorageEngine {
                pending_starts: after.pending_starts,
                child_pending_starts: after.child_pending_starts,
                ..before
            })
            &&& starts(after, table) == starts(before, table).push(
                PendingStart {
                    receipt_id: start.receipt_id,
                    call_id: start.call_id,
                    started_at_ms: start.started_at_ms,
                },
            )
            &&& table is Run ==> after.child_pending_starts == before.child_pending_starts
            &&& table is ChildTask ==> after.pending_starts == before.pending_starts
        },
    }
}

impl StorageEngine {
    /// Records the calls of an assistant message before any of them is carried out.
    pub fn begin_exchange(&mut self, new: NewExchange) -> (result: StorageResult<()>)
        ensures
            exchange_begun(*old(self), *final(self), new, outcome_of(result)),
    {
        match validate_assistant_calls(&new.assistant.message) {
            Ok(_) => {},
            Err(error) => {
                return Err(error);
            },
        }
        match self.ensure_pending_target_running(&new.target) {
            Ok(_) => {},
            Err(error) => {
                return Err(error);
            },
        }
        let receipt_id = &new.receipt_id;
        let rows = match &new.target {
            PendingTarget::Run { session_id, run_id } => &self.pending_exchanges,
            PendingTarget::ChildTask { session_id, child_task_id } => {
                &self.child_pending_exchanges
            },
        };
        if any(
            rows,
            Ghost(is_exchange(receipt_id@)),
            |row: &Arc<PendingExchange>| -> (same: bool)
                ensures
                    same == (row.receipt_id@ == receipt_id@)
                { row.receipt_id == *receipt_id },
        ) {
            return Err(conflict("pending tool exchange could not be created"));
        }
        let row = Arc::new(
            PendingExchange {
                receipt_id: new.receipt_id,
                target: new.target,
                assistant: new.assistant,
                ready: None,
                state: PendingState::Begun,
                step: new.step,
                created_at_ms: new.created_at_ms,
            },
        );
        match &row.target {
            PendingTarget::Run { session_id, run_id } => {
                self.pending_exchanges.push(share(&row));
                proof {
                    assert(self.pending_exchanges@.drop_last() =~= old(self).pending_exchanges@);
                }
            },
            PendingTarget::ChildTask { session_id, child_task_id } => {
                self.child_pending_exchanges.push(share(&row));
                proof {
                    assert(self.child_pending_exchanges@.drop_last() =~= old(
                        self,
                    ).child_pending_exchanges@);
                }
            },
        }
        Ok(())
    }

    fn ensure_pending_target_running(&self, target: &PendingTarget) -> (result: StorageResult<()>)
        ensures
            match target_refusal(*self, *target) {
                Some(error) => result is Err && result->Err_0@ == error,
                None => result is Ok,
            },
    {
        match target {
            PendingTarget::Run { session_id, run_id } => match self.run_place(session_id, run_id) {
                None => Err(conflict("tool exchange run does not exist")),
                Some(place) => if matches!(self.runs[place].status, RunStatus::Running) {
                    Ok(())
                } else {
                    Err(conflict("run cannot begin a tool exchange"))
                },
            },
            PendingTarget::ChildTask { session_id, child_task_id } => match self.child_place(
                session_id,
                child_task_id,
            ) {
                None => Err(conflict("child task does not exist")),
                Some(place) => if matches!(
                    self.child_tasks[place].status,
                    ChildTaskStatus::Running
                ) {
                    Ok(())
                } else {
                    Err(conflict("child task cannot begin a tool exchange"))
                },
            },
        }
    }

    /// The exchange of a receipt.
    pub fn load_pending_exchange(&self, receipt_id: &String, table: PendingTable) -> (result:
        StorageResult<Arc<PendingExchange>>)
        ensures
            match loaded(*self, receipt_id@, table) {
                Ok(row) => result is Ok && *result->Ok_0 == row && row.receipt_id@ == receipt_id@,
                Err(error) => result is Err && result->Err_0@ == error,
            },
    {
        let rows = match table {
            PendingTable::Run => &self.pending_exchanges,
            PendingTable::ChildTask => &self.child_pending_exchanges,
        };
        let begun = match table {
            PendingTable::Run => &self.pending_starts,
            PendingTable::ChildTask => &self.child_pending_starts,
        };
        let place: usize = match position(
            rows,
            Ghost(is_exchange(receipt_id@)),
            |row: &Arc<PendingExchange>| -> (same: bool)
                ensures
                    same == (row.receipt_id@ == receipt_id@)
                { row.receipt_id == *receipt_id },
        ) {
            Some(place) => place,
            None => {
                return Err(conflict("pending tool exchange does not exist"));
            },
        };
        let row = share(&rows[place]);
        let ids = call_ids_of(&row.assistant.message);
        let ghost texts_of_ids = texts(ids@);
        if any(
            begun,
            Ghost(is_stray_start(receipt_id@, texts_of_ids)),
            |start: &PendingStart| -> (stray: bool)
                ensures
                    stray == (start.receipt_id@ == receipt_id@ && !texts(ids@).contains(
                        start.call_id@,
                    ))
                {
                    proof {
                        listed_texts(ids@, start.call_id@);
                    }
                    start.receipt_id == *receipt_id && !holds_text(&ids, start.call_id.as_str())
                },
        ) {
            return Err(invalid_data("pending tool start does not belong to assistant message"));
        }
        Ok(row)
    }

    /// Whether a call is recorded as started.
    pub(crate) fn is_started(&self, receipt_id: &String, call_id: &String, table: PendingTable) -> (result:
        bool)
        ensures
            result == some_row(starts(*self, table), is_start(receipt_id@, call_id@)),
    {
        let rows = match table {
            PendingTable::Run => &self.pending_starts,
            PendingTable::ChildTask => &self.child_pending_starts,
        };
        any(
            rows,
            Ghost(is_start(receipt_id@, call_id@)),
            |start: &PendingStart| -> (same: bool)
                ensures
                    same == (start.receipt_id@ == receipt_id@ && start.call_id@ == call_id@)
                { start.receipt_id == *receipt_id && start.call_id == *call_id },
        )
    }

    /// Records that a call is about to be carried out. Each call can start once.
    pub fn mark_execution_started(&mut self, start: ExecutionStart, table: PendingTable) -> (result:
        StorageResult<()>)
        ensures
            execution_started(*old(self), *final(self), start, table, outcome_of(result)),
    {
        let pending = match self.load_pending_exchange(&start.receipt_id, table) {
            Ok(pending) => pending,
            Err(error) => {
                return Err(error);
            },
        };
        if !is_same_owner(&pending.target, &start.target) {
            return Err(conflict("tool execution start ownership does not match"));
        }
        if !matches!(pending.state, PendingState::Begun) {
            return Err(conflict("tool execution cannot start after results are ready"));
        }
        let ids = call_ids_of(&pending.assistant.message);
        proof {
            listed_texts(ids@, start.call_id@);
        }
        if !holds_text(&ids, start.call_id.as_str()) {
            return Err(conflict("tool execution start does not belong to pending exchange"));
        }
        if self.is_started(&start.receipt_id, &start.call_id, table) {
            return Err(conflict("tool execution start is already recorded"));
        }
        let row = PendingStart {
            receipt_id: start.receipt_id,
            call_id: start.call_id,
            started_at_ms: start.started_at_ms,
        };
        match table {
            PendingTable::Run => self.pending_starts.push(row),
            PendingTable::ChildTask => self.child_pending_starts.push(row),
        }
        Ok(())
    }
}

/// What an exchange adds to the conversation: the calls, their results, and the message of a skill
/// that one of them activated.
pub open spec fn exchange_batch(assistant: Arc<RecordedMessage>, ready: ReadyExchange) -> Seq<
    Arc<RecordedMessage>,
> {
    match ready.activation_message {
        Some(message) => (seq![assistant] + ready.results@).push(message),
        None => seq![assistant] + ready.results@,
    }
}

/// What comes with the messages of an exchange.
pub open spec fn exchange_purpose(
    target: PendingTarget,
    receipt_id: String,
    ready: ReadyExchange,
) -> AppendPurpose {
    match target {
        PendingTarget::Run { .. } => AppendPurpose::ToolExchange {
            receipt_id,
            skill_activations: ready.skill_activations,
        },
        PendingTarget::ChildTask { .. } => AppendPurpose::ChildToolExchange { receipt_id },
    }
}

/// The engine with the results of an exchange recorded.
pub open spec fn readied(
    before: StorageEngine,
    after: StorageEngine,
    receipt_id: Seq<char>,
    table: PendingTable,
    ready: Arc<ReadyExchange>,
) -> bool {
    let place = first(exchanges(before, table), is_exchange(receipt_id))->0;
    let rows = exchanges(after, table);
    &&& after == (StorageEngine {
        pending_exchanges: after.pending_exchanges,
        child_pending_exchanges: after.child_pending_exchanges,
        ..before
    })
    &&& rows == exchanges(before, table).update(place, rows[place])
    &&& *rows[place] == (PendingExchange {
        ready: Some(ready),
        state: PendingState::Ready,
        ..*exchanges(before, table)[place]
    })
    &&& table is Run ==> after.child_pending_exchanges == before.child_pending_exchanges
    &&& table is ChildTask ==> after.pending_exchanges == before.pending_exchanges
}

/// Why the results of an exchange cannot be recorded.
pub open spec fn ready_refusal(
    engine: StorageEngine,
    receipt_id: Seq<char>,
    table: PendingTable,
) -> Option<Refusal> {
    match first(exchanges(engine, table), is_exchange(receipt_id)) {
        None => Some(conflicting("tool exchange is not in begun state"@)),
        Some(i) => if pending_table(exchanges(engine, table)[i].target) != table {
            Some(corrupt("pending tool exchange table does not match target"@))
        } else if !(exchanges(engine, table)[i].state is Begun) {
            Some(conflicting("tool exchange is not in begun state"@))
        } else {
            None
        },
    }
}

/// The message of an activated skill is one that the conversation can hold between turns.
pub open spec fn valid_activation_message(ready: ReadyExchange) -> bool {
    ready.activation_message is Some ==> *ready.activation_message->0.message is User
}

/// Why an exchange cannot be completed with results.
pub open spec fn exchange_completion_refusal(
    engine: StorageEngine,
    completed: CompletedExchange,
    table: PendingTable,
) -> Option<Refusal> {
    match loaded(engine, completed.receipt_id@, table) {
        Err(error) => Some(error),
        Ok(row) => if !same_owner(row.target, completed.target) {
            Some(conflicting("pending tool exchange ownership does not match"@))
        } else if !(row.state is Begun) {
            Some(conflicting("pending tool exchange is already ready"@))
        } else if exchange_refusal(row.assistant, completed.ready.results@) is Some {
            exchange_refusal(row.assistant, completed.ready.results@)
        } else if !valid_activation_message(*completed.ready) {
            Some(malformed("tool exchange batch is invalid"@))
        } else {
            ready_refusal(engine, completed.receipt_id@, table)
        },
    }
}

/// The engine after an attempt to bring the messages of an exchange into the conversation.
pub open spec fn exchange_committed(
    before: StorageEngine,
    after: StorageEngine,
    operation_id: String,
    row: PendingExchange,
    ready: ReadyExchange,
    completed_at_ms: i64,
    outcome: Result<CommittedBatch, Refusal>,
) -> bool {
    append_attempted(
        before,
        after,
        operation_id,
        conversation_target(row.target),
        exchange_batch(row.assistant, ready),
        row.step,
        completed_at_ms,
        exchange_purpose(row.target, row.receipt_id, ready),
        outcome,
    )
}

/// The results of an exchange are recorded, and its messages enter the conversation as far as
/// that can be; or nothing is done.
pub open spec fn exchange_completed(
    before: StorageEngine,
    after: StorageEngine,
    completed: CompletedExchange,
    table: PendingTable,
    outcome: Result<CommittedBatch, Refusal>,
) -> bool {
    match exchange_completion_refusal(before, completed, table) {
        Some(error) => outcome == Err::<CommittedBatch, _>(error) && after == before,
        None => exists|ready: StorageEngine| #[trigger]
            readied(before, ready, completed.receipt_id@, table, completed.ready)
                && exchange_committed(
                ready,
                after,
                completed.operation_id,
                PendingExchange {
                    step: completed.step,
                    ..loaded(before, completed.receipt_id@, table)->Ok_0
                },
                *completed.ready,
                completed.completed_at_ms,
                outcome,
            ),
    }
}

impl StorageEngine {
    pub(crate) fn mark_exchange_ready(
        &mut self,
        receipt_id: &String,
        ready: &Arc<ReadyExchange>,
        table: PendingTable,
    ) -> (result: StorageResult<()>)
        ensures
            match ready_refusal(*old(self), receipt_id@, table) {
                Some(error) => {
                    &&& result is Err && result->Err_0@ == error
                    &&& *final(self) == *old(self)
                },
                None => result is Ok && readied(
                    *old(self),
                    *final(self),
                    receipt_id@,
                    table,
                    *ready,
                ),
            },
    {
        let rows = match table {
            PendingTable::Run => &self.pending_exchanges,
            PendingTable::ChildTask => &self.child_pending_exchanges,
        };
        let place: usize = match position(
            rows,
            Ghost(is_exchange(receipt_id@)),
            |row: &Arc<PendingExchange>| -> (same: bool)
                ensures
                    same == (row.receipt_id@ == receipt_id@)
                { row.receipt_id == *receipt_id },
        ) {
            Some(place) => place,
            None => {
                return Err(conflict("tool exchange is not in begun state"));
            },
        };
        let row = share(&rows[place]);
        let own_table = match &row.target {
            PendingTarget::Run { session_id, run_id } => PendingTable::Run,
            PendingTarget::ChildTask { session_id, child_task_id } => PendingTable::ChildTask,
        };
        if own_table != table {
            return Err(invalid_data("pending tool exchange table does not match target"));
        }
        if !matches!(row.state, PendingState::Begun) {
            return Err(conflict("tool exchange is not in begun state"));
        }
        let next = Arc::new(
            PendingExchange {
                receipt_id: row.receipt_id.clone(),
                target: row.target.copy(),
                assistant: share(&row.assistant),
                ready: Some(share(ready)),
                state: PendingState::Ready,
                step: row.step,
                created_at_ms: row.created_at_ms,
            },
        );
        match table {
            PendingTable::Run => {
                self.pending_exchanges[place] = next;
            },
            PendingTable::ChildTask => {
                self.child_pending_exchanges[place] = next;
            },
        }
        Ok(())
    }

    pub(crate) fn commit_ready_exchange(
        &mut self,
        operation_id: String,
        row: &Arc<PendingExchange>,
        ready: &Arc<ReadyExchange>,
        step: Option<u32>,
        completed_at_ms: i64,
    ) -> (result: StorageResult<CommittedBatch>)
        ensures
            exchange_committed(
                *old(self),
                *final(self),
                operation_id,
                (PendingExchange { step, ..**row }),
                **ready,
                completed_at_ms,
                outcome_of(result),
            ),
    {
        let mut batch: Vec<Arc<RecordedMessage>> = Vec::new();
        batch.push(share(&row.assistant));
        let ghost all = seq![held(*row).assistant] + ready.results@;
        let mut i: usize = 0;
        while i < ready.results.len()
            invariant
                i <= ready.results@.len(),
                all == seq![row.assistant] + ready.results@,
                batch@ =~= all.take(i + 1),
            decreases ready.results@.len() - i,
        {
            proof {
                assert(all[i + 1] == ready.results@[i as int]);
            }
            batch.push(share(&ready.results[i]));
            i += 1;
        }
        match &ready.activation_message {
            Some(message) => batch.push(share(message)),
            None => {},
        }
        proof {
            assert(batch@ =~= exchange_batch(row.assistant, held(*ready)));
        }
        let target = match &row.target {
            PendingTarget::Run { session_id, run_id } => ConversationStorageTarget::Session {
                session_id: session_id.clone(),
                run_id: run_id.clone(),
            },
            PendingTarget::ChildTask { session_id, child_task_id } => {
                ConversationStorageTarget::ChildTask {
                    session_id: session_id.clone(),
                    child_task_id: child_task_id.clone(),
                }
            },
        };
        let purpose = match &row.target {
            PendingTarget::Run { session_id, run_id } => AppendPurpose::ToolExchange {
                receipt_id: row.receipt_id.clone(),
                skill_activations: share(&ready.skill_activations),
            },
            PendingTarget::ChildTask { session_id, child_task_id } => {
                AppendPurpose::ChildToolExchange { receipt_id: row.receipt_id.clone() }
            },
        };
        self.append_to_target(operation_id, target, batch, step, completed_at_ms, purpose)
    }

    /// Completes an exchange with its results: they are recorded first, and enter the conversation
    /// together with the calls.
    pub fn complete_exchange(&mut self, completed: CompletedExchange, table: PendingTable) -> (result:
        StorageResult<CommittedBatch>)
        ensures
            exchange_completed(*old(self), *final(self), completed, table, outcome_of(result)),
    {
        let pending = match self.load_pending_exchange(&completed.receipt_id, table) {
            Ok(pending) => pending,
            Err(error) => {
                return Err(error);
            },
        };
        if !is_same_owner(&pending.target, &completed.target) {
            return Err(conflict("pending tool exchange ownership does not match"));
        }
        if !matches!(pending.state, PendingState::Begun) {
            return Err(conflict("pending tool exchange is already ready"));
        }
        match validate_exchange(&pending.assistant, &completed.ready.results) {
            Ok(_) => {},
            Err(error) => {
                return Err(error);
            },
        }
        match &completed.ready.activation_message {
            Some(message) => {
                if !matches!(*message.message, ConversationMessage::User(_)) {
                    return Err(invalid_input("tool exchange batch is invalid"));
                }
            },
            None => {},
        }
        match self.mark_exchange_ready(&completed.receipt_id, &completed.ready, table) {
            Ok(_) => {},
            Err(error) => {
                return Err(error);
            },
        }
        let ghost ready = *self;
        let result = self.commit_ready_exchange(
            completed.operation_id,
            &pending,
            &completed.ready,
            completed.step,
            completed.completed_at_ms,
        );
        proof {
            assert(readied(
                *old(self),
                ready,
                completed.receipt_id@,
                table,
                completed.ready,
            ));
        }
        result
    }
}

} // verus!
