//! Tool exchanges that a restart interrupted.
//!
//! No call is carried out a second time. A call that never started gets a result that says so, one
//! that may have had its effect gets a result that says the outcome is unknown, and a delegated
//! task reports what its own conversation shows.

use std::sync::Arc;
use vstd::prelude::*;

use crate::append_effect::ConversationStorageTarget;
use crate::conversation::RecordedMessage;
use crate::engine::{current_conversation, StorageEngine};
use crate::error::{corrupt, invalid_data, outcome_of, Refusal, StorageResult};
use crate::message::{
    held, message_id, share, tool_calls, AssistantMessage, AssistantPart, ConversationMessage,
    JsonField, JsonValue, ToolCall, ToolMessage, ToolResult, ToolResultContent, ToolResultStatus,
};
use crate::order::{is_order, ordered, SortKey};
use crate::recovery::CommittedBatch;
use crate::rows::{ChildTaskRow, ChildTaskStatus, PendingState};
use crate::run_state::{system_time_ms, time_told};
use crate::table::{first, kept, position, selected, some_row};
use crate::text::{add_text, decimal, decimal_text, same_text, with_text};
use crate::tool_exchange::{
    calls_of, exchange_committed, exchange_refusal, exchanges, is_start, loaded, readied,
    ready_refusal, starts, validate_exchange, PendingExchange, PendingTable, PendingTarget,
    ReadyExchange,
};

verus! {

/// The name of the tool that delegates a task.
pub open spec fn delegate_tool() -> Seq<char> {
    "delegate_task"@
}

/// The result of a call that started before a restart.
pub open spec fn unknown_outcome() -> Seq<char> {
    "runtime restarted; tool execution outcome is unknown"@
}

/// The result of a call that had not started before a restart.
pub open spec fn not_started() -> Seq<char> {
    "runtime restarted before tool execution started"@
}

/// The identifier of a recovered result.
pub open spec fn recovered_id(receipt_id: Seq<char>, index: nat) -> Seq<char> {
    "recovered-"@ + receipt_id + "-"@ + decimal(index + 1)
}

/// A recovered result is named after its exchange and its place among the calls.
fn recovered_message_id(receipt_id: &String, index: u64) -> (id: String)
    requires
        index < u64::MAX,
    ensures
        id@ == recovered_id(receipt_id@, index as nat),
{
    let mut id = "recovered-".to_owned();
    id.append(receipt_id.as_str());
    id.append("-");
    id.append(decimal_text(index + 1).as_str());
    id
}

/// How the state of a delegated task is reported.
pub open spec fn status_code(status: ChildTaskStatus) -> Seq<char> {
    match status {
        ChildTaskStatus::Accepted => "interrupted"@,
        ChildTaskStatus::Running => "interrupted"@,
        ChildTaskStatus::Interrupted => "interrupted"@,
        ChildTaskStatus::Completed => "completed"@,
        ChildTaskStatus::Failed => "failed"@,
        ChildTaskStatus::Cancelled => "cancelled"@,
    }
}

/// How the state of a delegated task is reported.
pub fn child_status_code(status: ChildTaskStatus) -> (code: &'static str)
    ensures
        code@ == status_code(status),
{
    match status {
        ChildTaskStatus::Accepted | ChildTaskStatus::Running | ChildTaskStatus::Interrupted => {
            "interrupted"
        },
        ChildTaskStatus::Completed => "completed",
        ChildTaskStatus::Failed => "failed",
        ChildTaskStatus::Cancelled => "cancelled",
    }
}

/// A member of a JSON object that holds a text.
pub open spec fn is_text_field(field: JsonField, name: Seq<char>, text: Seq<char>) -> bool {
    field.name@ == name && field.value is Text && field.value->Text_0@ == text
}

/// A member of a JSON object that holds a text or nothing.
pub open spec fn is_optional_field(
    field: JsonField,
    name: Seq<char>,
    text: Option<Seq<char>>,
) -> bool {
    match text {
        Some(text) => is_text_field(field, name, text),
        None => field.name@ == name && field.value is Null,
    }
}

/// The report of a completed task: its identifier and its answer.
pub open spec fn is_success_report(
    content: ToolResultContent,
    task_id: Seq<char>,
    answer: Seq<char>,
) -> bool {
    content is Json && content->Json_0 is Object && {
        let fields = content->Json_0->Object_0@;
        &&& fields.len() == 3
        &&& is_text_field(fields[0], "task_id"@, task_id)
        &&& is_text_field(fields[1], "status"@, "completed"@)
        &&& is_text_field(fields[2], "result"@, answer)
    }
}

/// The report of a task that did not complete: its identifier, where there is a task, its state and
/// why it ended.
pub open spec fn is_failure_report(
    content: ToolResultContent,
    task_id: Option<Seq<char>>,
    status: Seq<char>,
    code: Seq<char>,
) -> bool {
    content is Json && content->Json_0 is Object && {
        let fields = content->Json_0->Object_0@;
        &&& fields.len() == 1
        &&& fields[0].name@ == "error"@
        &&& fields[0].value is Object
        &&& fields[0].value->Object_0@.len() == 2
        &&& is_text_field(
            fields[0].value->Object_0@[0],
            "message"@,
            "child task did not complete"@,
        )
        &&& fields[0].value->Object_0@[1].name@ == "details"@
        &&& fields[0].value->Object_0@[1].value is Object
        &&& {
            let details = fields[0].value->Object_0@[1].value->Object_0@;
            &&& details.len() == 3
            &&& is_optional_field(details[0], "task_id"@, task_id)
            &&& is_text_field(details[1], "status"@, status)
            &&& is_text_field(details[2], "code"@, code)
        }
    }
}

fn text_field(name: &str, text: &str) -> (field: JsonField)
    ensures
        is_text_field(field, name@, text@),
{
    JsonField { name: name.to_owned(), value: JsonValue::Text(text.to_owned()) }
}

fn success_report(task_id: &String, answer: &String) -> (content: ToolResultContent)
    ensures
        is_success_report(content, task_id@, answer@),
{
    let mut fields: Vec<JsonField> = Vec::new();
    fields.push(text_field("task_id", task_id.as_str()));
    fields.push(text_field("status", "completed"));
    fields.push(text_field("result", answer.as_str()));
    ToolResultContent::Json(JsonValue::Object(fields))
}

fn failure_report(task_id: Option<&String>, status: &str, code: &str) -> (content:
    ToolResultContent)
    ensures
        is_failure_report(
            content,
            match task_id {
                Some(task_id) => Some(task_id@),
                None => None,
            },
            status@,
            code@,
        ),
{
    let mut details: Vec<JsonField> = Vec::new();
    match task_id {
        Some(task_id) => details.push(text_field("task_id", task_id.as_str())),
        None => details.push(JsonField { name: "task_id".to_owned(), value: JsonValue::Null }),
    }
    details.push(text_field("status", status));
    details.push(text_field("code", code));
    let mut error: Vec<JsonField> = Vec::new();
    error.push(text_field("message", "child task did not complete"));
    error.push(JsonField { name: "details".to_owned(), value: JsonValue::Object(details) });
    let mut fields: Vec<JsonField> = Vec::new();
    fields.push(JsonField { name: "error".to_owned(), value: JsonValue::Object(error) });
    ToolResultContent::Json(JsonValue::Object(fields))
}

/// The condition of being the task that a call delegated.
pub open spec fn is_delegate(session_id: Seq<char>, run_id: Seq<char>, call_id: Seq<char>) -> spec_fn(
    ChildTaskRow,
) -> bool {
    |row: ChildTaskRow|
        row.session_id@ == session_id && row.parent_run_id@ == run_id && row.parent_tool_call_id@
            == call_id
}

/// The condition of being the assistant's message with an identifier.
pub open spec fn is_answer(message_id: Seq<char>) -> spec_fn(Arc<ConversationMessage>) -> bool {
    |message: Arc<ConversationMessage>|
        match *message {
            ConversationMessage::Assistant(message) => message.id@ == message_id,
            _ => false,
        }
}

/// The text of an assistant's message, without what it thought or called.
pub open spec fn spoken_text(parts: Seq<AssistantPart>) -> Seq<char>
    decreases parts.len(),
{
    if parts.len() == 0 {
        Seq::empty()
    } else {
        let earlier = spoken_text(parts.drop_last());
        match parts.last() {
            AssistantPart::Text(part) => earlier + part.text@,
            _ => earlier,
        }
    }
}

fn spoken(message: &AssistantMessage) -> (text: String)
    ensures
        text@ == spoken_text(message.parts@),
{
    let mut text = String::new();
    let mut i: usize = 0;
    proof {
        assert(message.parts@.take(0) =~= Seq::empty());
    }
    while i < message.parts.len()
        invariant
            i <= message.parts@.len(),
            text@ == spoken_text(message.parts@.take(i as int)),
        decreases message.parts@.len() - i,
    {
        proof {
            assert(message.parts@.take(i + 1).drop_last() =~= message.parts@.take(i as int));
            assert(message.parts@.take(i + 1).last() == message.parts@[i as int]);
        }
        match &message.parts[i] {
            AssistantPart::Text(part) => text.append(part.text.as_str()),
            _ => {},
        }
        i += 1;
    }
    proof {
        assert(message.parts@.take(message.parts@.len() as int) =~= message.parts@);
    }
    text
}

/// The conversation of a delegated task.
pub open spec fn child_target(row: ChildTaskRow, session_id: String) -> ConversationStorageTarget {
    ConversationStorageTarget::ChildTask { session_id, child_task_id: row.child_task_id }
}

/// The answer of a completed task, or why it cannot be told.
pub open spec fn answer_of(engine: StorageEngine, session_id: String, row: ChildTaskRow) -> Result<
    Seq<char>,
    Refusal,
> {
    match row.final_message_id {
        None => Err(corrupt("completed delegated child has no final message"@)),
        Some(message_id) => match current_conversation(engine, child_target(row, session_id)) {
            Err(error) => Err(error),
            Ok(messages) => match first(messages, is_answer(message_id@)) {
                None => Err(corrupt("delegated child final message is unavailable"@)),
                Some(i) => match *messages[i] {
                    ConversationMessage::Assistant(message) => Ok(spoken_text(message.parts@)),
                    _ => Err(corrupt("delegated child final message is unavailable"@)),
                },
            },
        },
    }
}

/// Why a delegating call cannot be answered.
pub open spec fn delegate_refusal(
    engine: StorageEngine,
    session_id: String,
    run_id: String,
    call: ToolCall,
) -> Option<Refusal> {
    match first(engine.child_tasks@, is_delegate(session_id@, run_id@, call.id@)) {
        None => None,
        Some(i) => {
            let row = engine.child_tasks@[i];
            if row.status is Completed {
                match answer_of(engine, session_id, row) {
                    Ok(_) => None,
                    Err(error) => Some(error),
                }
            } else {
                None
            }
        },
    }
}

/// A result that answers a delegating call.
pub open spec fn answers_delegate(
    engine: StorageEngine,
    session_id: String,
    run_id: String,
    call: ToolCall,
    result: ToolResult,
) -> bool {
    match first(engine.child_tasks@, is_delegate(session_id@, run_id@, call.id@)) {
        None => result.status is Error && is_failure_report(
            result.content,
            None,
            "interrupted"@,
            "interrupted"@,
        ),
        Some(i) => {
            let row = engine.child_tasks@[i];
            if row.status is Completed {
                result.status is Success && is_success_report(
                    result.content,
                    row.child_task_id@,
                    answer_of(engine, session_id, row)->Ok_0,
                )
            } else {
                result.status is Error && is_failure_report(
                    result.content,
                    Some(row.child_task_id@),
                    status_code(row.status),
                    match row.error_code {
                        Some(code) => code@,
                        None => status_code(row.status),
                    },
                )
            }
        },
    }
}

/// Whether a call delegated a task that can be asked for.
pub open spec fn delegated(
    engine: StorageEngine,
    row: PendingExchange,
    table: PendingTable,
    call: ToolCall,
) -> bool {
    &&& call.name@ == delegate_tool()
    &&& some_row(starts(engine, table), is_start(row.receipt_id@, call.id@))
    &&& row.target is Run
}

/// Why a call cannot be answered.
pub open spec fn answer_refusal(
    engine: StorageEngine,
    row: PendingExchange,
    table: PendingTable,
    call: ToolCall,
) -> Option<Refusal> {
    if delegated(engine, row, table, call) {
        delegate_refusal(engine, row.target->Run_session_id, row.target->run_id, call)
    } else {
        None
    }
}

/// Why the calls of an exchange cannot all be answered.
pub open spec fn answers_refusal(
    engine: StorageEngine,
    row: PendingExchange,
    table: PendingTable,
    calls: Seq<ToolCall>,
) -> Option<Refusal>
    decreases calls.len(),
{
    if calls.len() == 0 {
        None
    } else if answers_refusal(engine, row, table, calls.drop_last()) is Some {
        answers_refusal(engine, row, table, calls.drop_last())
    } else {
        answer_refusal(engine, row, table, calls.last())
    }
}

/// A message that answers a call of an interrupted exchange.
pub open spec fn answers(
    engine: StorageEngine,
    row: PendingExchange,
    table: PendingTable,
    index: int,
    call: ToolCall,
    message: ToolMessage,
) -> bool {
    &&& message.id@ == recovered_id(row.receipt_id@, index as nat)
    &&& message.result.call_id == call.id
    &&& if delegated(engine, row, table, call) {
        answers_delegate(
            engine,
            row.target->Run_session_id,
            row.target->run_id,
            call,
            message.result,
        )
    } else {
        &&& message.result.status is Error
        &&& message.result.content is Text
        &&& message.result.content->Text_0@ == if some_row(
            starts(engine, table),
            is_start(row.receipt_id@, call.id@),
        ) {
            unknown_outcome()
        } else {
            not_started()
        }
    }
}

/// Messages that answer the calls of an interrupted exchange, one for each and in their order.
pub open spec fn answer_all(
    engine: StorageEngine,
    row: PendingExchange,
    table: PendingTable,
    results: Seq<ToolMessage>,
) -> bool {
    let calls = calls_of(*row.assistant.message);
    &&& results.len() == calls.len()
    &&& forall|i: int|
        0 <= i < results.len() ==> answers(engine, row, table, i, calls[i], #[trigger] results[i])
}

proof fn refused_answer_refuses_all(
    engine: StorageEngine,
    row: PendingExchange,
    table: PendingTable,
    parts: Seq<AssistantPart>,
    n: int,
)
    requires
        0 <= n <= parts.len(),
        answers_refusal(engine, row, table, tool_calls(parts.take(n))) is Some,
    ensures
        answers_refusal(engine, row, table, tool_calls(parts)) == answers_refusal(
            engine,
            row,
            table,
            tool_calls(parts.take(n)),
        ),
    decreases parts.len() - n,
{
    if n < parts.len() {
        let longer = parts.take(n + 1);
        assert(longer.drop_last() =~= parts.take(n));
        match longer.last() {
            AssistantPart::ToolCall(call) => {
                assert(tool_calls(longer).drop_last() =~= tool_calls(parts.take(n)));
            },
            _ => {},
        }
        refused_answer_refuses_all(engine, row, table, parts, n + 1);
    } else {
        assert(parts.take(n) =~= parts);
    }
}

impl StorageEngine {
    /// The answer to a call that delegated a task, as far as the task got.
    pub fn recovered_delegate_result(
        &self,
        receipt_id: &String,
        index: u64,
        session_id: &String,
        run_id: &String,
        call: &ToolCall,
    ) -> (result: StorageResult<ToolMessage>)
        requires
            index < u64::MAX,
        ensures
            match delegate_refusal(*self, *session_id, *run_id, *call) {
                Some(error) => result is Err && result->Err_0@ == error,
                None => {
                    &&& result is Ok
                    &&& result->Ok_0.id@ == recovered_id(receipt_id@, index as nat)
                    &&& result->Ok_0.result.call_id == call.id
                    &&& answers_delegate(
                        *self,
                        *session_id,
                        *run_id,
                        *call,
                        result->Ok_0.result,
                    )
                },
            },
    {
        let id = recovered_message_id(receipt_id, index);
        let place: usize = match position(
            &self.child_tasks,
            Ghost(is_delegate(session_id@, run_id@, call.id@)),
            |row: &ChildTaskRow| -> (found: bool)
                ensures
                    found == (row.session_id@ == session_id@ && row.parent_run_id@ == run_id@
                        && row.parent_tool_call_id@ == call.id@)
                {
                    row.session_id == *session_id && row.parent_run_id == *run_id
                        && row.parent_tool_call_id == call.id
                },
        ) {
            Some(place) => place,
            None => {
                return Ok(
                    ToolMessage {
                        id,
                        result: ToolResult {
                            call_id: call.id.clone(),
                            status: ToolResultStatus::Error,
                            content: failure_report(None, "interrupted", "interrupted"),
                        },
                    },
                );
            },
        };
        let row = &self.child_tasks[place];
        if matches!(row.status, ChildTaskStatus::Completed) {
            let answer = match self.delegate_answer(session_id, row) {
                Ok(answer) => answer,
                Err(error) => {
                    return Err(error);
                },
            };
            return Ok(
                ToolMessage {
                    id,
                    result: ToolResult {
                        call_id: call.id.clone(),
                        status: ToolResultStatus::Success,
                        content: success_report(&row.child_task_id, &answer),
                    },
                },
            );
        }
        let status = child_status_code(row.status);
        let code = match &row.error_code {
            Some(code) => code.clone(),
            None => status.to_owned(),
        };
        Ok(
            ToolMessage {
                id,
                result: ToolResult {
                    call_id: call.id.clone(),
                    status: ToolResultStatus::Error,
                    content: failure_report(Some(&row.child_task_id), status, code.as_str()),
                },
            },
        )
    }

    fn delegate_answer(&self, session_id: &String, row: &ChildTaskRow) -> (result: StorageResult<
        String,
    >)
        ensures
            match answer_of(*self, *session_id, *row) {
                Ok(answer) => result is Ok && result->Ok_0@ == answer,
                Err(error) => result is Err && result->Err_0@ == error,
            },
    {
        let final_id = match &row.final_message_id {
            Some(message_id) => message_id,
            None => {
                return Err(invalid_data("completed delegated child has no final message"));
            },
        };
        let target = ConversationStorageTarget::ChildTask {
            session_id: session_id.clone(),
            child_task_id: row.child_task_id.clone(),
        };
        let messages = match self.load_target_conversation(&target) {
            Ok(messages) => messages,
            Err(error) => {
                return Err(error);
            },
        };
        match position(
            &messages,
            Ghost(is_answer(final_id@)),
            |message: &Arc<ConversationMessage>| -> (found: bool)
                ensures
                    found == is_answer(final_id@)(*message)
                {
                    match &**message {
                        ConversationMessage::Assistant(message) => message.id == *final_id,
                        _ => false,
                    }
                },
        ) {
            Some(place) => match &*messages[place] {
                ConversationMessage::Assistant(message) => Ok(spoken(message)),
                _ => Err(invalid_data("delegated child final message is unavailable")),
            },
            None => Err(invalid_data("delegated child final message is unavailable")),
        }
    }

    /// The answers to the calls of an interrupted exchange.
    pub fn recovered_results(&self, row: &Arc<PendingExchange>, table: PendingTable) -> (result:
        StorageResult<Vec<ToolMessage>>)
        ensures
            match answers_refusal(
                *self,
                **row,
                table,
                calls_of(*row.assistant.message),
            ) {
                Some(error) => result is Err && result->Err_0@ == error,
                None => result is Ok && answer_all(*self, **row, table, result->Ok_0@),
            },
    {
        let mut results: Vec<ToolMessage> = Vec::new();
        let assistant = match &*row.assistant.message {
            ConversationMessage::Assistant(assistant) => assistant,
            _ => {
                return Ok(results);
            },
        };
        let mut i: usize = 0;
        let ghost parts = assistant.parts@;
        proof {
            assert(parts.take(0) =~= Seq::empty());
        }
        while i < assistant.parts.len()
            invariant
                i <= assistant.parts@.len(),
                parts == assistant.parts@,
                calls_of(*row.assistant.message) == tool_calls(parts),
                results@.len() <= i,
                results@.len() == tool_calls(parts.take(i as int)).len(),
                answers_refusal(*self, **row, table, tool_calls(parts.take(i as int))) is None,
                forall|k: int|
                    0 <= k < results@.len() ==> answers(
                        *self,
                        **row,
                        table,
                        k,
                        tool_calls(parts.take(i as int))[k],
                        #[trigger] results@[k],
                    ),
            decreases assistant.parts@.len() - i,
        {
            let ghost earlier = tool_calls(parts.take(i as int));
            let ghost longer = tool_calls(parts.take(i + 1));
            proof {
                assert(parts.take(i + 1).drop_last() =~= parts.take(i as int));
                assert(parts.take(i + 1).last() == parts[i as int]);
                if answers_refusal(*self, held(*row), table, longer) is Some {
                    refused_answer_refuses_all(*self, held(*row), table, parts, i + 1);
                }
            }
            match &assistant.parts[i] {
                AssistantPart::ToolCall(call) => {
                    proof {
                        assert(longer == earlier.push(*call));
                        assert(longer.drop_last() =~= earlier);
                    }
                    match self.recovered_result(row, table, results.len() as u64, call) {
                        Ok(message) => {
                            results.push(message);
                        },
                        Err(error) => {
                            return Err(error);
                        },
                    }
                },
                _ => {},
            }
            proof {
                assert forall|k: int| 0 <= k < results@.len() implies answers(
                    *self,
                    held(*row),
                    table,
                    k,
                    longer[k],
                    #[trigger] results@[k],
                ) by {
                    if k < earlier.len() {
                        assert(longer[k] == earlier[k]);
                    }
                }
            }
            i += 1;
        }
        proof {
            assert(parts.take(parts.len() as int) =~= parts);
        }
        Ok(results)
    }

    fn recovered_result(
        &self,
        row: &Arc<PendingExchange>,
        table: PendingTable,
        index: u64,
        call: &ToolCall,
    ) -> (result: StorageResult<ToolMessage>)
        requires
            index < u64::MAX,
        ensures
            match answer_refusal(*self, **row, table, *call) {
                Some(error) => result is Err && result->Err_0@ == error,
                None => result is Ok && answers(
                    *self,
                    **row,
                    table,
                    index as int,
                    *call,
                    result->Ok_0,
                ),
            },
    {
        let started = self.is_started(&row.receipt_id, &call.id, table);
        if started && same_text(call.name.as_str(), "delegate_task") {
            match &row.target {
                PendingTarget::Run { session_id, run_id } => {
                    return self.recovered_delegate_result(
                        &row.receipt_id,
                        index,
                        session_id,
                        run_id,
                        call,
                    );
                },
                PendingTarget::ChildTask { session_id, child_task_id } => {},
            }
        }
        let text = if started {
            "runtime restarted; tool execution outcome is unknown"
        } else {
            "runtime restarted before tool execution started"
        };
        Ok(
            ToolMessage {
                id: recovered_message_id(&row.receipt_id, index),
                result: ToolResult {
                    call_id: call.id.clone(),
                    status: ToolResultStatus::Error,
                    content: ToolResultContent::Text(text.to_owned()),
                },
            },
        )
    }
}

/// The completion of an interrupted exchange: an answer to each call, recorded as `encode` writes
/// it.
pub open spec fn recovered_ready<E: Fn(&ConversationMessage) -> Vec<u8>>(
    engine: StorageEngine,
    row: PendingExchange,
    table: PendingTable,
    ready: ReadyExchange,
    encode: E,
) -> bool {
    let calls = calls_of(*row.assistant.message);
    &&& ready.activation_message is None
    &&& ready.skill_activations@.len() == 0
    &&& ready.results@.len() == calls.len()
    &&& forall|i: int|
        0 <= i < calls.len() ==> {
            &&& *(#[trigger] ready.results@[i]).message is Tool
            &&& answers(
                engine,
                row,
                table,
                i,
                calls[i],
                (*ready.results@[i].message)->Tool_0,
            )
            &&& encode.ensures((&*ready.results@[i].message,), ready.results@[i].record)
        }
}

/// The engine after the messages of a recovered exchange were handed to the conversation, under an
/// operation named after the exchange.
pub open spec fn committed_at(
    before: StorageEngine,
    after: StorageEngine,
    row: PendingExchange,
    ready: ReadyExchange,
    now: i64,
    outcome: Result<CommittedBatch, Refusal>,
) -> bool {
    exists|operation_id: String|
        operation_id@ == "recover-"@ + row.receipt_id@ && #[trigger] exchange_committed(
            before,
            after,
            operation_id,
            row,
            ready,
            now,
            outcome,
        )
}

/// The engine after an attempt to bring an exchange with all its results into the conversation.
pub open spec fn ready_committed(
    before: StorageEngine,
    after: StorageEngine,
    row: PendingExchange,
    ready: ReadyExchange,
    clock: Result<i64, Refusal>,
    outcome: Result<CommittedBatch, Refusal>,
) -> bool {
    match exchange_refusal(row.assistant, ready.results@) {
        Some(error) => after == before && outcome == Err::<CommittedBatch, _>(error),
        None => match clock {
            Err(error) => after == before && outcome == Err::<CommittedBatch, _>(error),
            Ok(now) => committed_at(before, after, row, ready, now, outcome),
        },
    }
}

/// The engine after an attempt to complete an interrupted exchange. An exchange without results is
/// given the recovered ones first, so that they stay the same if the attempt is interrupted too.
pub open spec fn exchange_recovered<E: Fn(&ConversationMessage) -> Vec<u8>>(
    before: StorageEngine,
    after: StorageEngine,
    receipt_id: Seq<char>,
    table: PendingTable,
    clock: Result<i64, Refusal>,
    encode: E,
    outcome: Result<CommittedBatch, Refusal>,
) -> bool {
    match loaded(before, receipt_id, table) {
        Err(error) => after == before && outcome == Err::<CommittedBatch, _>(error),
        Ok(row) => match row.state {
            PendingState::Begun => match answers_refusal(
                before,
                row,
                table,
                calls_of(*row.assistant.message),
            ) {
                Some(error) => after == before && outcome == Err::<CommittedBatch, _>(error),
                None => match ready_refusal(before, receipt_id, table) {
                    Some(error) => after == before && outcome == Err::<CommittedBatch, _>(error),
                    None => exists|ready: Arc<ReadyExchange>, prepared: StorageEngine| #[trigger]
                        readied(before, prepared, receipt_id, table, ready) && recovered_ready(
                            before,
                            row,
                            table,
                            *ready,
                            encode,
                        ) && ready_committed(prepared, after, row, *ready, clock, outcome),
                },
            },
            PendingState::Ready => match row.ready {
                None => after == before && outcome == Err::<CommittedBatch, _>(
                    corrupt("ready tool exchange has no results"@),
                ),
                Some(ready) => ready_committed(before, after, row, *ready, clock, outcome),
            },
        },
    }
}

fn encoded_results<E: Fn(&ConversationMessage) -> Vec<u8>>(
    results: Vec<ToolMessage>,
    encode: &E,
) -> (records: Vec<Arc<RecordedMessage>>)
    requires
        forall|message: &ConversationMessage| encode.requires((message,)),
    ensures
        records@.len() == results@.len(),
        forall|i: int|
            0 <= i < results@.len() ==> {
                &&& *(#[trigger] records@[i]).message == ConversationMessage::Tool(results@[i])
                &&& encode.ensures((&*records@[i].message,), records@[i].record)
            },
{
    let mut rest = results;
    let ghost all = rest@;
    let mut records: Vec<Arc<RecordedMessage>> = Vec::new();
    while rest.len() > 0
        invariant
            records@.len() + rest@.len() == all.len(),
            rest@ == all.skip(records@.len() as int),
            forall|message: &ConversationMessage| encode.requires((message,)),
            forall|i: int|
                0 <= i < records@.len() ==> {
                    &&& *(#[trigger] records@[i]).message == ConversationMessage::Tool(all[i])
                    &&& encode.ensures((&*records@[i].message,), records@[i].record)
                },
        decreases rest@.len(),
    {
        let ghost before = rest@;
        let message = ConversationMessage::Tool(rest.remove(0));
        proof {
            assert(rest@ =~= all.skip(records@.len() as int + 1));
            assert(before[0] == all[records@.len() as int]);
        }
        let record = encode(&message);
        records.push(Arc::new(RecordedMessage { record, message: Arc::new(message) }));
    }
    records
}

impl StorageEngine {
    /// Completes an interrupted exchange at the time that `clock` gives.
    pub fn recover_pending_exchange_at<E: Fn(&ConversationMessage) -> Vec<u8>>(
        &mut self,
        receipt_id: &String,
        table: PendingTable,
        clock: StorageResult<i64>,
        encode: &E,
    ) -> (result: StorageResult<CommittedBatch>)
        requires
            forall|message: &ConversationMessage| encode.requires((message,)),
        ensures
            exchange_recovered(
                *old(self),
                *final(self),
                receipt_id@,
                table,
                outcome_of(clock),
                *encode,
                outcome_of(result),
            ),
    {
        let row = match self.load_pending_exchange(receipt_id, table) {
            Ok(row) => row,
            Err(error) => {
                return Err(error);
            },
        };
        match row.state {
            PendingState::Begun => {
                let results = match self.recovered_results(&row, table) {
                    Ok(results) => results,
                    Err(error) => {
                        return Err(error);
                    },
                };
                let ready = Arc::new(
                    ReadyExchange {
                        results: encoded_results(results, encode),
                        activation_message: None,
                        skill_activations: Arc::new(Vec::new()),
                    },
                );
                match self.mark_exchange_ready(receipt_id, &ready, table) {
                    Ok(_) => {},
                    Err(error) => {
                        return Err(error);
                    },
                }
                let ghost prepared = *self;
                let result = self.commit_recovered(&row, &ready, clock);
                proof {
                    assert(readied(*old(self), prepared, receipt_id@, table, ready));
                    assert(recovered_ready(*old(self), held(row), table, held(ready), *encode));
                }
                result
            },
            PendingState::Ready => match &row.ready {
                Some(ready) => self.commit_recovered(&row, ready, clock),
                None => Err(invalid_data("ready tool exchange has no results")),
            },
        }
    }

    fn commit_recovered(
        &mut self,
        row: &Arc<PendingExchange>,
        ready: &Arc<ReadyExchange>,
        clock: StorageResult<i64>,
    ) -> (result: StorageResult<CommittedBatch>)
        ensures
            ready_committed(
                *old(self),
                *final(self),
                **row,
                **ready,
                outcome_of(clock),
                outcome_of(result),
            ),
    {
        match validate_exchange(&row.assistant, &ready.results) {
            Ok(_) => {},
            Err(error) => {
                return Err(error);
            },
        }
        let now: i64 = match clock {
            Ok(now) => now,
            Err(error) => {
                return Err(error);
            },
        };
        let mut operation_id = "recover-".to_owned();
        operation_id.append(row.receipt_id.as_str());
        let ghost id = operation_id;
        let result = self.commit_ready_exchange(operation_id, row, ready, row.step, now);
        proof {
            assert(exchange_committed(
                *old(self),
                *self,
                id,
                held(*row),
                held(*ready),
                now,
                outcome_of(result),
            ));
            assert(committed_at(
                *old(self),
                *self,
                held(*row),
                held(*ready),
                now,
                outcome_of(result),
            ));
        }
        result
    }

    /// Completes an interrupted exchange at the time that the machine's clock tells.
    pub fn recover_pending_exchange<E: Fn(&ConversationMessage) -> Vec<u8>>(
        &mut self,
        receipt_id: &String,
        table: PendingTable,
        encode: &E,
    ) -> (result: StorageResult<CommittedBatch>)
        requires
            forall|message: &ConversationMessage| encode.requires((message,)),
        ensures
            exists|elapsed: Option<u128>| #[trigger]
                exchange_recovered(
                    *old(self),
                    *final(self),
                    receipt_id@,
                    table,
                    time_told(elapsed),
                    *encode,
                    outcome_of(result),
                ),
    {
        let clock = system_time_ms();
        let ghost elapsed = choose|elapsed: Option<u128>| #[trigger]
            time_told(elapsed) == outcome_of(clock);
        let result = self.recover_pending_exchange_at(receipt_id, table, clock, encode);
        proof {
            assert(exchange_recovered(
                *old(self),
                *self,
                receipt_id@,
                table,
                time_told(elapsed),
                *encode,
                outcome_of(result),
            ));
        }
        result
    }
}

/// The session that an exchange belongs to.
pub open spec fn exchange_session(target: PendingTarget) -> String {
    match target {
        PendingTarget::Run { session_id, run_id } => session_id,
        PendingTarget::ChildTask { session_id, child_task_id } => session_id,
    }
}

/// The condition of belonging to a session, where one is given.
pub open spec fn exchange_in_scope(scope: Option<String>) -> spec_fn(Arc<PendingExchange>) -> bool {
    |row: Arc<PendingExchange>| scope is None || exchange_session(row.target)@ == scope->0@
}

/// What exchanges are ordered by.
pub open spec fn exchange_keys(rows: Seq<Arc<PendingExchange>>) -> Seq<SortKey> {
    rows.map_values(
        |row: Arc<PendingExchange>| SortKey { rank: 0, time: row.created_at_ms, id: row.receipt_id },
    )
}

/// Who cannot be used while an exchange stands incomplete.
pub open spec fn exchange_owner(target: PendingTarget) -> String {
    match target {
        PendingTarget::Run { session_id, run_id } => session_id,
        PendingTarget::ChildTask { session_id, child_task_id } => child_task_id,
    }
}

/// One exchange was attempted at a time that a clock told, and `failed` says whether that failed.
pub open spec fn exchange_attempted<E: Fn(&ConversationMessage) -> Vec<u8>>(
    before: StorageEngine,
    after: StorageEngine,
    receipt_id: Seq<char>,
    table: PendingTable,
    encode: E,
    failed: bool,
) -> bool {
    exists|elapsed: Option<u128>, outcome: Result<CommittedBatch, Refusal>| #[trigger]
        exchange_recovered(
            before,
            after,
            receipt_id,
            table,
            time_told(elapsed),
            encode,
            outcome,
        ) && failed == (outcome is Err)
}

/// The engine passes from state to state by attempts to complete the exchanges, earlier ones first.
pub open spec fn exchanges_in_turn<E: Fn(&ConversationMessage) -> Vec<u8>>(
    rows: Seq<Arc<PendingExchange>>,
    table: PendingTable,
    encode: E,
    order: Seq<usize>,
    trace: Seq<StorageEngine>,
    failures: Seq<bool>,
) -> bool {
    &&& is_order(exchange_keys(rows), order)
    &&& trace.len() == order.len() + 1
    &&& failures.len() == order.len()
    &&& forall|k: int|
        0 <= k < order.len() ==> exchange_attempted(
            trace[k],
            trace[k + 1],
            rows[#[trigger] order[k] as int].receipt_id@,
            table,
            encode,
            failures[k],
        )
}

/// The first attempts of a sequence were made, one behind the other.
#[verifier::opaque]
spec fn turns_taken<E: Fn(&ConversationMessage) -> Vec<u8>>(
    rows: Seq<Arc<PendingExchange>>,
    table: PendingTable,
    encode: E,
    order: Seq<usize>,
    trace: Seq<StorageEngine>,
    failures: Seq<bool>,
) -> bool {
    forall|k: int|
        0 <= k < trace.len() - 1 ==> exchange_attempted(
            trace[k],
            trace[k + 1],
            rows[#[trigger] order[k] as int].receipt_id@,
            table,
            encode,
            failures[k],
        )
}

/// One more attempt behind the others.
proof fn turn_is_added<E: Fn(&ConversationMessage) -> Vec<u8>>(
    rows: Seq<Arc<PendingExchange>>,
    table: PendingTable,
    encode: E,
    order: Seq<usize>,
    trace: Seq<StorageEngine>,
    failures: Seq<bool>,
    next: StorageEngine,
    failed: bool,
)
    requires
        trace.len() == failures.len() + 1,
        turns_taken(rows, table, encode, order, trace, failures),
        exchange_attempted(
            trace.last(),
            next,
            rows[order[trace.len() - 1] as int].receipt_id@,
            table,
            encode,
            failed,
        ),
    ensures
        turns_taken(rows, table, encode, order, trace.push(next), failures.push(failed)),
{
    reveal(turns_taken);
    let longer = trace.push(next);
    let all = failures.push(failed);
    assert forall|k: int| 0 <= k < longer.len() - 1 implies exchange_attempted(
        longer[k],
        longer[k + 1],
        rows[#[trigger] order[k] as int].receipt_id@,
        table,
        encode,
        all[k],
    ) by {
        assert(longer[k] == trace[k]);
        if k < trace.len() - 1 {
            assert(longer[k + 1] == trace[k + 1]);
            assert(all[k] == failures[k]);
        }
    }
}

/// The owners of the exchanges that failed, each once.
pub open spec fn failing_owners(
    rows: Seq<Arc<PendingExchange>>,
    order: Seq<usize>,
    failures: Seq<bool>,
) -> Seq<String>
    decreases failures.len(),
{
    if failures.len() == 0 {
        Seq::empty()
    } else {
        let earlier = failing_owners(rows, order, failures.drop_last());
        if failures.last() {
            with_text(earlier, exchange_owner(rows[order[failures.len() - 1] as int].target))
        } else {
            earlier
        }
    }
}

/// The engine after every interrupted exchange in scope was attempted, and the owners of those that
/// could not be completed.
pub open spec fn exchanges_recovered<E: Fn(&ConversationMessage) -> Vec<u8>>(
    before: StorageEngine,
    after: StorageEngine,
    scope: Option<String>,
    table: PendingTable,
    encode: E,
    unavailable: Seq<String>,
) -> bool {
    let rows = kept(exchanges(before, table), exchange_in_scope(scope));
    exists|order: Seq<usize>, trace: Seq<StorageEngine>, failures: Seq<bool>| #[trigger]
        exchanges_in_turn(rows, table, encode, order, trace, failures) && trace[0] == before
            && trace.last() == after && unavailable == failing_owners(rows, order, failures)
}

fn keys_of(rows: &Vec<Arc<PendingExchange>>) -> (keys: Vec<SortKey>)
    ensures
        keys@ == exchange_keys(rows@),
{
    let mut keys: Vec<SortKey> = Vec::new();
    let mut i: usize = 0;
    while i < rows.len()
        invariant
            i <= rows@.len(),
            keys@ =~= exchange_keys(rows@).take(i as int),
        decreases rows@.len() - i,
    {
        keys.push(SortKey { rank: 0, time: rows[i].created_at_ms, id: rows[i].receipt_id.clone() });
        i += 1;
    }
    proof {
        assert(exchange_keys(rows@).take(rows@.len() as int) =~= exchange_keys(rows@));
    }
    keys
}

impl StorageEngine {
    /// Completes the interrupted exchanges of a table, of one session or of all, and names the
    /// owners for which that failed.
    pub fn recover_pending_exchanges<E: Fn(&ConversationMessage) -> Vec<u8>>(
        &mut self,
        scope: &Option<String>,
        table: PendingTable,
        encode: &E,
    ) -> (unavailable: Vec<String>)
        requires
            forall|message: &ConversationMessage| encode.requires((message,)),
        ensures
            exchanges_recovered(
                *old(self),
                *final(self),
                *scope,
                table,
                *encode,
                unavailable@,
            ),
    {
        let test = |row: &Arc<PendingExchange>| -> (inside: bool)
            ensures
                inside == exchange_in_scope(*scope)(*row)
            {
                match scope {
                    None => true,
                    Some(session_id) => match &row.target {
                        PendingTarget::Run { session_id: session, run_id } => *session
                            == *session_id,
                        PendingTarget::ChildTask { session_id: session, child_task_id } => {
                            *session == *session_id
                        },
                    },
                }
            };
        let rows = match table {
            PendingTable::Run => selected(
                &self.pending_exchanges,
                Ghost(exchange_in_scope(*scope)),
                test,
            ),
            PendingTable::ChildTask => selected(
                &self.child_pending_exchanges,
                Ghost(exchange_in_scope(*scope)),
                test,
            ),
        };
        let order = ordered(&keys_of(&rows));
        let mut unavailable: Vec<String> = Vec::new();
        let ghost mut trace: Seq<StorageEngine> = seq![*self];
        let ghost mut failures: Seq<bool> = Seq::empty();
        let mut i: usize = 0;
        proof {
            reveal(turns_taken);
        }
        while i < order.len()
            invariant
                i <= order@.len(),
                rows@ == kept(exchanges(*old(self), table), exchange_in_scope(*scope)),
                is_order(exchange_keys(rows@), order@),
                trace.len() == i + 1,
                failures.len() == i,
                trace[0] == *old(self),
                trace[i as int] == *self,
                forall|message: &ConversationMessage| encode.requires((message,)),
                turns_taken(rows@, table, *encode, order@, trace, failures),
                unavailable@ == failing_owners(rows@, order@, failures),
            decreases order@.len() - i,
        {
            let ghost before = trace;
            let ghost earlier = failures;
            let row = share(&rows[order[i]]);
            let result = self.recover_pending_exchange(&row.receipt_id, table, encode);
            proof {
                trace = trace.push(*self);
                failures = failures.push(result is Err);
                assert(failures.drop_last() =~= earlier);
                assert(exchange_attempted(
                    before[i as int],
                    *self,
                    rows@[order@[i as int] as int].receipt_id@,
                    table,
                    *encode,
                    result is Err,
                ));
                turn_is_added(rows@, table, *encode, order@, before, earlier, *self, result is Err);
            }
            if result.is_err() {
                let owner = match &row.target {
                    PendingTarget::Run { session_id, run_id } => session_id,
                    PendingTarget::ChildTask { session_id, child_task_id } => child_task_id,
                };
                add_text(&mut unavailable, owner);
            }
            i += 1;
        }
        proof {
            reveal(turns_taken);
            assert(exchanges_in_turn(rows@, table, *encode, order@, trace, failures));
        }
        unavailable
    }

    /// Completes the interrupted exchanges of runs, and names the sessions for which that failed.
    pub fn recover_pending_tool_exchanges<E: Fn(&ConversationMessage) -> Vec<u8>>(
        &mut self,
        scope: &Option<String>,
        encode: &E,
    ) -> (unavailable: Vec<String>)
        requires
            forall|message: &ConversationMessage| encode.requires((message,)),
        ensures
            exchanges_recovered(
                *old(self),
                *final(self),
                *scope,
                PendingTable::Run,
                *encode,
                unavailable@,
            ),
    {
        self.recover_pending_exchanges(scope, PendingTable::Run, encode)
    }

    /// Completes the interrupted exchanges of delegated tasks, and names the tasks for which that
    /// failed.
    pub fn recover_pending_child_tool_exchanges<E: Fn(&ConversationMessage) -> Vec<u8>>(
        &mut self,
        scope: &Option<String>,
        encode: &E,
    ) -> (unavailable: Vec<String>)
        requires
            forall|message: &ConversationMessage| encode.requires((message,)),
        ensures
            exchanges_recovered(
                *old(self),
                *final(self),
                *scope,
                PendingTable::ChildTask,
                *encode,
                unavailable@,
            ),
    {
        self.recover_pending_exchanges(scope, PendingTable::ChildTask, encode)
    }
}

} // verus!
