//! What a conversation is told of the tool calls that a restart cut off.

use vstd::prelude::*;


use std::sync::Arc;

use crate::append_effect::ConversationStorageTarget;
use crate::engine::{current_conversation, StorageEngine};
use crate::exchange_recovery::{
    answer_refusal, answers, child_target, delegated, is_answer, is_delegate, is_failure_report,
    spoken_text, status_code,
};
use crate::message::{
    held, AssistantPart, ConversationMessage, JsonField, JsonValue, ToolCall, ToolMessage,
    ToolResultContent,
};
use crate::relations::{found_leads, leading_is_found, leads};
use crate::rows::{ChildTaskRow, ChildTaskStatus};
use crate::table::{first, some_row};
use crate::tool_exchange::{is_start, starts, PendingExchange, PendingTable, PendingTarget};

verus! {

/// The member of an object that has a name, where one and only one has it.
pub open spec fn has_member(value: JsonValue, name: Seq<char>, inner: JsonValue) -> bool {
    &&& value is Object
    &&& exists|i: int| #[trigger] is_member(value->Object_0@, i, name, inner)
}

/// A member of an object, and the only one of its name.
pub open spec fn is_member(
    fields: Seq<JsonField>,
    i: int,
    name: Seq<char>,
    inner: JsonValue,
) -> bool {
    &&& 0 <= i < fields.len()
    &&& fields[i].name@ == name
    &&& fields[i].value == inner
    &&& forall|j: int| 0 <= j < fields.len() && j != i ==> (#[trigger] fields[j]).name@ != name
}

/// A member that is a text.
pub open spec fn says(value: JsonValue, name: Seq<char>, text: Seq<char>) -> bool {
    exists|inner: JsonValue| #[trigger]
        has_member(value, name, inner) && inner is Text && inner->Text_0@ == text
}

/// A member that is null.
pub open spec fn says_nothing(value: JsonValue, name: Seq<char>) -> bool {
    has_member(value, name, JsonValue::Null)
}

/// A member says one thing only.
pub proof fn a_member_says_one_thing(
    value: JsonValue,
    name: Seq<char>,
    left: Seq<char>,
    right: Seq<char>,
)
    requires
        says(value, name, left),
        says(value, name, right),
    ensures
        left == right,
{
    let one = choose|inner: JsonValue| #[trigger]
        has_member(value, name, inner) && inner is Text && inner->Text_0@ == left;
    let other = choose|inner: JsonValue| #[trigger]
        has_member(value, name, inner) && inner is Text && inner->Text_0@ == right;
    let i = choose|i: int| #[trigger] is_member(value->Object_0@, i, name, one);
    let j = choose|j: int| #[trigger] is_member(value->Object_0@, j, name, other);
    assert(i == j);
}

/// The details of a report that a task did not complete.
pub open spec fn has_details(content: ToolResultContent, details: JsonValue) -> bool {
    &&& content is Json
    &&& exists|error: JsonValue|
        #![trigger has_member(content->Json_0, "error"@, error)]
        has_member(content->Json_0, "error"@, error) && says(
            error,
            "message"@,
            "child task did not complete"@,
        ) && has_member(error, "details"@, details)
}

/// The status that a report gives a task, in either form that a report has.
pub open spec fn reports_status(content: ToolResultContent, status: Seq<char>) -> bool {
    &&& content is Json
    &&& says(content->Json_0, "status"@, status) || exists|details: JsonValue| #[trigger]
        has_details(content, details) && says(details, "status"@, status)
}

/// A call was started before the restart.
pub open spec fn was_started(
    engine: StorageEngine,
    table: PendingTable,
    receipt_id: Seq<char>,
    call_id: Seq<char>,
) -> bool {
    match table {
        PendingTable::Run => exists|k: int|
            0 <= k < engine.pending_starts@.len() && (
            #[trigger] engine.pending_starts@[k]).receipt_id@ == receipt_id
                && engine.pending_starts@[k].call_id@ == call_id,
        PendingTable::ChildTask => exists|k: int|
            0 <= k < engine.child_pending_starts@.len() && (
            #[trigger] engine.child_pending_starts@[k]).receipt_id@ == receipt_id
                && engine.child_pending_starts@[k].call_id@ == call_id,
    }
}

proof fn started_is_found(
    engine: StorageEngine,
    table: PendingTable,
    receipt_id: Seq<char>,
    call_id: Seq<char>,
)
    ensures
        some_row(starts(engine, table), is_start(receipt_id, call_id)) == was_started(
            engine,
            table,
            receipt_id,
            call_id,
        ),
{
    let rows = starts(engine, table);
    if some_row(rows, is_start(receipt_id, call_id)) {
        let k = choose|k: int|
            0 <= k < rows.len() && is_start(receipt_id, call_id)(#[trigger] rows[k]);
        assert(rows[k].receipt_id@ == receipt_id);
    }
    if was_started(engine, table, receipt_id, call_id) {
        let k = choose|k: int|
            0 <= k < rows.len() && (#[trigger] rows[k]).receipt_id@ == receipt_id
                && rows[k].call_id@ == call_id;
        assert(is_start(receipt_id, call_id)(rows[k]));
    }
}

/// The task that a call of a run was for.
pub open spec fn is_task_of_call(
    tasks: Seq<ChildTaskRow>,
    t: int,
    session_id: Seq<char>,
    run_id: Seq<char>,
    call_id: Seq<char>,
) -> bool {
    &&& 0 <= t < tasks.len()
    &&& tasks[t].session_id@ == session_id
    &&& tasks[t].parent_run_id@ == run_id
    &&& tasks[t].parent_tool_call_id@ == call_id
    &&& forall|j: int|
        0 <= j < t ==> (#[trigger] tasks[j]).session_id@ != session_id || tasks[j].parent_run_id@
            != run_id || tasks[j].parent_tool_call_id@ != call_id
}

proof fn task_is_found(
    tasks: Seq<ChildTaskRow>,
    session_id: Seq<char>,
    run_id: Seq<char>,
    call_id: Seq<char>,
)
    ensures
        forall|t: int| #[trigger]
            is_task_of_call(tasks, t, session_id, run_id, call_id) ==> first(
                tasks,
                is_delegate(session_id, run_id, call_id),
            ) == Some(t),
        first(tasks, is_delegate(session_id, run_id, call_id)) is Some ==> is_task_of_call(
            tasks,
            first(tasks, is_delegate(session_id, run_id, call_id))->0,
            session_id,
            run_id,
            call_id,
        ),
{
    let plain = |row: ChildTaskRow|
        row.session_id@ == session_id && row.parent_run_id@ == run_id && row.parent_tool_call_id@
            == call_id;
    found_leads(tasks, is_delegate(session_id, run_id, call_id), plain);
    match first(tasks, is_delegate(session_id, run_id, call_id)) {
        Some(k) => {
            assert forall|j: int| 0 <= j < k implies (#[trigger] tasks[j]).session_id@ != session_id
                || tasks[j].parent_run_id@ != run_id || tasks[j].parent_tool_call_id@
                != call_id by {
                assert(!plain(tasks[j]));
            }
            assert forall|t: int| #[trigger]
                is_task_of_call(tasks, t, session_id, run_id, call_id) implies t == k by {
                if t < k {
                    assert(!plain(tasks[t]));
                } else if k < t {
                    assert(plain(tasks[k]));
                }
            }
        },
        None => {
            assert forall|t: int| #[trigger]
                is_task_of_call(tasks, t, session_id, run_id, call_id) implies false by {
                assert(!plain(tasks[t]));
            }
        },
    }
}

/// The statuses that a report gives, by the state in which a task was left.
pub open spec fn is_status_for(state: ChildTaskStatus, text: Seq<char>) -> bool {
    &&& state is Completed <==> text == "completed"@
    &&& state is Failed <==> text == "failed"@
    &&& state is Cancelled <==> text == "cancelled"@
    &&& (state is Accepted || state is Running || state is Interrupted) <==> text
        == "interrupted"@
}

/// The code that a report gives is that of the error, where there is one, and the status else.
pub open spec fn is_coded(details: JsonValue, task: ChildTaskRow) -> bool {
    exists|text: Seq<char>| #[trigger]
        says(details, "code"@, text) && match task.error_code {
            Some(code) => text == code@,
            None => is_status_for(task.status, text),
        }
}

proof fn statuses_differ()
    ensures
        "completed"@ != "failed"@,
        "completed"@ != "cancelled"@,
        "completed"@ != "interrupted"@,
        "failed"@ != "cancelled"@,
        "failed"@ != "interrupted"@,
        "cancelled"@ != "interrupted"@,
        "task_id"@ != "status"@,
        "task_id"@ != "code"@,
        "status"@ != "code"@,
        "status"@ != "result"@,
        "task_id"@ != "result"@,
        "message"@ != "details"@,
        "status"@ != "error"@,
{
    reveal_strlit("completed");
    reveal_strlit("failed");
    reveal_strlit("cancelled");
    reveal_strlit("interrupted");
    reveal_strlit("task_id");
    reveal_strlit("status");
    reveal_strlit("code");
    reveal_strlit("result");
    reveal_strlit("message");
    reveal_strlit("details");
    reveal_strlit("error");
    assert("completed"@[1] == 'o' && "cancelled"@[1] == 'a');
    assert("completed"@.len() == 9 && "cancelled"@.len() == 9 && "failed"@.len() == 6
        && "interrupted"@.len() == 11);
    assert("task_id"@.len() == 7 && "status"@.len() == 6 && "code"@.len() == 4 && "result"@.len()
        == 6 && "error"@.len() == 5);
    assert("status"@[0] == 's' && "result"@[0] == 'r');
    assert("message"@[0] == 'm' && "details"@[0] == 'd');
}

/// Of a delegated task whose call was started, the conversation is told the state in which the task
/// was left, and no other: a failed task is reported as failed, a cancelled one as cancelled, one
/// that had not ended as interrupted, and none but a completed one as completed. Only a completed
/// task is told as a success.
pub proof fn started_tasks_are_reported_by_their_state(
    engine: StorageEngine,
    row: PendingExchange,
    table: PendingTable,
    index: int,
    call: ToolCall,
    message: ToolMessage,
    session_id: String,
    run_id: String,
    t: int,
)
    requires
        answers(engine, row, table, index, call, message),
        row.target == (PendingTarget::Run { session_id, run_id }),
        call.name@ == "delegate_task"@,
        was_started(engine, table, row.receipt_id@, call.id@),
        is_task_of_call(engine.child_tasks@, t, session_id@, run_id@, call.id@),
    ensures
        message.result.call_id == call.id,
        (message.result.status is Success) == (engine.child_tasks@[t].status is Completed),
        exists|status: Seq<char>| #[trigger] reports_status(message.result.content, status),
        forall|status: Seq<char>| #[trigger]
            reports_status(message.result.content, status) ==> is_status_for(
                engine.child_tasks@[t].status,
                status,
            ),
        !(engine.child_tasks@[t].status is Completed) ==> exists|details: JsonValue|
            {
                &&& #[trigger] has_details(message.result.content, details)
                &&& says(details, "task_id"@, engine.child_tasks@[t].child_task_id@)
                &&& is_coded(details, engine.child_tasks@[t])
            },
        engine.child_tasks@[t].status is Completed ==> message.result.content is Json && says(
            message.result.content->Json_0,
            "task_id"@,
            engine.child_tasks@[t].child_task_id@,
        ),
{
    started_is_found(engine, table, row.receipt_id@, call.id@);
    task_is_found(engine.child_tasks@, session_id@, run_id@, call.id@);
    statuses_differ();
    let task = engine.child_tasks@[t];
    let content = message.result.content;
    assert(delegated(engine, row, table, call));
    let whole = content->Json_0;
    let fields = whole->Object_0@;
    if task.status is Completed {
        assert(is_member(fields, 0, "task_id"@, fields[0].value));
        assert(has_member(whole, "task_id"@, fields[0].value));
        assert(says(whole, "task_id"@, task.child_task_id@));
        assert(is_member(fields, 1, "status"@, fields[1].value));
        assert(has_member(whole, "status"@, fields[1].value));
        assert(says(whole, "status"@, "completed"@));
        assert(reports_status(content, "completed"@));
        assert forall|status: Seq<char>| #[trigger] reports_status(content, status) implies status
            == "completed"@ by {
            if says(whole, "status"@, status) {
                a_member_says_one_thing(whole, "status"@, status, "completed"@);
            } else {
                let details = choose|details: JsonValue| #[trigger]
                    has_details(content, details) && says(details, "status"@, status);
                let error = choose|error: JsonValue|
                    #![trigger has_member(whole, "error"@, error)]
                    has_member(whole, "error"@, error);
                let i = choose|i: int| #[trigger] is_member(fields, i, "error"@, error);
                reveal_strlit("task_id");
                reveal_strlit("status");
                reveal_strlit("result");
                reveal_strlit("error");
                assert(fields[i].name@.len() == 5);
            }
        }
    } else {
        let error = fields[0].value;
        let parts = error->Object_0@;
        let details = parts[1].value;
        let members = details->Object_0@;
        failure_has_details(content, Some(task.child_task_id@), status_code(task.status), match task.error_code {
            Some(code) => code@,
            None => status_code(task.status),
        });
        assert(says(details, "status"@, status_code(task.status)));
        assert(reports_status(content, status_code(task.status)));
        assert(is_status_for(task.status, status_code(task.status)));
        assert forall|status: Seq<char>| #[trigger] reports_status(content, status) implies status
            == status_code(task.status) by {
            if says(whole, "status"@, status) {
                let inner = choose|inner: JsonValue| #[trigger] has_member(whole, "status"@, inner);
                let i = choose|i: int| #[trigger] is_member(fields, i, "status"@, inner);
                assert(false);
            } else {
                let other = choose|other: JsonValue| #[trigger]
                    has_details(content, other) && says(other, "status"@, status);
                details_are_one(content, details, other);
                a_member_says_one_thing(details, "status"@, status, status_code(task.status));
            }
        }
    }
}

proof fn details_are_one(content: ToolResultContent, left: JsonValue, right: JsonValue)
    requires
        has_details(content, left),
        has_details(content, right),
    ensures
        left == right,
{
    let whole = content->Json_0;
    let one = choose|error: JsonValue|
        #![trigger has_member(whole, "error"@, error)]
        has_member(whole, "error"@, error) && says(
            error,
            "message"@,
            "child task did not complete"@,
        ) && has_member(error, "details"@, left);
    let other = choose|error: JsonValue|
        #![trigger has_member(whole, "error"@, error)]
        has_member(whole, "error"@, error) && says(
            error,
            "message"@,
            "child task did not complete"@,
        ) && has_member(error, "details"@, right);
    let i = choose|i: int| #[trigger] is_member(whole->Object_0@, i, "error"@, one);
    let j = choose|j: int| #[trigger] is_member(whole->Object_0@, j, "error"@, other);
    assert(i == j);
    let k = choose|k: int| #[trigger] is_member(one->Object_0@, k, "details"@, left);
    let l = choose|l: int| #[trigger] is_member(one->Object_0@, l, "details"@, right);
    assert(k == l);
}

proof fn failure_has_details(
    content: ToolResultContent,
    task_id: Option<Seq<char>>,
    status: Seq<char>,
    code: Seq<char>,
)
    requires
        is_failure_report(content, task_id, status, code),
    ensures
        ({
            let details = content->Json_0->Object_0@[0].value->Object_0@[1].value;
            &&& has_details(content, details)
            &&& match task_id {
                Some(task_id) => says(details, "task_id"@, task_id),
                None => says_nothing(details, "task_id"@),
            }
            &&& says(details, "status"@, status)
            &&& says(details, "code"@, code)
        }),
{
    statuses_differ();
    let whole = content->Json_0;
    let fields = whole->Object_0@;
    let error = fields[0].value;
    let parts = error->Object_0@;
    let details = parts[1].value;
    let members = details->Object_0@;
    assert(is_member(fields, 0, "error"@, error));
    assert(has_member(whole, "error"@, error));
    assert(is_member(parts, 0, "message"@, parts[0].value));
    assert(has_member(error, "message"@, parts[0].value));
    assert(says(error, "message"@, "child task did not complete"@));
    assert(is_member(parts, 1, "details"@, details));
    assert(has_member(error, "details"@, details));
    assert(has_details(content, details));
    assert(is_member(members, 0, "task_id"@, members[0].value));
    assert(has_member(details, "task_id"@, members[0].value));
    assert(is_member(members, 1, "status"@, members[1].value));
    assert(has_member(details, "status"@, members[1].value));
    assert(is_member(members, 2, "code"@, members[2].value));
    assert(has_member(details, "code"@, members[2].value));
}

/// Of a delegated task whose call was started and that was never recorded, the conversation is told
/// that it was interrupted, and no identifier.
pub proof fn unrecorded_tasks_are_reported_as_interrupted(
    engine: StorageEngine,
    row: PendingExchange,
    table: PendingTable,
    index: int,
    call: ToolCall,
    message: ToolMessage,
    session_id: String,
    run_id: String,
)
    requires
        answers(engine, row, table, index, call, message),
        row.target == (PendingTarget::Run { session_id, run_id }),
        call.name@ == "delegate_task"@,
        was_started(engine, table, row.receipt_id@, call.id@),
        forall|t: int|
            !#[trigger] is_task_of_call(
                engine.child_tasks@,
                t,
                session_id@,
                run_id@,
                call.id@,
            ),
    ensures
        message.result.call_id == call.id,
        message.result.status is Error,
        exists|details: JsonValue| #[trigger]
            has_details(message.result.content, details) && says_nothing(details, "task_id"@)
                && says(details, "status"@, "interrupted"@) && says(
                details,
                "code"@,
                "interrupted"@,
            ),
{
    started_is_found(engine, table, row.receipt_id@, call.id@);
    task_is_found(engine.child_tasks@, session_id@, run_id@, call.id@);
    assert(delegated(engine, row, table, call));
    failure_has_details(message.result.content, None, "interrupted"@, "interrupted"@);
}

/// Of any other call, and of any call of a delegated task, the conversation is told as an error
/// whether its execution had started; and a call that had not started is told so whatever it was for.
pub proof fn other_calls_are_reported_by_their_start(
    engine: StorageEngine,
    row: PendingExchange,
    table: PendingTable,
    index: int,
    call: ToolCall,
    message: ToolMessage,
)
    requires
        answers(engine, row, table, index, call, message),
        call.name@ != "delegate_task"@ || row.target is ChildTask || !was_started(
            engine,
            table,
            row.receipt_id@,
            call.id@,
        ),
    ensures
        message.result.call_id == call.id,
        message.result.status is Error,
        message.result.content is Text,
        was_started(engine, table, row.receipt_id@, call.id@) ==> message.result.content->Text_0@
            == "runtime restarted; tool execution outcome is unknown"@,
        !was_started(engine, table, row.receipt_id@, call.id@) ==> message.result.content->Text_0@
            == "runtime restarted before tool execution started"@,
{
    started_is_found(engine, table, row.receipt_id@, call.id@);
}

/// A message that can give the answer of a task.
pub open spec fn is_final_message(message: ConversationMessage, message_id: Seq<char>) -> bool {
    match message {
        ConversationMessage::Assistant(message) => message.id@ == message_id,
        _ => false,
    }
}

/// Of a completed task, the conversation is told what its final message says: the first message of
/// the task that is an answer and has the identifier that the task names.
pub proof fn completed_tasks_are_reported_with_their_answer(
    engine: StorageEngine,
    row: PendingExchange,
    table: PendingTable,
    index: int,
    call: ToolCall,
    message: ToolMessage,
    session_id: String,
    run_id: String,
    t: int,
    m: int,
)
    requires
        answers(engine, row, table, index, call, message),
        row.target == (PendingTarget::Run { session_id, run_id }),
        call.name@ == "delegate_task"@,
        was_started(engine, table, row.receipt_id@, call.id@),
        is_task_of_call(engine.child_tasks@, t, session_id@, run_id@, call.id@),
        engine.child_tasks@[t].status is Completed,
        engine.child_tasks@[t].final_message_id is Some,
        ({
            let conversation = current_conversation(
                engine,
                ConversationStorageTarget::ChildTask {
                    session_id,
                    child_task_id: engine.child_tasks@[t].child_task_id,
                },
            );
            let id = engine.child_tasks@[t].final_message_id->0@;
            &&& conversation is Ok
            &&& 0 <= m < conversation->Ok_0.len()
            &&& is_final_message(held(conversation->Ok_0[m]), id)
            &&& forall|n: int|
                0 <= n < m ==> !is_final_message(held(#[trigger] conversation->Ok_0[n]), id)
        }),
    ensures
        answer_refusal(engine, row, table, call) is None,
        message.result.status is Success,
        message.result.content is Json,
        says(
            message.result.content->Json_0,
            "result"@,
            spoken_text(
                held(
                    current_conversation(
                        engine,
                        ConversationStorageTarget::ChildTask {
                            session_id,
                            child_task_id: engine.child_tasks@[t].child_task_id,
                        },
                    )->Ok_0[m],
                )->Assistant_0.parts@,
            ),
        ),
{
    started_is_found(engine, table, row.receipt_id@, call.id@);
    task_is_found(engine.child_tasks@, session_id@, run_id@, call.id@);
    statuses_differ();
    let task = engine.child_tasks@[t];
    assert(delegated(engine, row, table, call));
    let messages = current_conversation(
        engine,
        ConversationStorageTarget::ChildTask { session_id, child_task_id: task.child_task_id },
    )->Ok_0;
    let id = task.final_message_id->0@;
    let plain = |message: Arc<ConversationMessage>| is_final_message(held(message), id);
    assert forall|n: int| 0 <= n < messages.len() implies is_answer(id)(#[trigger] messages[n])
        == plain(messages[n]) by {}
    assert(leads(messages, m, plain));
    leading_is_found(messages, is_answer(id), plain, m);
    let whole = message.result.content->Json_0;
    let fields = whole->Object_0@;
    assert(is_member(fields, 2, "result"@, fields[2].value));
    assert(has_member(whole, "result"@, fields[2].value));
}

/// An exchange cannot be answered exactly where a completed task has no final message to be read.
pub proof fn answers_are_refused_for_want_of_an_answer(
    engine: StorageEngine,
    row: PendingExchange,
    table: PendingTable,
    call: ToolCall,
)
    ensures
        answer_refusal(engine, row, table, call) is Some ==> {
            &&& row.target is Run
            &&& call.name@ == "delegate_task"@
            &&& was_started(engine, table, row.receipt_id@, call.id@)
            &&& exists|t: int|
                {
                    &&& #[trigger] is_task_of_call(
                        engine.child_tasks@,
                        t,
                        row.target->Run_session_id@,
                        row.target->run_id@,
                        call.id@,
                    )
                    &&& engine.child_tasks@[t].status is Completed
                    &&& lacks_answer(engine, row.target->Run_session_id, engine.child_tasks@[t])
                }
        },
        call.name@ == "delegate_task"@ && row.target is Run && was_started(
            engine,
            table,
            row.receipt_id@,
            call.id@,
        ) && (exists|t: int|
            {
                &&& #[trigger] is_task_of_call(
                    engine.child_tasks@,
                    t,
                    row.target->Run_session_id@,
                    row.target->run_id@,
                    call.id@,
                )
                &&& engine.child_tasks@[t].status is Completed
                &&& lacks_answer(engine, row.target->Run_session_id, engine.child_tasks@[t])
            }) ==> answer_refusal(engine, row, table, call) is Some,
{
    started_is_found(engine, table, row.receipt_id@, call.id@);
    if row.target is Run {
        let s = row.target->Run_session_id;
        let r = row.target->run_id;
        task_is_found(engine.child_tasks@, s@, r@, call.id@);
        match first(engine.child_tasks@, is_delegate(s@, r@, call.id@)) {
            Some(t) => {
                let task = engine.child_tasks@[t];
                if task.final_message_id is Some {
                    let conversation = current_conversation(engine, child_target(task, s));
                    if conversation is Ok {
                        let messages = conversation->Ok_0;
                        let id = task.final_message_id->0@;
                        let plain = |message: Arc<ConversationMessage>|
                            is_final_message(held(message), id);
                        found_leads(messages, is_answer(id), plain);
                        if first(messages, is_answer(id)) is Some {
                            let m = first(messages, is_answer(id))->0;
                            assert(plain(messages[m]));
                            assert(is_final_message(held(messages[m]), id));
                            assert(!lacks_answer(engine, s, task));
                        } else {
                            assert forall|n: int| 0 <= n < messages.len() implies !is_final_message(
                                held(#[trigger] messages[n]),
                                id,
                            ) by {
                                assert(!plain(messages[n]));
                            }
                            assert(lacks_answer(engine, s, task));
                        }
                    }
                }
            },
            None => {},
        }
    }
}

/// A task without a final message that can be read.
pub open spec fn lacks_answer(engine: StorageEngine, session_id: String, task: ChildTaskRow) -> bool {
    let conversation = current_conversation(
        engine,
        ConversationStorageTarget::ChildTask { session_id, child_task_id: task.child_task_id },
    );
    ||| task.final_message_id is None
    ||| conversation is Err
    ||| forall|n: int|
        0 <= n < conversation->Ok_0.len() ==> !is_final_message(
            held(#[trigger] conversation->Ok_0[n]),
            task.final_message_id->0@,
        )
}

/// What an answer says is its parts of text, one behind the other, and nothing else.
pub proof fn answers_say_their_texts(parts: Seq<AssistantPart>, more: Seq<AssistantPart>)
    ensures
        spoken_text(parts + more) == spoken_text(parts) + spoken_text(more),
        forall|part: AssistantPart| #[trigger]
            spoken_text(seq![part]) == match part {
                AssistantPart::Text(part) => part.text@,
                _ => Seq::<char>::empty(),
            },
        spoken_text(Seq::empty()) == Seq::<char>::empty(),
    decreases more.len(),
{
    let all = parts + more;
    if more.len() == 0 {
        assert(all =~= parts);
        assert(spoken_text(parts) + spoken_text(more) =~= spoken_text(parts));
    } else {
        answers_say_their_texts(parts, more.drop_last());
        assert(all.drop_last() =~= parts + more.drop_last());
        assert(all.last() == more.last());
        match more.last() {
            AssistantPart::Text(part) => {
                assert((spoken_text(parts) + spoken_text(more.drop_last())) + part.text@
                    =~= spoken_text(parts) + (spoken_text(more.drop_last()) + part.text@));
            },
            _ => {},
        }
    }
    assert forall|part: AssistantPart| #[trigger] spoken_text(seq![part]) == match part {
        AssistantPart::Text(part) => part.text@,
        _ => Seq::<char>::empty(),
    } by {
        let one = seq![part];
        assert(one.drop_last() =~= Seq::empty());
        assert(one.last() == part);
        assert(spoken_text(Seq::empty()) =~= Seq::<char>::empty());
        match part {
            AssistantPart::Text(part) => {
                assert(Seq::<char>::empty() + part.text@ =~= part.text@);
            },
            _ => {},
        }
    }
}

} // verus!
