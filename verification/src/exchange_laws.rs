//! What holds of tool exchanges as a whole: every call is answered once, and none runs twice.

use std::sync::Arc;
use vstd::prelude::*;

use crate::append_effect::{
    has_other_receipt, purpose_applied, starts_other_receipt, AppendPurpose,
    ConversationStorageTarget, PurposeTables,
};
use crate::conversation::RecordedMessage;
use crate::engine::StorageEngine;
use crate::exchange_recovery::{answers, recovered_id, recovered_ready};
use crate::message::{call_ids, distinct, held, open_after, open_calls, ConversationMessage};
use crate::rows::{PendingStart, StoredSkillActivation};
use crate::table::{kept, kept_rows, some_row};
use crate::text::{decimal, decimals_differ};
use crate::tool_exchange::{
    calls_of, calls_refusal, exchange_refusal, exchanges, ids_of, is_exchange, is_start,
    messages_in, start_refusal, starts, ExecutionStart, PendingExchange, PendingTable,
    ReadyExchange,
};

verus! {

/// Once a call is recorded as started, it cannot be recorded as started again.
pub proof fn a_call_starts_once(
    before: StorageEngine,
    after: StorageEngine,
    start: ExecutionStart,
    again: ExecutionStart,
    table: PendingTable,
)
    requires
        start_refusal(before, start, table) is None,
        exchanges(after, table) == exchanges(before, table),
        starts(after, table) == starts(before, table).push(
            PendingStart {
                receipt_id: start.receipt_id,
                call_id: start.call_id,
                started_at_ms: start.started_at_ms,
            },
        ),
        again.receipt_id@ == start.receipt_id@,
        again.call_id@ == start.call_id@,
    ensures
        start_refusal(after, again, table) is Some,
{
    let rows = starts(after, table);
    let condition = is_start(again.receipt_id@, again.call_id@);
    assert(condition(rows[rows.len() - 1]));
    assert(some_row(rows, condition));
}

proof fn answered_calls_are_closed(
    assistant: Arc<RecordedMessage>,
    results: Seq<Arc<RecordedMessage>>,
    n: int,
)
    requires
        *assistant.message is Assistant,
        distinct(ids_of(*assistant.message)),
        results.len() == calls_of(*assistant.message).len(),
        0 <= n <= results.len(),
        forall|i: int|
            0 <= i < results.len() ==> *(#[trigger] results[i]).message is Tool && (
            *results[i].message)->Tool_0.result.call_id@ == ids_of(*assistant.message)[i],
    ensures
        open_calls(messages_in(seq![assistant] + results).take(n + 1)) == Some(
            ids_of(*assistant.message).skip(n),
        ),
    decreases n,
{
    let all = messages_in(seq![assistant] + results);
    let ids = ids_of(held(held(assistant).message));
    let part = all.take(n + 1);
    if n == 0 {
        assert(part.drop_last() =~= Seq::empty());
        assert(open_calls(part.drop_last()) == Some(Seq::<Seq<char>>::empty()));
        assert(part.last() == assistant.message);
        assert(ids.skip(0) =~= ids);
        assert(ids =~= call_ids((*assistant.message)->Assistant_0));
        assert(open_calls(part) == open_after(Seq::empty(), *assistant.message));
    } else {
        answered_calls_are_closed(assistant, results, n - 1);
        assert(part.drop_last() =~= all.take(n));
        assert((seq![assistant] + results)[n] == results[n - 1]);
        assert(part.last() == results[n - 1].message);
        let open = ids.skip(n - 1);
        let call = ids[n - 1];
        assert(open[0] == call);
        assert(open.contains(call));
        open.index_of_first_ensures(call);
        let place = open.index_of_first(call)->0;
        if place != 0 {
            assert(open[0] != call);
        }
        assert(open.remove(0) =~= ids.skip(n));
        assert(open_calls(part) == open_after(open, *results[n - 1].message));
    }
}

/// Recovered results always answer the calls of their exchange, one for each.
pub proof fn recovered_results_are_accepted<E: Fn(&ConversationMessage) -> Vec<u8>>(
    engine: StorageEngine,
    row: PendingExchange,
    table: PendingTable,
    ready: ReadyExchange,
    encode: E,
)
    requires
        calls_refusal(*row.assistant.message) is None,
        recovered_ready(engine, row, table, ready, encode),
    ensures
        exchange_refusal(row.assistant, ready.results@) is None,
{
    let results = ready.results@;
    let message = held(held(row.assistant).message);
    let ids = ids_of(message);
    let calls = calls_of(message);
    assert forall|i: int| 0 <= i < results.len() implies *(#[trigger] results[i]).message is Tool
        && (*results[i].message)->Tool_0.result.call_id@ == ids[i] by {
        assert(answers(
            engine,
            row,
            table,
            i,
            calls[i],
            (*ready.results@[i].message)->Tool_0,
        ));
    }
    answered_calls_are_closed(row.assistant, results, results.len() as int);
    let all = messages_in(seq![row.assistant] + results);
    assert(all.take(results.len() as int + 1) =~= all);
    assert(ids.skip(results.len() as int) =~= Seq::empty());
}

/// No two recovered results of an exchange share an identifier.
pub proof fn recovered_ids_are_distinct(receipt_id: Seq<char>, left: nat, right: nat)
    requires
        recovered_id(receipt_id, left) == recovered_id(receipt_id, right),
    ensures
        left == right,
{
    let head = "recovered-"@ + receipt_id + "-"@;
    let text = recovered_id(receipt_id, left);
    assert(text.skip(head.len() as int) =~= decimal(left + 1));
    assert(text.skip(head.len() as int) =~= decimal(right + 1));
    decimals_differ(left + 1, right + 1);
}

/// Once its messages are in the conversation, nothing is left of an exchange.
pub proof fn completed_exchange_is_gone(
    tables: PurposeTables,
    session_id: String,
    run_id: String,
    receipt_id: String,
    skill_activations: Arc<Vec<StoredSkillActivation>>,
    created_at_ms: i64,
    call_id: Seq<char>,
)
    ensures
        ({
            let after = purpose_applied(
                tables,
                ConversationStorageTarget::Session { session_id, run_id },
                AppendPurpose::ToolExchange { receipt_id, skill_activations },
                created_at_ms,
            );
            &&& !some_row(after.exchanges, is_exchange(receipt_id@))
            &&& !some_row(after.starts, is_start(receipt_id@, call_id))
        }),
{
    kept_rows(tables.exchanges, has_other_receipt(receipt_id@));
    kept_rows(tables.starts, starts_other_receipt(receipt_id@));
    let exchanges = kept(tables.exchanges, has_other_receipt(receipt_id@));
    let starts = kept(tables.starts, starts_other_receipt(receipt_id@));
    assert forall|i: int| 0 <= i < exchanges.len() implies !is_exchange(receipt_id@)(
        #[trigger] exchanges[i],
    ) by {
        assert(has_other_receipt(receipt_id@)(exchanges[i]));
    }
    assert forall|i: int| 0 <= i < starts.len() implies !is_start(receipt_id@, call_id)(
        #[trigger] starts[i],
    ) by {
        assert(starts_other_receipt(receipt_id@)(starts[i]));
    }
}

} // verus!
