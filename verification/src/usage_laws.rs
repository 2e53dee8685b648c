//! What the tokens of requests add up to.

use std::sync::Arc;
use vstd::prelude::*;

use crate::append_effect::owner_of;
use crate::emptying_laws::nothing_is_used;
use crate::engine::StorageEngine;
use crate::error::Refusal;
use crate::message::{held, ConversationMessage, TokenUsage};
use crate::recovery::{
    announced, attempted, finalization_refusal, payload_messages, run_of, usage_tables, written,
    AppendTable,
};
use crate::relations::found_leads;
use crate::rows::{
    ConversationOwner, ModelRequestRecord, RequestKind, SessionUsage, SessionUsageRow,
};
use crate::table::{first, some_row};
use crate::usage::{
    is_usage_of, records_request, requests_of, requests_of_message, with_request, with_requests,
    UsageTables,
};

verus! {

/// A request of a session itself, not of one of its tasks.
pub open spec fn is_made_by(record: ModelRequestRecord, session_id: Seq<char>) -> bool {
    match record.owner {
        ConversationOwner::MainSession { session_id: owner } => owner@ == session_id,
        ConversationOwner::ChildTask { session_id: owner, child_task_id } => false,
    }
}

/// What the requests of a session itself come to in one respect.
pub open spec fn total(
    records: Seq<ModelRequestRecord>,
    session_id: Seq<char>,
    amount: spec_fn(TokenUsage) -> int,
) -> int
    decreases records.len(),
{
    if records.len() == 0 {
        0
    } else {
        total(records.drop_last(), session_id, amount) + if is_made_by(
            records.last(),
            session_id,
        ) {
            amount(records.last().usage)
        } else {
            0
        }
    }
}

/// A number that may be missing, as a summand.
pub open spec fn summand(value: Option<u64>) -> int {
    match value {
        Some(value) => value as int,
        None => 0int,
    }
}

/// One for each number that is not missing.
pub open spec fn present(value: Option<u64>) -> int {
    match value {
        Some(_) => 1int,
        None => 0int,
    }
}

/// The place of a session's usage: the first row that has its identifier.
pub open spec fn counts_for(rows: Seq<SessionUsageRow>, i: int, session_id: Seq<char>) -> bool {
    &&& 0 <= i < rows.len()
    &&& rows[i].session_id@ == session_id
    &&& forall|j: int| 0 <= j < i ==> (#[trigger] rows[j]).session_id@ != session_id
}

/// The usage of a session is found where it counts.
pub proof fn usage_counts_where_found(rows: Seq<SessionUsageRow>, session_id: Seq<char>)
    ensures
        first(rows, is_usage_of(session_id)) is Some ==> counts_for(
            rows,
            first(rows, is_usage_of(session_id))->0,
            session_id,
        ),
        forall|i: int| #[trigger]
            counts_for(rows, i, session_id) ==> first(rows, is_usage_of(session_id)) == Some(i),
        first(rows, is_usage_of(session_id)) is None ==> forall|i: int|
            0 <= i < rows.len() ==> (#[trigger] rows[i]).session_id@ != session_id,
{
    let plain = |row: SessionUsageRow| row.session_id@ == session_id;
    found_leads(rows, is_usage_of(session_id), plain);
    match first(rows, is_usage_of(session_id)) {
        Some(k) => {
            assert(plain(rows[k]));
            assert forall|j: int| 0 <= j < k implies (#[trigger] rows[j]).session_id@
                != session_id by {
                assert(!plain(rows[j]));
            }
            assert forall|i: int| #[trigger] counts_for(rows, i, session_id) implies i == k by {
                if i < k {
                    assert(!plain(rows[i]));
                } else if k < i {
                    assert(rows[k].session_id@ != session_id);
                }
            }
        },
        None => {
            assert forall|i: int| 0 <= i < rows.len() implies (#[trigger] rows[i]).session_id@
                != session_id by {
                assert(!plain(rows[i]));
            }
        },
    }
}

/// One request may be reported more than once: by one conversation, under one message, and both
/// times for what a summary replaced or both times not.
pub open spec fn is_reported_again(earlier: ModelRequestRecord, record: ModelRequestRecord) -> bool {
    &&& match (earlier.owner, record.owner) {
        (
            ConversationOwner::MainSession { session_id: left },
            ConversationOwner::MainSession { session_id: right },
        ) => left@ == right@,
        (
            ConversationOwner::ChildTask { session_id: _, child_task_id: left },
            ConversationOwner::ChildTask { session_id: _, child_task_id: right },
        ) => left@ == right@,
        _ => false,
    }
    &&& named_request(earlier) == named_request(record)
}

/// What a request is known by.
pub open spec fn named_request(record: ModelRequestRecord) -> Seq<char> {
    if record.request_kind is LegacyCompacted {
        record.message_id@ + ":legacy-compacted"@
    } else {
        record.message_id@
    }
}

/// The requests that a table holds are told apart as they should be.
pub proof fn repeats_are_recognised(records: Seq<ModelRequestRecord>, record: ModelRequestRecord)
    ensures
        some_row(records, records_request(record)) == (exists|i: int|
            0 <= i < records.len() && is_reported_again(#[trigger] records[i], record)),
{
    let plain = |row: ModelRequestRecord| is_reported_again(row, record);
    found_leads(records, records_request(record), plain);
    if some_row(records, records_request(record)) {
        let i = choose|i: int| 0 <= i < records.len() && plain(#[trigger] records[i]);
        assert(is_reported_again(records[i], record));
    }
    if exists|i: int| 0 <= i < records.len() && is_reported_again(#[trigger] records[i], record) {
        let i = choose|i: int|
            0 <= i < records.len() && is_reported_again(#[trigger] records[i], record);
        assert(plain(records[i]));
    }
}

/// Each number of a usage fits in the table.
pub open spec fn is_storable(usage: TokenUsage) -> bool {
    &&& usage.input_tokens <= i64::MAX
    &&& usage.output_tokens <= i64::MAX
    &&& usage.total_tokens <= i64::MAX
    &&& summand(usage.cached_input_tokens) <= i64::MAX
    &&& summand(usage.reasoning_tokens) <= i64::MAX
}

/// The sums with one more request fit in the table.
pub open spec fn has_room_for(sum: SessionUsage, usage: TokenUsage) -> bool {
    &&& sum.request_count < i64::MAX
    &&& sum.input_tokens + usage.input_tokens <= i64::MAX
    &&& sum.output_tokens + usage.output_tokens <= i64::MAX
    &&& sum.total_tokens + usage.total_tokens <= i64::MAX
    &&& sum.cached_input_tokens + summand(usage.cached_input_tokens) <= i64::MAX
    &&& sum.cached_request_count + present(usage.cached_input_tokens) <= i64::MAX
    &&& sum.reasoning_tokens + summand(usage.reasoning_tokens) <= i64::MAX
    &&& sum.reasoning_request_count + present(usage.reasoning_tokens) <= i64::MAX
}

/// One request more: every sum grows by what the request used, and the request is the latest.
pub open spec fn grows_by(sum: SessionUsage, usage: TokenUsage, next: SessionUsage) -> bool {
    &&& next.request_count == sum.request_count + 1
    &&& next.input_tokens == sum.input_tokens + usage.input_tokens
    &&& next.output_tokens == sum.output_tokens + usage.output_tokens
    &&& next.total_tokens == sum.total_tokens + usage.total_tokens
    &&& next.cached_input_tokens == sum.cached_input_tokens + summand(usage.cached_input_tokens)
    &&& next.cached_request_count == sum.cached_request_count + present(
        usage.cached_input_tokens,
    )
    &&& next.reasoning_tokens == sum.reasoning_tokens + summand(usage.reasoning_tokens)
    &&& next.reasoning_request_count == sum.reasoning_request_count + present(
        usage.reasoning_tokens,
    )
    &&& next.latest == Some(usage)
}

/// Accounting for a request of a session itself that was not accounted for yet adds to each sum of
/// the session what the request used, and to no other session anything. It fails exactly where a
/// number is too large for the table or the session has no usage there.
pub proof fn new_request_adds_to_each_sum(
    tables: UsageTables,
    record: ModelRequestRecord,
    session_id: Seq<char>,
)
    requires
        is_made_by(record, session_id),
        forall|i: int|
            0 <= i < tables.records.len() ==> !is_reported_again(
                #[trigger] tables.records[i],
                record,
            ),
    ensures
        with_request(tables, record) is Ok <==> is_storable(record.usage) && exists|i: int|
            #[trigger] counts_for(tables.usage, i, session_id) && has_room_for(
                tables.usage[i].usage,
                record.usage,
            ),
        with_request(tables, record) is Ok ==> {
            let after = with_request(tables, record)->Ok_0;
            &&& after.records == tables.records.push(record)
            &&& exists|i: int|
                #[trigger] counts_for(tables.usage, i, session_id) && after.usage.len()
                    == tables.usage.len() && grows_by(
                    tables.usage[i].usage,
                    record.usage,
                    after.usage[i].usage,
                ) && after.usage[i].session_id == tables.usage[i].session_id
                    && after.usage[i].backfilled == tables.usage[i].backfilled
                    && after.usage[i].updated_at_ms == record.completed_at_ms && forall|k: int|
                    0 <= k < tables.usage.len() && k != i ==> #[trigger] after.usage[k]
                        == tables.usage[k]
        },
{
    repeats_are_recognised(tables.records, record);
    usage_counts_where_found(tables.usage, session_id);
    if first(tables.usage, is_usage_of(session_id)) is Some {
        let i = first(tables.usage, is_usage_of(session_id))->0;
        assert(counts_for(tables.usage, i, session_id));
    }
}

/// A request that was accounted for is not accounted for again, and one of a delegated task counts
/// for no session.
pub proof fn only_new_requests_of_sessions_count(tables: UsageTables, record: ModelRequestRecord)
    requires
        is_storable(record.usage),
    ensures
        (exists|i: int|
            0 <= i < tables.records.len() && is_reported_again(#[trigger] tables.records[i], record))
            ==> with_request(tables, record) == Ok::<_, Refusal>(tables),
        record.owner is ChildTask && !(exists|i: int|
            0 <= i < tables.records.len() && is_reported_again(#[trigger] tables.records[i], record))
            ==> with_request(tables, record) == Ok::<_, Refusal>(
            UsageTables { records: tables.records.push(record), usage: tables.usage },
        ),
{
    repeats_are_recognised(tables.records, record);
}

/// The usage of a session says what its recorded requests come to, in every respect.
pub open spec fn adds_up(tables: UsageTables, session_id: Seq<char>) -> bool {
    exists|i: int| #[trigger]
        counts_for(tables.usage, i, session_id) && {
            let sum = tables.usage[i].usage;
            &&& sum.request_count == total(tables.records, session_id, |usage: TokenUsage| 1int)
            &&& sum.input_tokens == total(
                tables.records,
                session_id,
                |usage: TokenUsage| usage.input_tokens as int,
            )
            &&& sum.output_tokens == total(
                tables.records,
                session_id,
                |usage: TokenUsage| usage.output_tokens as int,
            )
            &&& sum.total_tokens == total(
                tables.records,
                session_id,
                |usage: TokenUsage| usage.total_tokens as int,
            )
            &&& sum.cached_input_tokens == total(
                tables.records,
                session_id,
                |usage: TokenUsage| summand(usage.cached_input_tokens),
            )
            &&& sum.cached_request_count == total(
                tables.records,
                session_id,
                |usage: TokenUsage| present(usage.cached_input_tokens),
            )
            &&& sum.reasoning_tokens == total(
                tables.records,
                session_id,
                |usage: TokenUsage| summand(usage.reasoning_tokens),
            )
            &&& sum.reasoning_request_count == total(
                tables.records,
                session_id,
                |usage: TokenUsage| present(usage.reasoning_tokens),
            )
        }
}

/// Whatever requests are accounted for, the usage of every session stays what its recorded requests
/// come to.
pub proof fn sums_stay_right(
    tables: UsageTables,
    records: Seq<ModelRequestRecord>,
    session_id: Seq<char>,
)
    requires
        adds_up(tables, session_id),
        with_requests(tables, records) is Ok,
    ensures
        adds_up(with_requests(tables, records)->Ok_0, session_id),
    decreases records.len(),
{
    if records.len() > 0 {
        sums_stay_right(tables, records.drop_last(), session_id);
        let earlier = with_requests(tables, records.drop_last())->Ok_0;
        one_more_request_keeps_sums(earlier, records.last(), session_id);
    }
}

proof fn one_more_request_keeps_sums(
    tables: UsageTables,
    record: ModelRequestRecord,
    session_id: Seq<char>,
)
    requires
        adds_up(tables, session_id),
        with_request(tables, record) is Ok,
    ensures
        adds_up(with_request(tables, record)->Ok_0, session_id),
{
    repeats_are_recognised(tables.records, record);
    let after = with_request(tables, record)->Ok_0;
    let i = choose|i: int| #[trigger] counts_for(tables.usage, i, session_id);
    usage_counts_where_found(tables.usage, session_id);
    if !some_row(tables.records, records_request(record)) {
        assert(after.records.drop_last() =~= tables.records);
        assert(after.records.last() == record);
        match record.owner {
            ConversationOwner::MainSession { session_id: owner } => {
                usage_counts_where_found(tables.usage, owner@);
                let k = first(tables.usage, is_usage_of(owner@))->0;
                assert(counts_for(tables.usage, k, owner@));
                assert(after.usage[k].session_id == tables.usage[k].session_id);
            },
            _ => {},
        }
        assert(counts_for(after.usage, i, session_id)) by {
            assert forall|j: int| 0 <= j < i implies (#[trigger] after.usage[j]).session_id@
                != session_id by {
                assert(tables.usage[j].session_id@ != session_id);
            }
        }
    }
}

/// An engine whose tables hold nothing of a session but an unused usage adds up.
pub proof fn unused_sessions_add_up(tables: UsageTables, session_id: Seq<char>, i: int)
    requires
        counts_for(tables.usage, i, session_id),
        nothing_is_used(tables.usage[i].usage),
        forall|k: int|
            0 <= k < tables.records.len() ==> !is_made_by(#[trigger] tables.records[k], session_id),
    ensures
        adds_up(tables, session_id),
{
    nothing_comes_to_nothing(tables.records, session_id, |usage: TokenUsage| 1int);
    nothing_comes_to_nothing(
        tables.records,
        session_id,
        |usage: TokenUsage| usage.input_tokens as int,
    );
    nothing_comes_to_nothing(
        tables.records,
        session_id,
        |usage: TokenUsage| usage.output_tokens as int,
    );
    nothing_comes_to_nothing(
        tables.records,
        session_id,
        |usage: TokenUsage| usage.total_tokens as int,
    );
    nothing_comes_to_nothing(
        tables.records,
        session_id,
        |usage: TokenUsage| summand(usage.cached_input_tokens),
    );
    nothing_comes_to_nothing(
        tables.records,
        session_id,
        |usage: TokenUsage| present(usage.cached_input_tokens),
    );
    nothing_comes_to_nothing(
        tables.records,
        session_id,
        |usage: TokenUsage| summand(usage.reasoning_tokens),
    );
    nothing_comes_to_nothing(
        tables.records,
        session_id,
        |usage: TokenUsage| present(usage.reasoning_tokens),
    );
}

proof fn nothing_comes_to_nothing(
    records: Seq<ModelRequestRecord>,
    session_id: Seq<char>,
    amount: spec_fn(TokenUsage) -> int,
)
    requires
        forall|k: int|
            0 <= k < records.len() ==> !is_made_by(#[trigger] records[k], session_id),
    ensures
        total(records, session_id, amount) == 0,
    decreases records.len(),
{
    if records.len() > 0 {
        let shorter = records.drop_last();
        assert forall|k: int| 0 <= k < shorter.len() implies !is_made_by(
            #[trigger] shorter[k],
            session_id,
        ) by {
            assert(shorter[k] == records[k]);
        }
        nothing_comes_to_nothing(shorter, session_id, amount);
        assert(!is_made_by(records[records.len() - 1], session_id));
    }
}

/// Completing an append accounts for exactly the requests of its messages, under its session or
/// task, its run and its time; and what sessions used stays what their requests come to.
pub proof fn appended_requests_are_accounted_for(
    before: StorageEngine,
    after: StorageEngine,
    operation_id: Seq<char>,
    table: AppendTable,
    session_id: Seq<char>,
)
    requires
        attempted(before, after, operation_id, table),
        adds_up(
            UsageTables { records: before.request_records@, usage: before.session_usage@ },
            session_id,
        ),
    ensures
        adds_up(
            UsageTables { records: after.request_records@, usage: after.session_usage@ },
            session_id,
        ),
{
    if written(before, operation_id, table) is Ok && finalization_refusal(
        before,
        operation_id,
        table,
    ) is None {
        let row = announced(before, operation_id, table)->Ok_0;
        let reached = StorageEngine { files: after.files, ..before };
        sums_stay_right(
            usage_tables(reached),
            requests_of(
                owner_of(row.target),
                run_of(row.target),
                payload_messages(reached, row),
                row.created_at_ms,
                false,
            ),
            session_id,
        );
    }
}

/// A conversation reports its requests message by message, in its order.
pub proof fn conversations_report_message_by_message(
    owner: ConversationOwner,
    run_id: Option<String>,
    messages: Seq<Arc<ConversationMessage>>,
    more: Seq<Arc<ConversationMessage>>,
    completed_at_ms: i64,
    include_legacy_compacted: bool,
)
    ensures
        requests_of(owner, run_id, messages + more, completed_at_ms, include_legacy_compacted)
            == requests_of(owner, run_id, messages, completed_at_ms, include_legacy_compacted)
            + requests_of(owner, run_id, more, completed_at_ms, include_legacy_compacted),
        requests_of(owner, run_id, Seq::empty(), completed_at_ms, include_legacy_compacted).len()
            == 0,
    decreases more.len(),
{
    let all = messages + more;
    if more.len() == 0 {
        assert(all =~= messages);
        let none = requests_of(owner, run_id, more, completed_at_ms, include_legacy_compacted);
        assert(requests_of(owner, run_id, messages, completed_at_ms, include_legacy_compacted)
            + none =~= requests_of(
            owner,
            run_id,
            messages,
            completed_at_ms,
            include_legacy_compacted,
        ));
    } else {
        conversations_report_message_by_message(
            owner,
            run_id,
            messages,
            more.drop_last(),
            completed_at_ms,
            include_legacy_compacted,
        );
        assert(all.drop_last() =~= messages + more.drop_last());
        assert(all.last() == more.last());
        let head = requests_of(owner, run_id, messages, completed_at_ms, include_legacy_compacted);
        let middle = requests_of(
            owner,
            run_id,
            more.drop_last(),
            completed_at_ms,
            include_legacy_compacted,
        );
        let tail = requests_of_message(
            owner,
            run_id,
            held(more.last()),
            completed_at_ms,
            include_legacy_compacted,
        );
        assert((head + middle) + tail =~= head + (middle + tail));
    }
}

/// A record of what a message reports.
pub open spec fn is_report(
    record: ModelRequestRecord,
    owner: ConversationOwner,
    run_id: Option<String>,
    message_id: String,
    kind: RequestKind,
    usage: TokenUsage,
    completed_at_ms: i64,
) -> bool {
    &&& record.owner == owner
    &&& record.run_id == run_id
    &&& record.message_id == message_id
    &&& record.request_kind == kind
    &&& record.usage == usage
    &&& record.completed_at_ms == completed_at_ms
}

/// What one message reports: an answer its own request; a summary its own and, where that is asked
/// for, those that it replaced; other messages none.
pub proof fn messages_report_their_requests(
    owner: ConversationOwner,
    run_id: Option<String>,
    message: Arc<ConversationMessage>,
    completed_at_ms: i64,
    legacy: bool,
)
    ensures
        ({
            let records = requests_of(owner, run_id, seq![message], completed_at_ms, legacy);
            match *message {
                ConversationMessage::Assistant(answer) => {
                    &&& answer.usage is None ==> records.len() == 0
                    &&& answer.usage is Some ==> records.len() == 1 && is_report(
                        records[0],
                        owner,
                        run_id,
                        answer.id,
                        RequestKind::AgentTurn,
                        answer.usage->0,
                        completed_at_ms,
                    ) && records[0].provider == Some(answer.model.provider) && records[0].model_id
                        == Some(answer.model.model)
                },
                ConversationMessage::ContextSummary(summary) => {
                    let replaces = legacy && summary.compacted_usage is Some;
                    let own = if replaces {
                        1int
                    } else {
                        0int
                    };
                    &&& records.len() == own + present_usage(summary.usage)
                    &&& replaces ==> is_report(
                        records[0],
                        owner,
                        run_id,
                        summary.id,
                        RequestKind::LegacyCompacted,
                        summary.compacted_usage->0,
                        completed_at_ms,
                    )
                    &&& summary.usage is Some ==> is_report(
                        records[own],
                        owner,
                        run_id,
                        summary.id,
                        RequestKind::ContextSummary,
                        summary.usage->0,
                        completed_at_ms,
                    )
                    &&& forall|k: int|
                        0 <= k < records.len() ==> match summary.model {
                            Some(model) => (#[trigger] records[k]).provider == Some(model.provider)
                                && records[k].model_id == Some(model.model),
                            None => (#[trigger] records[k]).provider is None
                                && records[k].model_id is None,
                        }
                },
                _ => records.len() == 0,
            }
        }),
{
    let one = seq![message];
    assert(one.drop_last() =~= Seq::empty());
    assert(one.last() == message);
    let nothing = requests_of(
        owner,
        run_id,
        Seq::<Arc<ConversationMessage>>::empty(),
        completed_at_ms,
        legacy,
    );
    assert(nothing =~= Seq::empty());
    let reported = requests_of_message(owner, run_id, held(message), completed_at_ms, legacy);
    assert(nothing + reported =~= reported);
}

/// One for a usage that is there.
pub open spec fn present_usage(usage: Option<TokenUsage>) -> int {
    match usage {
        Some(_) => 1int,
        None => 0int,
    }
}

} // verus!
