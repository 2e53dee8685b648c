//! How the usage of sessions is read, shown and completed.

use vstd::prelude::*;

use crate::append_effect::ConversationStorageTarget;
use crate::emptying_laws::nothing_is_used;
use crate::engine::{current_conversation, StorageEngine};
use crate::error::Refusal;
use crate::recovery::main_target;
use crate::rows::{ConversationOwner, ModelRequestRecord, SessionUsage, SessionUsageRow};
use crate::table::{first, kept, kept_rows, some_row};
use crate::text::lists;
use crate::usage::{
    completed_one, completed_upto, is_incomplete, is_usage_of, is_usage_shown, records_request,
    requests_are_kept, requests_of, usage_is_readable, usage_of, usages_completed, with_completed,
    with_requests, UsageColumns, UsageTables,
};
use crate::usage_laws::{
    adds_up, counts_for, is_reported_again, repeats_are_recognised, sums_stay_right,
    usage_counts_where_found,
};

verus! {

/// A column that may be empty and counts otherwise.
pub open spec fn is_read_as(column: Option<i64>, value: Option<u64>) -> bool {
    match (column, value) {
        (Some(column), Some(value)) => column == value,
        (None, None) => true,
        _ => false,
    }
}

/// Usage is read from its columns number by number, and not at all where one of them is negative or
/// the latest request is there in part.
pub proof fn columns_say_what_was_used(columns: UsageColumns)
    ensures
        usage_is_readable(columns) <==> {
            &&& columns.request_count >= 0
            &&& columns.input_tokens_sum >= 0
            &&& columns.output_tokens_sum >= 0
            &&& columns.total_tokens_sum >= 0
            &&& columns.cached_input_tokens_sum >= 0
            &&& columns.cached_request_count >= 0
            &&& columns.reasoning_tokens_sum >= 0
            &&& columns.reasoning_request_count >= 0
            &&& match columns.latest_input_tokens {
                None => true,
                Some(input_tokens) => {
                    &&& input_tokens >= 0
                    &&& columns.latest_output_tokens is Some
                    &&& columns.latest_output_tokens->0 >= 0
                    &&& columns.latest_total_tokens is Some
                    &&& columns.latest_total_tokens->0 >= 0
                    &&& columns.latest_cached_input_tokens is Some
                        ==> columns.latest_cached_input_tokens->0 >= 0
                    &&& columns.latest_reasoning_tokens is Some
                        ==> columns.latest_reasoning_tokens->0 >= 0
                },
            }
        },
        usage_is_readable(columns) ==> {
            let usage = usage_of(columns);
            &&& usage.request_count == columns.request_count
            &&& usage.input_tokens == columns.input_tokens_sum
            &&& usage.output_tokens == columns.output_tokens_sum
            &&& usage.total_tokens == columns.total_tokens_sum
            &&& usage.cached_input_tokens == columns.cached_input_tokens_sum
            &&& usage.cached_request_count == columns.cached_request_count
            &&& usage.reasoning_tokens == columns.reasoning_tokens_sum
            &&& usage.reasoning_request_count == columns.reasoning_request_count
            &&& usage.latest is Some <==> columns.latest_input_tokens is Some
            &&& usage.latest is Some ==> {
                &&& usage.latest->0.input_tokens == columns.latest_input_tokens->0
                &&& usage.latest->0.output_tokens == columns.latest_output_tokens->0
                &&& usage.latest->0.total_tokens == columns.latest_total_tokens->0
                &&& is_read_as(
                    columns.latest_cached_input_tokens,
                    usage.latest->0.cached_input_tokens,
                )
                &&& is_read_as(columns.latest_reasoning_tokens, usage.latest->0.reasoning_tokens)
            }
        },
{
}

/// The usage that is shown of a session is what its row says, and nothing where it has none.
pub proof fn usage_is_shown_as_kept(engine: StorageEngine, session_id: Seq<char>, usage: SessionUsage)
    requires
        is_usage_shown(engine, session_id, usage),
    ensures
        forall|i: int| #[trigger]
            counts_for(engine.session_usage@, i, session_id) ==> usage
                == engine.session_usage@[i].usage,
        (forall|i: int|
            0 <= i < engine.session_usage@.len() ==> (
            #[trigger] engine.session_usage@[i]).session_id@ != session_id) ==> nothing_is_used(
            usage,
        ),
{
    usage_counts_where_found(engine.session_usage@, session_id);
    if first(engine.session_usage@, is_usage_of(session_id)) is Some {
        let i = first(engine.session_usage@, is_usage_of(session_id))->0;
        assert(counts_for(engine.session_usage@, i, session_id));
    }
}

/// What completing a usage keeps true: each usage stays that of its session, a usage that is complete
/// stays so, only one in scope becomes so, and usages that add up still do.
pub open spec fn completes(
    before: UsageTables,
    after: UsageTables,
    scope: Option<String>,
    session_id: Seq<char>,
) -> bool {
    &&& after.usage.len() == before.usage.len()
    &&& forall|i: int|
        0 <= i < before.usage.len() ==> (#[trigger] after.usage[i]).session_id
            == before.usage[i].session_id
    &&& forall|i: int|
        0 <= i < before.usage.len() && before.usage[i].backfilled ==> (
        #[trigger] after.usage[i]).backfilled
    &&& forall|i: int|
        0 <= i < before.usage.len() && (#[trigger] after.usage[i]).backfilled
            && !before.usage[i].backfilled ==> scope is None || before.usage[i].session_id@
            == scope->0@
    &&& adds_up(before, session_id) ==> adds_up(after, session_id)
}

proof fn accounting_keeps_sessions_and_marks(
    tables: UsageTables,
    records: Seq<ModelRequestRecord>,
)
    requires
        with_requests(tables, records) is Ok,
    ensures
        ({
            let after = with_requests(tables, records)->Ok_0;
            &&& after.usage.len() == tables.usage.len()
            &&& forall|i: int|
                0 <= i < tables.usage.len() ==> (#[trigger] after.usage[i]).session_id
                    == tables.usage[i].session_id && after.usage[i].backfilled
                    == tables.usage[i].backfilled
        }),
    decreases records.len(),
{
    if records.len() > 0 {
        accounting_keeps_sessions_and_marks(tables, records.drop_last());
        let earlier = with_requests(tables, records.drop_last())->Ok_0;
        match records.last().owner {
            ConversationOwner::MainSession { session_id } => {
                usage_counts_where_found(earlier.usage, session_id@);
            },
            _ => {},
        }
    }
}

proof fn marking_keeps_sums(tables: UsageTables, marked: Seq<char>, session_id: Seq<char>)
    requires
        adds_up(tables, session_id),
    ensures
        adds_up(with_completed(tables, marked), session_id),
{
    let after = with_completed(tables, marked);
    let i = choose|i: int| #[trigger] counts_for(tables.usage, i, session_id);
    usage_counts_where_found(tables.usage, session_id);
    usage_counts_where_found(tables.usage, marked);
    assert(counts_for(after.usage, i, session_id)) by {
        assert forall|j: int| 0 <= j < i implies (#[trigger] after.usage[j]).session_id@
            != session_id by {
            assert(tables.usage[j].session_id@ != session_id);
        }
    }
}

proof fn one_completion_keeps_all(
    engine: StorageEngine,
    tables: UsageTables,
    row: SessionUsageRow,
    scope: Option<String>,
    session_id: Seq<char>,
)
    requires
        completed_one(engine, tables, row) is Ok,
        scope is None || row.session_id@ == scope->0@,
    ensures
        completes(tables, completed_one(engine, tables, row)->Ok_0, scope, session_id),
{
    let after = completed_one(engine, tables, row)->Ok_0;
    usage_counts_where_found(tables.usage, row.session_id@);
    if after != tables {
        let messages = current_conversation(engine, main_target(row.session_id))->Ok_0;
        let owner = ConversationOwner::MainSession { session_id: row.session_id };
        let records = requests_of(owner, None, messages, row.updated_at_ms, true);
        let accounted = with_requests(tables, records)->Ok_0;
        accounting_keeps_sessions_and_marks(tables, records);
        usage_counts_where_found(accounted.usage, row.session_id@);
        if adds_up(tables, session_id) {
            sums_stay_right(tables, records, session_id);
            marking_keeps_sums(accounted, row.session_id@, session_id);
        }
    }
}

proof fn completions_keep_all(
    engine: StorageEngine,
    rows: Seq<SessionUsageRow>,
    order: Seq<usize>,
    n: int,
    scope: Option<String>,
    session_id: Seq<char>,
)
    requires
        0 <= n <= order.len(),
        forall|k: int| 0 <= k < order.len() ==> #[trigger] order[k] < rows.len(),
        forall|k: int|
            0 <= k < rows.len() ==> scope is None || (#[trigger] rows[k]).session_id@ == scope->0@,
    ensures
        completes(
            UsageTables { records: engine.request_records@, usage: engine.session_usage@ },
            completed_upto(engine, rows, order, n).0,
            scope,
            session_id,
        ),
    decreases n,
{
    if n > 0 {
        completions_keep_all(engine, rows, order, n - 1, scope, session_id);
        let (tables, error) = completed_upto(engine, rows, order, n - 1);
        if error is None {
            let row = rows[order[n - 1] as int];
            if completed_one(engine, tables, row) is Ok {
                one_completion_keeps_all(engine, tables, row, scope, session_id);
            }
        }
    }
}

/// Completing the usages of sessions touches none out of scope but by what is accounted for, and
/// leaves every usage what the recorded requests of its session come to.
pub proof fn completed_usages_add_up(
    before: StorageEngine,
    after: StorageEngine,
    scope: Option<String>,
    order: Seq<usize>,
    outcome: Result<(), Refusal>,
    session_id: Seq<char>,
)
    requires
        usages_completed(before, after, scope, order, outcome),
    ensures
        after == (StorageEngine {
            request_records: after.request_records,
            session_usage: after.session_usage,
            ..before
        }),
        completes(
            UsageTables { records: before.request_records@, usage: before.session_usage@ },
            UsageTables { records: after.request_records@, usage: after.session_usage@ },
            scope,
            session_id,
        ),
{
    let rows = kept(before.session_usage@, is_incomplete(scope));
    kept_rows(before.session_usage@, is_incomplete(scope));
    assert forall|k: int| 0 <= k < rows.len() implies scope is None || (
    #[trigger] rows[k]).session_id@ == scope->0@ by {
        assert(is_incomplete(scope)(rows[k]));
    }
    completions_keep_all(before, rows, order, order.len() as int, scope, session_id);
}

/// The usage of a session whose conversation can be read is completed: all requests that the
/// conversation reports are recorded, also those that a summary replaced, and the usage is marked.
/// Where it cannot be read nothing changes.
pub proof fn readable_sessions_are_completed(
    engine: StorageEngine,
    tables: UsageTables,
    row: SessionUsageRow,
    i: int,
)
    requires
        completed_one(engine, tables, row) is Ok,
        counts_for(tables.usage, i, row.session_id@),
    ensures
        ({
            let target = ConversationStorageTarget::Session {
                session_id: row.session_id,
                run_id: row.session_id,
            };
            let after = completed_one(engine, tables, row)->Ok_0;
            let readable = current_conversation(engine, target) is Ok && forall|k: int|
                0 <= k < engine.unavailable_sessions@.len() ==> (
                #[trigger] engine.unavailable_sessions@[k])@ != row.session_id@;
            let requests = requests_of(
                ConversationOwner::MainSession { session_id: row.session_id },
                None,
                current_conversation(engine, target)->Ok_0,
                row.updated_at_ms,
                true,
            );
            &&& !readable ==> after == tables
            &&& readable ==> after.usage[i].backfilled
            &&& readable ==> forall|k: int|
                0 <= k < requests.len() ==> is_recorded(after.records, #[trigger] requests[k])
        }),
{
    let target = main_target(row.session_id);
    let after = completed_one(engine, tables, row)->Ok_0;
    if lists(engine.unavailable_sessions@, row.session_id@) {
        let k = choose|k: int|
            0 <= k < engine.unavailable_sessions@.len() && (
            #[trigger] engine.unavailable_sessions@[k])@ == row.session_id@;
        assert(engine.unavailable_sessions@[k]@ == row.session_id@);
    } else if current_conversation(engine, target) is Ok {
        let requests = requests_of(
            ConversationOwner::MainSession { session_id: row.session_id },
            None,
            current_conversation(engine, target)->Ok_0,
            row.updated_at_ms,
            true,
        );
        let accounted = with_requests(tables, requests)->Ok_0;
        requests_are_kept(tables, requests);
        accounting_keeps_sessions_and_marks(tables, requests);
        usage_counts_where_found(accounted.usage, row.session_id@);
        assert(counts_for(accounted.usage, i, row.session_id@)) by {
            assert forall|j: int| 0 <= j < i implies (#[trigger] accounted.usage[j]).session_id@
                != row.session_id@ by {
                assert(tables.usage[j].session_id@ != row.session_id@);
            }
        }
        assert forall|k: int| 0 <= k < requests.len() implies is_recorded(
            after.records,
            #[trigger] requests[k],
        ) by {
            repeats_are_recognised(after.records, requests[k]);
            assert(some_row(accounted.records, records_request(requests[k])));
        }
    }
}

/// A request is among those that are recorded.
pub open spec fn is_recorded(records: Seq<ModelRequestRecord>, record: ModelRequestRecord) -> bool {
    exists|i: int| 0 <= i < records.len() && is_reported_again(#[trigger] records[i], record)
}

} // verus!
