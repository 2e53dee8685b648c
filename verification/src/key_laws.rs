//! Every operation keeps the keys of its tables apart.

use std::sync::Arc;
use vstd::prelude::*;

use crate::append_effect::{
    continuation_of, first_run, has_other_receipt, input_refusal, owner_of, purpose_applied,
    purpose_refusal, purpose_tables, queued_input, settled, settlement_refusal, settlement_tables,
    started, top_order, with_input, work_after, AppendPurpose, ConversationStorageTarget,
    PurposeTables, RunSettlementEffect, SettlementTables, StagedAppend, WorkTables,
};
use crate::append_laws::purpose_keeps_generations;
use crate::conversation::RecordedMessage;
use crate::engine::{has_input_id, has_run_id, is_run, is_session, StorageEngine};
use crate::error::Refusal;
use crate::keys::{
    append_name, exchange_name, has_one_of_each, input_name, is_keyed, run_name, session_name,
    unique, unique_after_keeping, unique_after_push, unique_after_update, usage_name,
};
use crate::message::held;
use crate::recovery::{
    announced, append_attempted, appends, appends_recovered, attempted, completes_in_turn,
    counted_sessions, failed_owners, finalization_refusal, in_scope, is_append, is_other_append,
    payload_messages, run_of, staged, staging_refusal, table_of, usage_tables, written, AppendTable,
    CommittedBatch,
};
use crate::rows::{ConversationOwner, ModelRequestRecord, NewStoredInput, RunRow, SessionRow};
use crate::run_state::{end_refusal, run_settled, RunSettlement, RunSettlementResult};
use crate::table::{first, first_is_found, kept};
use crate::usage::{is_usage_of, requests_of, with_requests, UsageTables};

verus! {

/// Inputs and runs are told apart by their identifiers.
pub open spec fn work_is_keyed(work: WorkTables) -> bool {
    unique(work.inputs, input_name()) && unique(work.runs, run_name())
}

proof fn queued_input_keeps_keys(work: WorkTables, new: NewStoredInput)
    requires
        work_is_keyed(work),
        input_refusal(work, new) is None,
    ensures
        work_is_keyed(with_input(work, new)),
{
    let input = queued_input(new, (top_order(work.inputs) + 1) as i64);
    assert forall|i: int| 0 <= i < work.inputs.len() implies input_name()(#[trigger] work.inputs[i])
        != input_name()(input) by {
        assert(!has_input_id(new.input_id@)(work.inputs[i]));
    }
    unique_after_push(work.inputs, input_name(), input);
    let run = first_run(new);
    assert forall|i: int| 0 <= i < work.runs.len() implies run_name()(#[trigger] work.runs[i])
        != run_name()(run) by {
        assert(!has_run_id(new.run_id@)(work.runs[i]));
    }
    unique_after_push(work.runs, run_name(), run);
}

/// The end of a run keeps keys apart.
pub proof fn settling_keeps_keys(
    tables: SettlementTables,
    session_id: Seq<char>,
    run_id: Seq<char>,
    effect: RunSettlementEffect,
    finished_at_ms: i64,
)
    requires
        unique(tables.sessions, session_name()),
        work_is_keyed(tables.work),
        settlement_refusal(tables, session_id, run_id, effect) is None,
    ensures
        ({
            let after = settled(tables, session_id, run_id, effect, finished_at_ms);
            unique(after.sessions, session_name()) && work_is_keyed(after.work)
        }),
{
    first_is_found(tables.sessions, is_session(session_id));
    let session = first(tables.sessions, is_session(session_id))->0;
    unique_after_update(
        tables.sessions,
        session_name(),
        session,
        SessionRow { updated_at_ms: finished_at_ms, ..tables.sessions[session] },
    );
    let continued = match continuation_of(effect.goal_effect) {
        Some(next) => with_input(tables.work, next),
        None => tables.work,
    };
    if continuation_of(effect.goal_effect) is Some {
        queued_input_keeps_keys(tables.work, continuation_of(effect.goal_effect)->0);
    }
    if effect.proxy_report is Some {
        queued_input_keeps_keys(continued, held(effect.proxy_report->0));
    }
    first_is_found(tables.work.runs, is_run(session_id, run_id));
    let run = first(tables.work.runs, is_run(session_id, run_id))->0;
    let work = work_after(tables.work, effect);
    assert(work.runs[run] == tables.work.runs[run]);
    unique_after_update(
        work.runs,
        run_name(),
        run,
        RunRow {
            status: effect.status,
            cancel_requested: effect.cancel_requested,
            error: effect.error,
            finished_at_ms: Some(finished_at_ms),
            ..tables.work.runs[run]
        },
    );
}

/// The tables that a purpose touches tell their rows apart.
pub open spec fn purpose_is_keyed(tables: PurposeTables) -> bool {
    &&& unique(tables.settlement.sessions, session_name())
    &&& work_is_keyed(tables.settlement.work)
    &&& unique(tables.exchanges, exchange_name())
    &&& unique(tables.child_exchanges, exchange_name())
}

proof fn purpose_keeps_keys(
    tables: PurposeTables,
    target: ConversationStorageTarget,
    purpose: AppendPurpose,
    created_at_ms: i64,
)
    requires
        purpose_is_keyed(tables),
        purpose_refusal(tables, target, purpose) is None,
    ensures
        purpose_is_keyed(purpose_applied(tables, target, purpose, created_at_ms)),
{
    match (target, purpose) {
        (
            ConversationStorageTarget::Session { session_id, run_id },
            AppendPurpose::UserMessage { reasoning_effort },
        ) => {
            let work = tables.settlement.work;
            first_is_found(work.runs, is_run(session_id@, run_id@));
            let run = first(work.runs, is_run(session_id@, run_id@))->0;
            let input_id = work.runs[run].input_id@;
            first_is_found(work.inputs, has_input_id(input_id));
            let input = first(work.inputs, has_input_id(input_id))->0;
            let after = started(work, session_id@, run_id@, reasoning_effort, created_at_ms);
            unique_after_update(work.inputs, input_name(), input, after.inputs[input]);
            unique_after_update(work.runs, run_name(), run, after.runs[run]);
        },
        (
            ConversationStorageTarget::Session { session_id, run_id },
            AppendPurpose::RunSettlement(effect),
        ) => {
            settling_keeps_keys(tables.settlement, session_id@, run_id@, effect, created_at_ms);
        },
        (
            ConversationStorageTarget::Session { session_id, run_id },
            AppendPurpose::ToolExchange { receipt_id, skill_activations },
        ) => {
            unique_after_keeping(
                tables.exchanges,
                exchange_name(),
                has_other_receipt(receipt_id@),
            );
        },
        (
            ConversationStorageTarget::ChildTask { session_id, child_task_id },
            AppendPurpose::ChildToolExchange { receipt_id },
        ) => {
            unique_after_keeping(
                tables.child_exchanges,
                exchange_name(),
                has_other_receipt(receipt_id@),
            );
        },
        _ => {},
    }
}

/// Announcing an append keeps keys apart.
pub proof fn announcing_keeps_keys(
    before: StorageEngine,
    after: StorageEngine,
    operation_id: String,
    target: ConversationStorageTarget,
    batch: Seq<Arc<RecordedMessage>>,
    message_step: Option<u32>,
    created_at_ms: i64,
    purpose: AppendPurpose,
)
    requires
        is_keyed(before),
        staging_refusal(before, operation_id@, target, batch) is None,
        staged(
            before,
            after,
            operation_id,
            target,
            batch,
            message_step,
            created_at_ms,
            purpose,
        ),
    ensures
        is_keyed(after),
{
    let rows = appends(before, table_of(target));
    let longer = appends(after, table_of(target));
    assert(longer =~= rows.push(longer.last()));
    assert forall|i: int| 0 <= i < rows.len() implies append_name()(#[trigger] rows[i])
        != append_name()(longer.last()) by {
        assert(!is_append(operation_id@)(rows[i]));
    }
    unique_after_push(rows, append_name(), longer.last());
}

/// Accounting for requests keeps the usages of sessions apart.
pub proof fn accounting_keeps_keys(tables: UsageTables, records: Seq<ModelRequestRecord>)
    requires
        unique(tables.usage, usage_name()),
        with_requests(tables, records) is Ok,
    ensures
        unique(with_requests(tables, records)->Ok_0.usage, usage_name()),
    decreases records.len(),
{
    if records.len() > 0 {
        accounting_keeps_keys(tables, records.drop_last());
        let earlier = with_requests(tables, records.drop_last())->Ok_0;
        let after = with_requests(tables, records)->Ok_0;
        match records.last().owner {
            ConversationOwner::MainSession { session_id } => {
                first_is_found(earlier.usage, is_usage_of(session_id@));
                if after.usage != earlier.usage {
                    let place = first(earlier.usage, is_usage_of(session_id@))->0;
                    unique_after_update(earlier.usage, usage_name(), place, after.usage[place]);
                }
            },
            _ => {},
        }
    }
}

/// An attempt to complete an append keeps keys apart.
pub proof fn completing_keeps_keys(
    before: StorageEngine,
    after: StorageEngine,
    operation_id: Seq<char>,
    table: AppendTable,
)
    requires
        is_keyed(before),
        attempted(before, after, operation_id, table),
    ensures
        is_keyed(after),
{
    if written(before, operation_id, table) is Ok && finalization_refusal(
        before,
        operation_id,
        table,
    ) is None {
        let row = announced(before, operation_id, table)->Ok_0;
        let reached = StorageEngine { files: after.files, ..before };
        assert(purpose_tables(reached) == purpose_tables(before));
        let purpose = purpose_applied(
            purpose_tables(before),
            row.target,
            held(row.purpose),
            row.created_at_ms,
        );
        purpose_keeps_keys(
            purpose_tables(before),
            row.target,
            held(row.purpose),
            row.created_at_ms,
        );
        let sessions = purpose.settlement.sessions;
        assert(after.sessions@ == counted_sessions(sessions, row));
        match row.target {
            ConversationStorageTarget::Session { session_id, run_id } => {
                purpose_keeps_generations(
                    purpose_tables(before),
                    row.target,
                    held(row.purpose),
                    row.created_at_ms,
                    session_id@,
                );
                first_is_found(before.sessions@, is_session(session_id@));
                let place = first(sessions, is_session(session_id@))->0;
                unique_after_update(sessions, session_name(), place, after.sessions@[place]);
            },
            _ => {},
        }
        unique_after_keeping(appends(before, table), append_name(), is_other_append(operation_id));
        first_is_found(appends(before, table), is_append(operation_id));
        assert(purpose_tables(after).settlement.work == purpose.settlement.work);
        assert(purpose_tables(after).exchanges == purpose.exchanges);
        assert(purpose_tables(after).child_exchanges == purpose.child_exchanges);
        reveal(has_one_of_each);
        accounting_keeps_keys(
            usage_tables(reached),
            requests_of(
                owner_of(row.target),
                run_of(row.target),
                payload_messages(reached, row),
                row.created_at_ms,
                false,
            ),
        );
    }
}

/// Appending messages keeps keys apart, whatever comes of it.
pub proof fn appending_keeps_keys(
    before: StorageEngine,
    after: StorageEngine,
    operation_id: String,
    target: ConversationStorageTarget,
    batch: Seq<Arc<RecordedMessage>>,
    message_step: Option<u32>,
    created_at_ms: i64,
    purpose: AppendPurpose,
    outcome: Result<CommittedBatch, Refusal>,
)
    requires
        is_keyed(before),
        append_attempted(
            before,
            after,
            operation_id,
            target,
            batch,
            message_step,
            created_at_ms,
            purpose,
            outcome,
        ),
    ensures
        is_keyed(after),
{
    if staging_refusal(before, operation_id@, target, batch) is None {
        let announcing = choose|announcing: StorageEngine| #[trigger]
            staged(
                before,
                announcing,
                operation_id,
                target,
                batch,
                message_step,
                created_at_ms,
                purpose,
            ) && attempted(announcing, after, operation_id@, table_of(target));
        announcing_keeps_keys(
            before,
            announcing,
            operation_id,
            target,
            batch,
            message_step,
            created_at_ms,
            purpose,
        );
        completing_keeps_keys(announcing, after, operation_id@, table_of(target));
    }
}

/// The end of a run keeps keys apart, whatever comes of it.
pub proof fn run_settlement_keeps_keys(
    before: StorageEngine,
    after: StorageEngine,
    settlement: RunSettlement,
    outcome: Result<RunSettlementResult, Refusal>,
)
    requires
        is_keyed(before),
        run_settled(before, after, settlement, outcome),
    ensures
        is_keyed(after),
{
    if end_refusal(before, settlement) is None {
        if settlement.messages@.len() == 0 {
            settling_keeps_keys(
                settlement_tables(before),
                settlement.session_id@,
                settlement.run_id@,
                settlement.effect,
                settlement.finished_at_ms,
            );
            let tables = settlement_tables(after);
            assert(tables.work.inputs == after.inputs@);
            assert(tables.work.runs == after.runs@);
            assert(tables.sessions == after.sessions@);
        } else {
            let target = ConversationStorageTarget::Session {
                session_id: settlement.session_id,
                run_id: settlement.run_id,
            };
            let appended = choose|appended: Result<CommittedBatch, Refusal>| #[trigger]
                append_attempted(
                    before,
                    after,
                    settlement.operation_id,
                    target,
                    settlement.messages@,
                    settlement.message_step,
                    settlement.finished_at_ms,
                    AppendPurpose::RunSettlement(settlement.effect),
                    appended,
                );
            appending_keeps_keys(
                before,
                after,
                settlement.operation_id,
                target,
                settlement.messages@,
                settlement.message_step,
                settlement.finished_at_ms,
                AppendPurpose::RunSettlement(settlement.effect),
                appended,
            );
        }
    }
}

proof fn turns_keep_keys(
    rows: Seq<Arc<StagedAppend>>,
    table: AppendTable,
    order: Seq<usize>,
    trace: Seq<StorageEngine>,
    n: int,
)
    requires
        completes_in_turn(rows, table, order, trace),
        is_keyed(trace[0]),
        0 <= n <= order.len(),
    ensures
        is_keyed(trace[n]),
    decreases n,
{
    if n > 0 {
        turns_keep_keys(rows, table, order, trace, n - 1);
        let operation_id = rows[order[n - 1] as int].operation_id@;
        assert(attempted(trace[n - 1], trace[n - 1 + 1], operation_id, table));
        completing_keeps_keys(trace[n - 1], trace[n], operation_id, table);
    }
}

/// Recovering appends keeps keys apart.
pub proof fn append_recovery_keeps_keys(
    before: StorageEngine,
    after: StorageEngine,
    scope: Option<String>,
    table: AppendTable,
    unavailable: Seq<String>,
)
    requires
        is_keyed(before),
        appends_recovered(before, after, scope, table, unavailable),
    ensures
        is_keyed(after),
{
    let rows = kept(appends(before, table), in_scope(scope));
    let (order, trace) = choose|order: Seq<usize>, trace: Seq<StorageEngine>| #[trigger]
        completes_in_turn(rows, table, order, trace) && trace[0] == before && trace.last()
            == after && unavailable == failed_owners(
            rows,
            table,
            order,
            trace,
            order.len() as int,
        );
    turns_keep_keys(rows, table, order, trace, order.len() as int);
}

} // verus!
