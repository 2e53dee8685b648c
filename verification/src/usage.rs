//! Accounting for model requests, and the rolling usage of each session.

use std::sync::Arc;
use vstd::prelude::*;

use crate::append_effect::ConversationStorageTarget;
use crate::engine::{current_conversation, StorageEngine};
use crate::error::{
    corrupt, failed, internal_error, invalid_data, malformed, outcome_of, Refusal, StorageResult,
};
use crate::message::{ConversationMessage, Messages, ModelIdentity, TokenUsage};
use crate::numbers::{to_i64, STORED_MAX};
use crate::order::{is_order, ordered, SortKey};
use crate::recovery::main_target;
use crate::rows::{
    ConversationOwner, ModelRequestRecord, RequestKind, SessionUsage, SessionUsageRow,
};
use crate::table::{
    any, first, first_after_update, first_is, first_is_found, kept, position, some_row,
    some_row_in_parts,
};
use crate::text::{holds_text, joined, lists};

verus! {

/// The request records together with the rolling usage of the sessions.
pub struct UsageTables {
    pub records: Seq<ModelRequestRecord>,
    pub usage: Seq<SessionUsageRow>,
}

/// Whose request it was: a delegated task's or a session's own, and which.
pub open spec fn owner_key(owner: ConversationOwner) -> (bool, Seq<char>) {
    match owner {
        ConversationOwner::MainSession { session_id } => (false, session_id@),
        ConversationOwner::ChildTask { session_id, child_task_id } => (true, child_task_id@),
    }
}

/// The identifier of a request. A summary reports two requests: its own, and those it replaced.
pub open spec fn request_id_of(kind: RequestKind, message_id: Seq<char>) -> Seq<char> {
    match kind {
        RequestKind::LegacyCompacted => message_id + ":legacy-compacted"@,
        _ => message_id,
    }
}

/// Two records of one request.
pub open spec fn same_request(left: ModelRequestRecord, right: ModelRequestRecord) -> bool {
    &&& owner_key(left.owner) == owner_key(right.owner)
    &&& request_id_of(left.request_kind, left.message_id@) == request_id_of(
        right.request_kind,
        right.message_id@,
    )
}

/// The condition of recording the same request.
pub open spec fn records_request(record: ModelRequestRecord) -> spec_fn(
    ModelRequestRecord,
) -> bool {
    |row: ModelRequestRecord| same_request(row, record)
}

/// The condition of being the usage of a session.
pub open spec fn is_usage_of(session_id: Seq<char>) -> spec_fn(SessionUsageRow) -> bool {
    |row: SessionUsageRow| row.session_id@ == session_id
}

/// Why a usage cannot be stored.
pub open spec fn usage_refusal(usage: TokenUsage) -> Option<Refusal> {
    if usage.input_tokens > STORED_MAX {
        Some(malformed("input token usage exceeds SQLite range"@))
    } else if usage.output_tokens > STORED_MAX {
        Some(malformed("output token usage exceeds SQLite range"@))
    } else if usage.total_tokens > STORED_MAX {
        Some(malformed("total token usage exceeds SQLite range"@))
    } else if usage.cached_input_tokens is Some && usage.cached_input_tokens->0 > STORED_MAX {
        Some(malformed("cached token usage exceeds SQLite range"@))
    } else if usage.reasoning_tokens is Some && usage.reasoning_tokens->0 > STORED_MAX {
        Some(malformed("reasoning token usage exceeds SQLite range"@))
    } else {
        None
    }
}

/// An optional count, where none counts nothing.
pub open spec fn or_zero(value: Option<u64>) -> int {
    match value {
        Some(value) => value as int,
        None => 0,
    }
}

/// One for a count that was reported.
pub open spec fn reported(value: Option<u64>) -> int {
    if value is Some {
        1
    } else {
        0
    }
}

/// Whether every sum can still be stored once a usage is added.
pub open spec fn sums_fit(sum: SessionUsage, usage: TokenUsage) -> bool {
    &&& sum.request_count + 1 <= STORED_MAX
    &&& sum.input_tokens + usage.input_tokens <= STORED_MAX
    &&& sum.output_tokens + usage.output_tokens <= STORED_MAX
    &&& sum.total_tokens + usage.total_tokens <= STORED_MAX
    &&& sum.cached_input_tokens + or_zero(usage.cached_input_tokens) <= STORED_MAX
    &&& sum.cached_request_count + reported(usage.cached_input_tokens) <= STORED_MAX
    &&& sum.reasoning_tokens + or_zero(usage.reasoning_tokens) <= STORED_MAX
    &&& sum.reasoning_request_count + reported(usage.reasoning_tokens) <= STORED_MAX
}

/// The sums with one more usage, which is the latest.
pub open spec fn accumulated(sum: SessionUsage, usage: TokenUsage) -> SessionUsage {
    SessionUsage {
        request_count: (sum.request_count + 1) as u64,
        input_tokens: (sum.input_tokens + usage.input_tokens) as u64,
        output_tokens: (sum.output_tokens + usage.output_tokens) as u64,
        total_tokens: (sum.total_tokens + usage.total_tokens) as u64,
        cached_input_tokens: (sum.cached_input_tokens + or_zero(usage.cached_input_tokens)) as u64,
        cached_request_count: (sum.cached_request_count + reported(
            usage.cached_input_tokens,
        )) as u64,
        reasoning_tokens: (sum.reasoning_tokens + or_zero(usage.reasoning_tokens)) as u64,
        reasoning_request_count: (sum.reasoning_request_count + reported(
            usage.reasoning_tokens,
        )) as u64,
        latest: Some(usage),
    }
}

/// No usage at all.
pub open spec fn no_usage() -> SessionUsage {
    SessionUsage {
        request_count: 0,
        input_tokens: 0,
        output_tokens: 0,
        total_tokens: 0,
        cached_input_tokens: 0,
        cached_request_count: 0,
        reasoning_tokens: 0,
        reasoning_request_count: 0,
        latest: None,
    }
}

/// No usage at all.
pub fn empty_usage() -> (usage: SessionUsage)
    ensures
        usage == no_usage(),
{
    SessionUsage {
        request_count: 0,
        input_tokens: 0,
        output_tokens: 0,
        total_tokens: 0,
        cached_input_tokens: 0,
        cached_request_count: 0,
        reasoning_tokens: 0,
        reasoning_request_count: 0,
        latest: None,
    }
}

/// The tables after one request. A request that is recorded already changes nothing, and only a
/// session's own requests count toward its usage.
pub open spec fn with_request(tables: UsageTables, record: ModelRequestRecord) -> Result<
    UsageTables,
    Refusal,
> {
    if usage_refusal(record.usage) is Some {
        Err(usage_refusal(record.usage)->0)
    } else if some_row(tables.records, records_request(record)) {
        Ok(tables)
    } else {
        match record.owner {
            ConversationOwner::ChildTask { session_id, child_task_id } => Ok(
                UsageTables { records: tables.records.push(record), usage: tables.usage },
            ),
            ConversationOwner::MainSession { session_id } => match first(
                tables.usage,
                is_usage_of(session_id@),
            ) {
                None => Err(corrupt("session usage row is missing"@)),
                Some(i) => if !sums_fit(tables.usage[i].usage, record.usage) {
                    Err(failed("session usage could not be accumulated"@))
                } else {
                    Ok(
                        UsageTables {
                            records: tables.records.push(record),
                            usage: tables.usage.update(
                                i,
                                SessionUsageRow {
                                    usage: accumulated(tables.usage[i].usage, record.usage),
                                    updated_at_ms: record.completed_at_ms,
                                    ..tables.usage[i]
                                },
                            ),
                        },
                    )
                },
            },
        }
    }
}

/// The tables after requests, in their order.
pub open spec fn with_requests(tables: UsageTables, records: Seq<ModelRequestRecord>) -> Result<
    UsageTables,
    Refusal,
>
    decreases records.len(),
{
    if records.len() == 0 {
        Ok(tables)
    } else {
        match with_requests(tables, records.drop_last()) {
            Err(error) => Err(error),
            Ok(earlier) => with_request(earlier, records.last()),
        }
    }
}

/// The parts of a model's identity, where it is known.
pub open spec fn provider_of(model: Option<ModelIdentity>) -> Option<String> {
    match model {
        Some(model) => Some(model.provider),
        None => None,
    }
}

pub open spec fn model_id_of(model: Option<ModelIdentity>) -> Option<String> {
    match model {
        Some(model) => Some(model.model),
        None => None,
    }
}

/// The record of a request that a message reports.
pub open spec fn request_record(
    owner: ConversationOwner,
    run_id: Option<String>,
    message_id: String,
    kind: RequestKind,
    model: Option<ModelIdentity>,
    usage: TokenUsage,
    completed_at_ms: i64,
) -> ModelRequestRecord {
    ModelRequestRecord {
        owner,
        message_id,
        run_id,
        request_kind: kind,
        provider: provider_of(model),
        model_id: model_id_of(model),
        usage,
        completed_at_ms,
    }
}

/// The requests that a message reports. What a summary replaced counts only where it is asked for.
pub open spec fn requests_of_message(
    owner: ConversationOwner,
    run_id: Option<String>,
    message: ConversationMessage,
    completed_at_ms: i64,
    include_legacy_compacted: bool,
) -> Seq<ModelRequestRecord> {
    match message {
        ConversationMessage::Assistant(message) => match message.usage {
            Some(usage) => seq![
                request_record(
                    owner,
                    run_id,
                    message.id,
                    RequestKind::AgentTurn,
                    Some(message.model),
                    usage,
                    completed_at_ms,
                ),
            ],
            None => Seq::empty(),
        },
        ConversationMessage::ContextSummary(message) => {
            let replaced = match message.compacted_usage {
                Some(usage) => if include_legacy_compacted {
                    seq![
                        request_record(
                            owner,
                            run_id,
                            message.id,
                            RequestKind::LegacyCompacted,
                            message.model,
                            usage,
                            completed_at_ms,
                        ),
                    ]
                } else {
                    Seq::empty()
                },
                None => Seq::empty(),
            };
            match message.usage {
                Some(usage) => replaced.push(
                    request_record(
                        owner,
                        run_id,
                        message.id,
                        RequestKind::ContextSummary,
                        message.model,
                        usage,
                        completed_at_ms,
                    ),
                ),
                None => replaced,
            }
        },
        _ => Seq::empty(),
    }
}

/// The requests that messages report, in order.
pub open spec fn requests_of(
    owner: ConversationOwner,
    run_id: Option<String>,
    messages: Seq<Arc<ConversationMessage>>,
    completed_at_ms: i64,
    include_legacy_compacted: bool,
) -> Seq<ModelRequestRecord>
    decreases messages.len(),
{
    if messages.len() == 0 {
        Seq::empty()
    } else {
        requests_of(
            owner,
            run_id,
            messages.drop_last(),
            completed_at_ms,
            include_legacy_compacted,
        ) + requests_of_message(
            owner,
            run_id,
            *messages.last(),
            completed_at_ms,
            include_legacy_compacted,
        )
    }
}

fn new_record(
    owner: &ConversationOwner,
    run_id: &Option<String>,
    message_id: &String,
    kind: RequestKind,
    model: Option<&ModelIdentity>,
    usage: TokenUsage,
    completed_at_ms: i64,
) -> (record: ModelRequestRecord)
    ensures
        record == request_record(
            *owner,
            *run_id,
            *message_id,
            kind,
            match model {
                Some(model) => Some(*model),
                None => None,
            },
            usage,
            completed_at_ms,
        ),
{
    let (provider, model_id) = match model {
        Some(model) => (Some(model.provider.clone()), Some(model.model.clone())),
        None => (None, None),
    };
    ModelRequestRecord {
        owner: owner.copy(),
        message_id: message_id.clone(),
        run_id: run_id.clone(),
        request_kind: kind,
        provider,
        model_id,
        usage,
        completed_at_ms,
    }
}

/// The requests that messages report.
pub fn reported_requests(
    owner: &ConversationOwner,
    run_id: &Option<String>,
    messages: &Messages,
    completed_at_ms: i64,
    include_legacy_compacted: bool,
) -> (records: Vec<ModelRequestRecord>)
    ensures
        records@ == requests_of(
            *owner,
            *run_id,
            messages@,
            completed_at_ms,
            include_legacy_compacted,
        ),
        forall|i: int| 0 <= i < records@.len() ==> (#[trigger] records@[i]).owner == *owner,
{
    let mut records: Vec<ModelRequestRecord> = Vec::new();
    let mut i: usize = 0;
    proof {
        assert(messages@.take(0) =~= Seq::empty());
    }
    while i < messages.len()
        invariant
            i <= messages@.len(),
            records@ == requests_of(
                *owner,
                *run_id,
                messages@.take(i as int),
                completed_at_ms,
                include_legacy_compacted,
            ),
            forall|k: int| 0 <= k < records@.len() ==> (#[trigger] records@[k]).owner == *owner,
        decreases messages@.len() - i,
    {
        let ghost before = records@;
        match &*messages[i] {
            ConversationMessage::Assistant(message) => {
                match message.usage {
                    Some(usage) => {
                        records.push(
                            new_record(
                                owner,
                                run_id,
                                &message.id,
                                RequestKind::AgentTurn,
                                Some(&message.model),
                                usage,
                                completed_at_ms,
                            ),
                        );
                    },
                    None => {},
                }
            },
            ConversationMessage::ContextSummary(message) => {
                match message.compacted_usage {
                    Some(usage) => {
                        if include_legacy_compacted {
                            records.push(
                                new_record(
                                    owner,
                                    run_id,
                                    &message.id,
                                    RequestKind::LegacyCompacted,
                                    message.model.as_ref(),
                                    usage,
                                    completed_at_ms,
                                ),
                            );
                        }
                    },
                    None => {},
                }
                match message.usage {
                    Some(usage) => {
                        records.push(
                            new_record(
                                owner,
                                run_id,
                                &message.id,
                                RequestKind::ContextSummary,
                                message.model.as_ref(),
                                usage,
                                completed_at_ms,
                            ),
                        );
                    },
                    None => {},
                }
            },
            _ => {},
        }
        proof {
            let longer = messages@.take(i + 1);
            assert(longer.drop_last() =~= messages@.take(i as int));
            assert(longer.last() == messages@[i as int]);
            assert(records@ =~= before + requests_of_message(
                *owner,
                *run_id,
                *messages@[i as int],
                completed_at_ms,
                include_legacy_compacted,
            ));
        }
        i += 1;
    }
    proof {
        assert(messages@.take(messages@.len() as int) =~= messages@);
    }
    records
}

/// The identifier of a request.
pub fn request_id(record: &ModelRequestRecord) -> (id: String)
    ensures
        id@ == request_id_of(record.request_kind, record.message_id@),
{
    match record.request_kind {
        RequestKind::LegacyCompacted => joined(record.message_id.as_str(), ":legacy-compacted"),
        _ => record.message_id.clone(),
    }
}

/// Whether two names are those of one conversation.
pub fn is_same_owner(left: &ConversationOwner, right: &ConversationOwner) -> (result: bool)
    ensures
        result == (owner_key(*left) == owner_key(*right)),
{
    match (left, right) {
        (
            ConversationOwner::MainSession { session_id },
            ConversationOwner::MainSession { session_id: other },
        ) => *session_id == *other,
        (
            ConversationOwner::ChildTask { session_id, child_task_id },
            ConversationOwner::ChildTask { session_id: other_session, child_task_id: other },
        ) => *child_task_id == *other,
        _ => false,
    }
}

fn is_same_request(left: &ModelRequestRecord, right: &ModelRequestRecord) -> (result: bool)
    ensures
        result == same_request(*left, *right),
{
    is_same_owner(&left.owner, &right.owner) && request_id(left) == request_id(right)
}

fn check_usage(usage: &TokenUsage) -> (result: StorageResult<()>)
    ensures
        match usage_refusal(*usage) {
            Some(error) => result is Err && result->Err_0@ == error,
            None => result is Ok,
        },
{
    match to_i64(usage.input_tokens, "input token usage exceeds SQLite range") {
        Ok(_) => {},
        Err(error) => {
            return Err(error);
        },
    }
    match to_i64(usage.output_tokens, "output token usage exceeds SQLite range") {
        Ok(_) => {},
        Err(error) => {
            return Err(error);
        },
    }
    match to_i64(usage.total_tokens, "total token usage exceeds SQLite range") {
        Ok(_) => {},
        Err(error) => {
            return Err(error);
        },
    }
    match usage.cached_input_tokens {
        Some(value) => match to_i64(value, "cached token usage exceeds SQLite range") {
            Ok(_) => {},
            Err(error) => {
                return Err(error);
            },
        },
        None => {},
    }
    match usage.reasoning_tokens {
        Some(value) => match to_i64(value, "reasoning token usage exceeds SQLite range") {
            Ok(_) => {},
            Err(error) => {
                return Err(error);
            },
        },
        None => {},
    }
    Ok(())
}

fn sum_of(left: u64, right: u64) -> (sum: Option<u64>)
    ensures
        left + right <= STORED_MAX ==> sum == Some((left + right) as u64),
        left + right > STORED_MAX ==> sum is None,
{
    if left <= STORED_MAX && right <= STORED_MAX - left {
        Some(left + right)
    } else {
        None
    }
}

fn add_usage(sum: &SessionUsage, usage: &TokenUsage) -> (result: Option<SessionUsage>)
    ensures
        match result {
            Some(next) => sums_fit(*sum, *usage) && next == accumulated(*sum, *usage),
            None => !sums_fit(*sum, *usage),
        },
{
    let cached: u64 = match usage.cached_input_tokens {
        Some(value) => value,
        None => 0,
    };
    let cached_requests: u64 = if usage.cached_input_tokens.is_some() {
        1
    } else {
        0
    };
    let reasoning: u64 = match usage.reasoning_tokens {
        Some(value) => value,
        None => 0,
    };
    let reasoning_requests: u64 = if usage.reasoning_tokens.is_some() {
        1
    } else {
        0
    };
    match (
        sum_of(sum.request_count, 1),
        sum_of(sum.input_tokens, usage.input_tokens),
        sum_of(sum.output_tokens, usage.output_tokens),
        sum_of(sum.total_tokens, usage.total_tokens),
        sum_of(sum.cached_input_tokens, cached),
        sum_of(sum.cached_request_count, cached_requests),
        sum_of(sum.reasoning_tokens, reasoning),
        sum_of(sum.reasoning_request_count, reasoning_requests),
    ) {
        (
            Some(request_count),
            Some(input_tokens),
            Some(output_tokens),
            Some(total_tokens),
            Some(cached_input_tokens),
            Some(cached_request_count),
            Some(reasoning_tokens),
            Some(reasoning_request_count),
        ) => Some(
            SessionUsage {
                request_count,
                input_tokens,
                output_tokens,
                total_tokens,
                cached_input_tokens,
                cached_request_count,
                reasoning_tokens,
                reasoning_request_count,
                latest: Some(*usage),
            },
        ),
        _ => None,
    }
}

/// The usage row that requests change, and what it becomes.
pub struct ChangedUsage {
    pub place: usize,
    pub row: SessionUsageRow,
}

/// What requests add to the tables.
pub struct UsagePlan {
    pub added: Vec<ModelRequestRecord>,
    pub changed: Option<ChangedUsage>,
}

impl UsagePlan {
    /// The tables with the plan carried out.
    pub open spec fn applied(self, tables: UsageTables) -> UsageTables {
        UsageTables {
            records: tables.records + self.added@,
            usage: match self.changed {
                Some(changed) => tables.usage.update(changed.place as int, changed.row),
                None => tables.usage,
            },
        }
    }

    /// The plan changes a row that is there.
    pub open spec fn fits(self, tables: UsageTables) -> bool {
        self.changed is Some ==> self.changed->0.place < tables.usage.len()
    }
}

proof fn refused_request_refuses_all(
    tables: UsageTables,
    records: Seq<ModelRequestRecord>,
    n: int,
)
    requires
        0 <= n <= records.len(),
        with_requests(tables, records.take(n)) is Err,
    ensures
        with_requests(tables, records) == with_requests(tables, records.take(n)),
    decreases records.len() - n,
{
    if n < records.len() {
        assert(records.take(n + 1).drop_last() =~= records.take(n));
        refused_request_refuses_all(tables, records, n + 1);
    } else {
        assert(records.take(n) =~= records);
    }
}

proof fn usage_row_stays_first(rows: Seq<SessionUsageRow>, session_id: Seq<char>, i: int, row: SessionUsageRow)
    requires
        first(rows, is_usage_of(session_id)) == Some(i),
        row.session_id@ == session_id,
    ensures
        0 <= i < rows.len(),
        first(rows.update(i, row), is_usage_of(session_id)) == Some(i),
{
    first_is_found(rows, is_usage_of(session_id));
    first_is(rows.update(i, row), is_usage_of(session_id), i);
}

/// Works out what requests of one owner add to the tables, and refuses all of them where one
/// cannot be accounted for.
pub fn plan_requests(
    records: &Vec<ModelRequestRecord>,
    usage: &Vec<SessionUsageRow>,
    owner: &ConversationOwner,
    requests: &Vec<ModelRequestRecord>,
) -> (result: StorageResult<UsagePlan>)
    requires
        forall|i: int| 0 <= i < requests@.len() ==> (#[trigger] requests@[i]).owner == *owner,
    ensures
        match with_requests(UsageTables { records: records@, usage: usage@ }, requests@) {
            Ok(tables) => {
                &&& result is Ok
                &&& result->Ok_0.fits(UsageTables { records: records@, usage: usage@ })
                &&& result->Ok_0.applied(UsageTables { records: records@, usage: usage@ })
                    == tables
            },
            Err(error) => result is Err && result->Err_0@ == error,
        },
{
    let ghost tables = UsageTables { records: records@, usage: usage@ };
    let mut plan = UsagePlan { added: Vec::new(), changed: None };
    let mut i: usize = 0;
    proof {
        assert(requests@.take(0) =~= Seq::empty());
        assert(records@ + plan.added@ =~= records@);
    }
    while i < requests.len()
        invariant
            i <= requests@.len(),
            forall|k: int| 0 <= k < requests@.len() ==> (#[trigger] requests@[k]).owner == *owner,
            tables == (UsageTables { records: records@, usage: usage@ }),
            plan.fits(tables),
            plan.changed is Some ==> {
                &&& owner is MainSession
                &&& plan.changed->0.row.session_id@ == owner->MainSession_session_id@
                &&& first(usage@, is_usage_of(owner->MainSession_session_id@)) == Some(
                    plan.changed->0.place as int,
                )
            },
            with_requests(tables, requests@.take(i as int)) == Ok::<_, Refusal>(
                plan.applied(tables),
            ),
        decreases requests@.len() - i,
    {
        let request = &requests[i];
        let ghost now = plan.applied(tables);
        proof {
            assert(requests@.take(i + 1).drop_last() =~= requests@.take(i as int));
            assert(requests@.take(i + 1).last() == *request);
            assert(with_requests(tables, requests@.take(i + 1)) == with_request(now, *request));
            some_row_in_parts(records@, plan.added@, records_request(*request));
            if with_request(now, *request) is Err {
                refused_request_refuses_all(tables, requests@, i + 1);
            }
        }
        match check_usage(&request.usage) {
            Ok(_) => {},
            Err(error) => {
                return Err(error);
            },
        }
        let recorded = any(
            records,
            Ghost(records_request(*request)),
            |row: &ModelRequestRecord| -> (same: bool)
                ensures
                    same == same_request(*row, *request)
                { is_same_request(row, request) },
        ) || any(
            &plan.added,
            Ghost(records_request(*request)),
            |row: &ModelRequestRecord| -> (same: bool)
                ensures
                    same == same_request(*row, *request)
                { is_same_request(row, request) },
        );
        if !recorded {
            match owner {
                ConversationOwner::ChildTask { session_id, child_task_id } => {},
                ConversationOwner::MainSession { session_id } => {
                    let place: usize = match &plan.changed {
                        Some(changed) => {
                            proof {
                                usage_row_stays_first(
                                    usage@,
                                    session_id@,
                                    changed.place as int,
                                    changed.row,
                                );
                            }
                            changed.place
                        },
                        None => {
                            match position(
                                usage,
                                Ghost(is_usage_of(session_id@)),
                                |row: &SessionUsageRow| -> (found: bool)
                                    ensures
                                        found == (row.session_id@ == session_id@)
                                    { row.session_id == *session_id },
                            ) {
                                Some(place) => place,
                                None => {
                                    return Err(invalid_data("session usage row is missing"));
                                },
                            }
                        },
                    };
                    let current = match &plan.changed {
                        Some(changed) => changed.row.copy(),
                        None => usage[place].copy(),
                    };
                    assert(now.usage[place as int] == current);
                    match add_usage(&current.usage, &request.usage) {
                        Some(next) => {
                            plan.changed = Some(
                                ChangedUsage {
                                    place,
                                    row: SessionUsageRow {
                                        session_id: current.session_id,
                                        usage: next,
                                        backfilled: current.backfilled,
                                        updated_at_ms: request.completed_at_ms,
                                    },
                                },
                            );
                        },
                        None => {
                            return Err(
                                internal_error("session usage could not be accumulated"),
                            );
                        },
                    }
                },
            }
            let ghost before = plan.added@;
            plan.added.push(request.copy());
            proof {
                assert(records@ + plan.added@ =~= (records@ + before).push(*request));
                assert(with_request(now, *request)->Ok_0.usage =~= plan.applied(tables).usage);
            }
        }
        i += 1;
    }
    proof {
        assert(requests@.take(requests@.len() as int) =~= requests@);
    }
    Ok(plan)
}

/// Carries out a plan.
pub fn apply_plan(
    records: &mut Vec<ModelRequestRecord>,
    usage: &mut Vec<SessionUsageRow>,
    plan: UsagePlan,
)
    requires
        plan.fits(UsageTables { records: old(records)@, usage: old(usage)@ }),
    ensures
        (UsageTables { records: final(records)@, usage: final(usage)@ }) == plan.applied(
            UsageTables { records: old(records)@, usage: old(usage)@ },
        ),
{
    let mut added = plan.added;
    records.append(&mut added);
    match plan.changed {
        Some(changed) => {
            usage[changed.place] = changed.row;
        },
        None => {},
    }
}

/// The usage of a session as it is stored.
#[derive(Debug)]
pub struct UsageColumns {
    pub request_count: i64,
    pub input_tokens_sum: i64,
    pub output_tokens_sum: i64,
    pub total_tokens_sum: i64,
    pub cached_input_tokens_sum: i64,
    pub cached_request_count: i64,
    pub reasoning_tokens_sum: i64,
    pub reasoning_request_count: i64,
    pub latest_input_tokens: Option<i64>,
    pub latest_output_tokens: Option<i64>,
    pub latest_total_tokens: Option<i64>,
    pub latest_cached_input_tokens: Option<i64>,
    pub latest_reasoning_tokens: Option<i64>,
}

/// No number, or one that counts.
pub open spec fn counts(value: Option<i64>) -> bool {
    value is Some ==> value->0 >= 0
}

/// Stored columns that make a usage: sums that count, and a latest usage that is whole or absent.
pub open spec fn usage_is_readable(columns: UsageColumns) -> bool {
    &&& columns.request_count >= 0
    &&& columns.input_tokens_sum >= 0
    &&& columns.output_tokens_sum >= 0
    &&& columns.total_tokens_sum >= 0
    &&& columns.cached_input_tokens_sum >= 0
    &&& columns.cached_request_count >= 0
    &&& columns.reasoning_tokens_sum >= 0
    &&& columns.reasoning_request_count >= 0
    &&& columns.latest_input_tokens is Some ==> {
        &&& columns.latest_input_tokens->0 >= 0
        &&& columns.latest_output_tokens is Some && columns.latest_output_tokens->0 >= 0
        &&& columns.latest_total_tokens is Some && columns.latest_total_tokens->0 >= 0
        &&& counts(columns.latest_cached_input_tokens)
        &&& counts(columns.latest_reasoning_tokens)
    }
}

/// An optional stored integer as a count.
pub open spec fn as_count(value: Option<i64>) -> Option<u64> {
    match value {
        Some(value) => Some(value as u64),
        None => None,
    }
}

/// The usage that stored columns make.
pub open spec fn usage_of(columns: UsageColumns) -> SessionUsage {
    SessionUsage {
        request_count: columns.request_count as u64,
        input_tokens: columns.input_tokens_sum as u64,
        output_tokens: columns.output_tokens_sum as u64,
        total_tokens: columns.total_tokens_sum as u64,
        cached_input_tokens: columns.cached_input_tokens_sum as u64,
        cached_request_count: columns.cached_request_count as u64,
        reasoning_tokens: columns.reasoning_tokens_sum as u64,
        reasoning_request_count: columns.reasoning_request_count as u64,
        latest: match columns.latest_input_tokens {
            Some(input_tokens) => Some(
                TokenUsage {
                    input_tokens: input_tokens as u64,
                    output_tokens: columns.latest_output_tokens->0 as u64,
                    total_tokens: columns.latest_total_tokens->0 as u64,
                    cached_input_tokens: as_count(columns.latest_cached_input_tokens),
                    reasoning_tokens: as_count(columns.latest_reasoning_tokens),
                },
            ),
            None => None,
        },
    }
}

fn decode_count(value: Option<i64>) -> (result: Option<Option<u64>>)
    ensures
        counts(value) ==> result == Some(as_count(value)),
        !counts(value) ==> result is None,
{
    match value {
        None => Some(None),
        Some(value) => if value >= 0 {
            Some(Some(value as u64))
        } else {
            None
        },
    }
}

/// Reads the usage of a session from its columns.
pub fn decode_session_usage(columns: &UsageColumns) -> (result: StorageResult<SessionUsage>)
    ensures
        usage_is_readable(*columns) ==> result is Ok && result->Ok_0 == usage_of(*columns),
        !usage_is_readable(*columns) ==> result is Err && result->Err_0@ == failed(
            "session usage could not be read"@,
        ),
{
    if columns.request_count < 0 || columns.input_tokens_sum < 0 || columns.output_tokens_sum < 0
        || columns.total_tokens_sum < 0 || columns.cached_input_tokens_sum < 0
        || columns.cached_request_count < 0 || columns.reasoning_tokens_sum < 0
        || columns.reasoning_request_count < 0 {
        return Err(internal_error("session usage could not be read"));
    }
    let latest = match columns.latest_input_tokens {
        None => None,
        Some(input_tokens) => match (
            columns.latest_output_tokens,
            columns.latest_total_tokens,
            decode_count(columns.latest_cached_input_tokens),
            decode_count(columns.latest_reasoning_tokens),
        ) {
            (
                Some(output_tokens),
                Some(total_tokens),
                Some(cached_input_tokens),
                Some(reasoning_tokens),
            ) => {
                if input_tokens < 0 || output_tokens < 0 || total_tokens < 0 {
                    return Err(internal_error("session usage could not be read"));
                }
                Some(
                    TokenUsage {
                        input_tokens: input_tokens as u64,
                        output_tokens: output_tokens as u64,
                        total_tokens: total_tokens as u64,
                        cached_input_tokens,
                        reasoning_tokens,
                    },
                )
            },
            _ => {
                return Err(internal_error("session usage could not be read"));
            },
        },
    };
    Ok(
        SessionUsage {
            request_count: columns.request_count as u64,
            input_tokens: columns.input_tokens_sum as u64,
            output_tokens: columns.output_tokens_sum as u64,
            total_tokens: columns.total_tokens_sum as u64,
            cached_input_tokens: columns.cached_input_tokens_sum as u64,
            cached_request_count: columns.cached_request_count as u64,
            reasoning_tokens: columns.reasoning_tokens_sum as u64,
            reasoning_request_count: columns.reasoning_request_count as u64,
            latest,
        },
    )
}

/// The condition of being a usage that lacks the requests made before it was kept.
pub open spec fn is_incomplete(scope: Option<String>) -> spec_fn(SessionUsageRow) -> bool {
    |row: SessionUsageRow| !row.backfilled && (scope is None || row.session_id@ == scope->0@)
}

/// What usages are ordered by.
pub open spec fn usage_keys(rows: Seq<SessionUsageRow>) -> Seq<SortKey> {
    rows.map_values(|row: SessionUsageRow| SortKey { rank: 0, time: 0, id: row.session_id })
}

/// The tables with the usage of a session marked as complete.
pub open spec fn with_completed(tables: UsageTables, session_id: Seq<char>) -> UsageTables {
    match first(tables.usage, is_usage_of(session_id)) {
        Some(i) => UsageTables {
            usage: tables.usage.update(
                i,
                SessionUsageRow { backfilled: true, ..tables.usage[i] },
            ),
            ..tables
        },
        None => tables,
    }
}

/// The tables after one usage was completed from its conversation. A conversation that cannot be
/// read is left for later.
pub open spec fn completed_one(
    engine: StorageEngine,
    tables: UsageTables,
    row: SessionUsageRow,
) -> Result<UsageTables, Refusal> {
    let conversation = current_conversation(engine, main_target(row.session_id));
    if lists(engine.unavailable_sessions@, row.session_id@) || conversation is Err {
        Ok(tables)
    } else {
        match with_requests(
            tables,
            requests_of(
                ConversationOwner::MainSession { session_id: row.session_id },
                None,
                conversation->Ok_0,
                row.updated_at_ms,
                true,
            ),
        ) {
            Err(error) => Err(error),
            Ok(next) => Ok(with_completed(next, row.session_id@)),
        }
    }
}

/// The tables after the first `n` usages were completed, up to the first that cannot be, and why
/// that one cannot be.
pub open spec fn completed_upto(
    engine: StorageEngine,
    rows: Seq<SessionUsageRow>,
    order: Seq<usize>,
    n: int,
) -> (UsageTables, Option<Refusal>)
    decreases n,
{
    if n <= 0 {
        (
            UsageTables { records: engine.request_records@, usage: engine.session_usage@ },
            None,
        )
    } else {
        let (tables, error) = completed_upto(engine, rows, order, n - 1);
        if error is Some {
            (tables, error)
        } else {
            match completed_one(engine, tables, rows[order[n - 1] as int]) {
                Ok(next) => (next, None),
                Err(error) => (tables, Some(error)),
            }
        }
    }
}

/// The engine after usages were completed, in the order of their sessions.
pub open spec fn usages_completed(
    before: StorageEngine,
    after: StorageEngine,
    scope: Option<String>,
    order: Seq<usize>,
    outcome: Result<(), Refusal>,
) -> bool {
    let rows = kept(before.session_usage@, is_incomplete(scope));
    let (tables, error) = completed_upto(before, rows, order, order.len() as int);
    &&& is_order(usage_keys(rows), order)
    &&& after == (StorageEngine {
        request_records: after.request_records,
        session_usage: after.session_usage,
        ..before
    })
    &&& (UsageTables { records: after.request_records@, usage: after.session_usage@ }) == tables
    &&& match error {
        Some(error) => outcome == Err::<(), _>(error),
        None => outcome is Ok,
    }
}

proof fn stopped_completion_stays(
    engine: StorageEngine,
    rows: Seq<SessionUsageRow>,
    order: Seq<usize>,
    n: int,
    m: int,
)
    requires
        0 <= n <= m,
        completed_upto(engine, rows, order, n).1 is Some,
    ensures
        completed_upto(engine, rows, order, m) == completed_upto(engine, rows, order, n),
    decreases m - n,
{
    if n < m {
        stopped_completion_stays(engine, rows, order, n, m - 1);
    }
}

/// The usage that is shown of a session.
pub open spec fn is_usage_shown(
    engine: StorageEngine,
    session_id: Seq<char>,
    usage: SessionUsage,
) -> bool {
    usage == match first(engine.session_usage@, is_usage_of(session_id)) {
        Some(i) => engine.session_usage@[i].usage,
        None => no_usage(),
    }
}

impl StorageEngine {
    /// The usage of a session; one without any has used nothing.
    pub fn get_session_usage(&self, session_id: &String) -> (usage: SessionUsage)
        ensures
            is_usage_shown(*self, session_id@, usage),
            usage == match first(self.session_usage@, is_usage_of(session_id@)) {
                Some(i) => self.session_usage@[i].usage,
                None => no_usage(),
            },
    {
        match position(
            &self.session_usage,
            Ghost(is_usage_of(session_id@)),
            |row: &SessionUsageRow| -> (found: bool)
                ensures
                    found == (row.session_id@ == session_id@)
                { row.session_id == *session_id },
        ) {
            Some(place) => self.session_usage[place].usage,
            None => empty_usage(),
        }
    }

    /// Counts in the requests that were made before usage was kept, once for each session.
    pub fn backfill_session_usage(&mut self, scope: &Option<String>) -> (result: StorageResult<()>)
        ensures
            exists|order: Seq<usize>| #[trigger]
                usages_completed(*old(self), *final(self), *scope, order, outcome_of(result)),
    {
        let ghost before = *self;
        let ghost condition = is_incomplete(*scope);
        let mut rows: Vec<SessionUsageRow> = Vec::new();
        let mut keys: Vec<SortKey> = Vec::new();
        let mut i: usize = 0;
        proof {
            assert(self.session_usage@.take(0) =~= Seq::empty());
        }
        while i < self.session_usage.len()
            invariant
                i <= self.session_usage@.len(),
                condition == is_incomplete(*scope),
                rows@ == kept(self.session_usage@.take(i as int), condition),
                keys@ =~= usage_keys(rows@),
            decreases self.session_usage@.len() - i,
        {
            let row = &self.session_usage[i];
            proof {
                let longer = self.session_usage@.take(i + 1);
                assert(longer.drop_last() =~= self.session_usage@.take(i as int));
                assert(longer.last() == *row);
            }
            let inside = match scope {
                None => true,
                Some(session_id) => row.session_id == *session_id,
            };
            if inside && !row.backfilled {
                rows.push(row.copy());
                keys.push(SortKey { rank: 0, time: 0, id: row.session_id.clone() });
            }
            i += 1;
        }
        proof {
            assert(self.session_usage@.take(self.session_usage@.len() as int)
                =~= self.session_usage@);
        }
        let order = ordered(&keys);
        let mut n: usize = 0;
        while n < order.len()
            invariant
                n <= order@.len(),
                before == *old(self),
                rows@ == kept(before.session_usage@, is_incomplete(*scope)),
                is_order(usage_keys(rows@), order@),
                *self == (StorageEngine {
                    request_records: self.request_records,
                    session_usage: self.session_usage,
                    ..before
                }),
                completed_upto(before, rows@, order@, n as int) == (
                    UsageTables {
                        records: self.request_records@,
                        usage: self.session_usage@,
                    },
                    None::<Refusal>,
                ),
            decreases order@.len() - n,
        {
            match self.complete_usage(&rows[order[n]], Ghost(before)) {
                Ok(_) => {},
                Err(error) => {
                    proof {
                        stopped_completion_stays(
                            before,
                            rows@,
                            order@,
                            n + 1,
                            order@.len() as int,
                        );
                        assert(usages_completed(
                            *old(self),
                            *self,
                            *scope,
                            order@,
                            Err::<(), Refusal>(error@),
                        ));
                    }
                    return Err(error);
                },
            }
            n += 1;
        }
        proof {
            assert(usages_completed(*old(self), *self, *scope, order@, Ok::<(), Refusal>(())));
        }
        Ok(())
    }

    fn complete_usage(&mut self, row: &SessionUsageRow, Ghost(before): Ghost<StorageEngine>) -> (result:
        StorageResult<()>)
        requires
            *old(self) == (StorageEngine {
                request_records: old(self).request_records,
                session_usage: old(self).session_usage,
                ..before
            }),
        ensures
            *final(self) == (StorageEngine {
                request_records: final(self).request_records,
                session_usage: final(self).session_usage,
                ..before
            }),
            ({
                let tables = UsageTables {
                    records: old(self).request_records@,
                    usage: old(self).session_usage@,
                };
                let after = UsageTables {
                    records: final(self).request_records@,
                    usage: final(self).session_usage@,
                };
                match completed_one(before, tables, *row) {
                    Ok(next) => result is Ok && after == next,
                    Err(error) => result is Err && result->Err_0@ == error && after == tables,
                }
            }),
    {
        if holds_text(&self.unavailable_sessions, row.session_id.as_str()) {
            return Ok(());
        }
        let target = ConversationStorageTarget::Session {
            session_id: row.session_id.clone(),
            run_id: row.session_id.clone(),
        };
        proof {
            assert(current_conversation(*self, target) == current_conversation(before, target));
        }
        let messages = match self.load_target_conversation(&target) {
            Ok(messages) => messages,
            Err(_) => {
                return Ok(());
            },
        };
        let owner = ConversationOwner::MainSession { session_id: row.session_id.clone() };
        let requests = reported_requests(&owner, &None, &messages, row.updated_at_ms, true);
        let plan = match plan_requests(
            &self.request_records,
            &self.session_usage,
            &owner,
            &requests,
        ) {
            Ok(plan) => plan,
            Err(error) => {
                return Err(error);
            },
        };
        apply_plan(&mut self.request_records, &mut self.session_usage, plan);
        let session_id = &row.session_id;
        let ghost tables = UsageTables {
            records: self.request_records@,
            usage: self.session_usage@,
        };
        match position(
            &self.session_usage,
            Ghost(is_usage_of(session_id@)),
            |usage: &SessionUsageRow| -> (found: bool)
                ensures
                    found == (usage.session_id@ == session_id@)
                { usage.session_id == *session_id },
        ) {
            Some(place) => {
                self.session_usage[place].backfilled = true;
                proof {
                    assert(self.session_usage@ =~= with_completed(tables, session_id@).usage);
                }
            },
            None => {},
        }
        Ok(())
    }
}

/// Requests that are accounted for are recorded, and what was recorded stays.
pub proof fn requests_are_kept(tables: UsageTables, records: Seq<ModelRequestRecord>)
    ensures
        with_requests(tables, records) is Ok ==> {
            let after = with_requests(tables, records)->Ok_0;
            &&& forall|condition: spec_fn(ModelRequestRecord) -> bool|
                some_row(tables.records, condition) ==> #[trigger] some_row(
                    after.records,
                    condition,
                )
            &&& forall|i: int|
                0 <= i < records.len() ==> usage_refusal((#[trigger] records[i]).usage) is None
                    && some_row(after.records, records_request(records[i]))
        },
    decreases records.len(),
{
    if records.len() > 0 && with_requests(tables, records) is Ok {
        let shorter = records.drop_last();
        let last = records.last();
        requests_are_kept(tables, shorter);
        let earlier = with_requests(tables, shorter)->Ok_0;
        let after = with_requests(tables, records)->Ok_0;
        assert forall|condition: spec_fn(ModelRequestRecord) -> bool| some_row(
            earlier.records,
            condition,
        ) implies #[trigger] some_row(after.records, condition) by {
            let k = choose|k: int|
                0 <= k < earlier.records.len() && condition(#[trigger] earlier.records[k]);
            assert(after.records[k] == earlier.records[k]);
        }
        assert forall|i: int| 0 <= i < records.len() implies usage_refusal(
            (#[trigger] records[i]).usage,
        ) is None && some_row(after.records, records_request(records[i])) by {
            if i < shorter.len() {
                assert(shorter[i] == records[i]);
                assert(some_row(earlier.records, records_request(records[i])));
            } else if !some_row(earlier.records, records_request(last)) {
                assert(records_request(last)(after.records[earlier.records.len() as int]));
            }
        }
    }
}

/// Accounting for requests once more changes nothing.
pub proof fn requests_count_once(tables: UsageTables, records: Seq<ModelRequestRecord>)
    requires
        with_requests(tables, records) is Ok,
    ensures
        with_requests(with_requests(tables, records)->Ok_0, records) == Ok::<_, Refusal>(
            with_requests(tables, records)->Ok_0,
        ),
{
    requests_are_kept(tables, records);
    let after = with_requests(tables, records)->Ok_0;
    recorded_requests_change_nothing(after, records);
}

proof fn recorded_requests_change_nothing(tables: UsageTables, records: Seq<ModelRequestRecord>)
    requires
        forall|i: int|
            0 <= i < records.len() ==> usage_refusal((#[trigger] records[i]).usage) is None
                && some_row(tables.records, records_request(records[i])),
    ensures
        with_requests(tables, records) == Ok::<_, Refusal>(tables),
    decreases records.len(),
{
    if records.len() > 0 {
        let shorter = records.drop_last();
        assert forall|i: int| 0 <= i < shorter.len() implies usage_refusal(
            (#[trigger] shorter[i]).usage,
        ) is None && some_row(tables.records, records_request(shorter[i])) by {
            assert(shorter[i] == records[i]);
        }
        recorded_requests_change_nothing(tables, shorter);
        assert(records[records.len() - 1] == records.last());
    }
}

/// What the recorded requests of a session itself consumed together.
pub open spec fn consumed(records: Seq<ModelRequestRecord>, session_id: Seq<char>) -> SessionUsage
    decreases records.len(),
{
    if records.len() == 0 {
        no_usage()
    } else {
        let earlier = consumed(records.drop_last(), session_id);
        if owner_key(records.last().owner) == (false, session_id) {
            accumulated(earlier, records.last().usage)
        } else {
            earlier
        }
    }
}

/// The rolling usage of a session is what its recorded requests consumed.
pub open spec fn summed_up(tables: UsageTables, session_id: Seq<char>) -> bool {
    let place = first(tables.usage, is_usage_of(session_id));
    place is Some && tables.usage[place->0].usage == consumed(tables.records, session_id)
}

/// Accounting for a request keeps the rolling usage of every session what its recorded requests
/// consumed. Requests of delegated tasks are recorded, and count for no session.
pub proof fn usage_stays_summed_up(
    tables: UsageTables,
    record: ModelRequestRecord,
    session_id: Seq<char>,
)
    requires
        summed_up(tables, session_id),
        with_request(tables, record) is Ok,
    ensures
        summed_up(with_request(tables, record)->Ok_0, session_id),
{
    let after = with_request(tables, record)->Ok_0;
    if !some_row(tables.records, records_request(record)) {
        assert(after.records.drop_last() =~= tables.records);
        assert(after.records.last() == record);
        first_is_found(tables.usage, is_usage_of(session_id));
        match record.owner {
            ConversationOwner::MainSession { session_id: owner } => {
                first_is_found(tables.usage, is_usage_of(owner@));
                let place = first(tables.usage, is_usage_of(owner@))->0;
                first_after_update(
                    tables.usage,
                    is_usage_of(session_id),
                    place,
                    after.usage[place],
                );
            },
            ConversationOwner::ChildTask { session_id: owner, child_task_id } => {},
        }
    }
}

} // verus!
