//! What changes of a session at a user's word, and what does not.

use vstd::prelude::*;

use std::sync::Arc;

use crate::append_effect::StagedAppend;
use crate::emptying_laws::{appending_session, exchanging_session};
use crate::engine::{is_session, StorageEngine};
use crate::error::Refusal;
use crate::idle::{
    busy_for_transfer, is_active_in, is_append_in, is_child_in, is_exchange_in, is_queued_in,
    unfinished_writes, working,
};
use crate::message::held;
use crate::order::key_before;
use crate::relations::{
    filtered_rows, found_leads, kept_is_filtered, leader_is_found, leads, none_of,
    session_stands_where_found, stands_at,
};
use crate::rows::{
    ChildTaskRow, FeedbackRow, MessageFeedback, RunRow, SessionRow, SessionTitleOrigin, StoredInput,
};
use crate::session_management::{
    active, feedback_changed, feedback_keys, feedback_listed, feedback_text, is_feedback_elsewhere,
    is_feedback_in, is_feedback_on, place_of_session, session_approval_changed,
    session_archive_changed, session_effort_changed, session_model_changed, session_pin_changed,
    session_proxy_changed, session_title_changed, session_variant_changed, ApprovalModeChange,
    ArchiveChange, MessageFeedbackChange, ModelChange, ReasoningEffortChange, SessionPinnedChange,
    SessionProxyChange, SessionTitleChange, StoredMessageFeedback, VariantChange,
};
use crate::table::{first, kept};
use crate::text::text_before;
use crate::tool_exchange::PendingExchange;

verus! {

/// One session changed, and nothing else.
pub open spec fn only_this_changed(before: StorageEngine, after: StorageEngine, s: int) -> bool {
    &&& after == (StorageEngine { sessions: after.sessions, ..before })
    &&& after.sessions@.len() == before.sessions@.len()
    &&& forall|j: int|
        0 <= j < before.sessions@.len() && j != s ==> #[trigger] after.sessions@[j]
            == before.sessions@[j]
}

/// A session that is there and active.
pub open spec fn is_active_at(engine: StorageEngine, s: int, session_id: Seq<char>) -> bool {
    stands_at(engine.sessions@, s, session_id) && engine.sessions@[s].lifecycle is Active
}

/// A session has nothing queued, no run under way and no tool exchange pending.
pub open spec fn does_not_work(engine: StorageEngine, session_id: Seq<char>) -> bool {
    &&& none_of(
        engine.inputs@,
        |input: StoredInput| input.session_id@ == session_id && input.state is Queued,
    )
    &&& none_of(
        engine.runs@,
        |run: RunRow|
            run.session_id@ == session_id && (run.status is Accepted || run.status is Running
                || run.status is Cancelling),
    )
    &&& none_of(
        engine.pending_exchanges@,
        |exchange: Arc<PendingExchange>| exchanging_session(held(exchange).target) == session_id,
    )
}

/// No delegated task of a session is under way, and no tool exchange of one is pending.
pub open spec fn no_task_works(engine: StorageEngine, session_id: Seq<char>) -> bool {
    &&& none_of(
        engine.child_tasks@,
        |task: ChildTaskRow|
            task.session_id@ == session_id && (task.status is Accepted || task.status is Running),
    )
    &&& none_of(
        engine.child_pending_exchanges@,
        |exchange: Arc<PendingExchange>| exchanging_session(held(exchange).target) == session_id,
    )
}

/// A session works while it has something queued, under way or pending.
pub proof fn sessions_work_while_something_waits(engine: StorageEngine, session_id: Seq<char>)
    ensures
        working(engine, session_id) == !does_not_work(engine, session_id),
        busy_for_transfer(engine, session_id) == !(does_not_work(engine, session_id)
            && no_task_works(engine, session_id)),
{
    found_leads(
        engine.inputs@,
        is_queued_in(session_id),
        |input: StoredInput| input.session_id@ == session_id && input.state is Queued,
    );
    found_leads(
        engine.runs@,
        is_active_in(session_id),
        |run: RunRow|
            run.session_id@ == session_id && (run.status is Accepted || run.status is Running
                || run.status is Cancelling),
    );
    found_leads(
        engine.pending_exchanges@,
        is_exchange_in(session_id),
        |exchange: Arc<PendingExchange>| exchanging_session(held(exchange).target) == session_id,
    );
    found_leads(
        engine.child_pending_exchanges@,
        is_exchange_in(session_id),
        |exchange: Arc<PendingExchange>| exchanging_session(held(exchange).target) == session_id,
    );
    found_leads(
        engine.child_tasks@,
        is_child_in(session_id),
        |task: ChildTaskRow|
            task.session_id@ == session_id && (task.status is Accepted || task.status is Running),
    );
}

/// A session has writes that are not finished while an append is announced or an exchange pending,
/// of the session itself or of a task of it.
pub proof fn writes_are_unfinished_while_announced(engine: StorageEngine, session_id: Seq<char>)
    ensures
        unfinished_writes(engine, session_id) == !({
            &&& none_of(
                engine.body_appends@,
                |append: Arc<StagedAppend>| appending_session(held(append).target) == session_id,
            )
            &&& none_of(
                engine.child_body_appends@,
                |append: Arc<StagedAppend>| appending_session(held(append).target) == session_id,
            )
            &&& none_of(
                engine.pending_exchanges@,
                |exchange: Arc<PendingExchange>|
                    exchanging_session(held(exchange).target) == session_id,
            )
            &&& none_of(
                engine.child_pending_exchanges@,
                |exchange: Arc<PendingExchange>|
                    exchanging_session(held(exchange).target) == session_id,
            )
        }),
{
    found_leads(
        engine.body_appends@,
        is_append_in(session_id),
        |append: Arc<StagedAppend>| appending_session(held(append).target) == session_id,
    );
    found_leads(
        engine.child_body_appends@,
        is_append_in(session_id),
        |append: Arc<StagedAppend>| appending_session(held(append).target) == session_id,
    );
    found_leads(
        engine.pending_exchanges@,
        is_exchange_in(session_id),
        |exchange: Arc<PendingExchange>| exchanging_session(held(exchange).target) == session_id,
    );
    found_leads(
        engine.child_pending_exchanges@,
        is_exchange_in(session_id),
        |exchange: Arc<PendingExchange>| exchanging_session(held(exchange).target) == session_id,
    );
}

/// An active session takes the title that the user gives it, as one of the user's. Nothing else of
/// it changes, and no other session.
pub proof fn retitled_sessions_are_the_users(
    before: StorageEngine,
    after: StorageEngine,
    change: SessionTitleChange,
    outcome: Result<(), Refusal>,
)
    requires
        session_title_changed(before, after, change, outcome),
    ensures
        outcome is Ok <==> (exists|s: int| #[trigger] is_active_at(before, s, change.session_id@)),
        outcome is Err ==> after == before,
        outcome is Ok ==> forall|s: int| #[trigger] is_active_at(before, s, change.session_id@)
            ==> only_this_changed(before, after, s) && after.sessions@[s] == (SessionRow {
                title: change.title,
                title_origin: SessionTitleOrigin::User,
                ..before.sessions@[s]
            }),
{
    session_stands_where_found(before.sessions@, change.session_id@);
    sessions_work_while_something_waits(before, change.session_id@);
    if active(before, change.session_id@) {
        assert(is_active_at(
            before,
            place_of_session(before, change.session_id@),
            change.session_id@,
        ));
    }
}

/// An active session is pinned or not as the user says. Nothing else of it changes, and no other
/// session.
pub proof fn pins_change_nothing_else(
    before: StorageEngine,
    after: StorageEngine,
    change: SessionPinnedChange,
    outcome: Result<(), Refusal>,
)
    requires
        session_pin_changed(before, after, change, outcome),
    ensures
        outcome is Ok <==> (exists|s: int| #[trigger] is_active_at(before, s, change.session_id@)),
        outcome is Err ==> after == before,
        outcome is Ok ==> forall|s: int| #[trigger] is_active_at(before, s, change.session_id@)
            ==> only_this_changed(before, after, s) && after.sessions@[s] == (SessionRow {
                is_pinned: change.is_pinned,
                ..before.sessions@[s]
            }),
{
    session_stands_where_found(before.sessions@, change.session_id@);
    sessions_work_while_something_waits(before, change.session_id@);
    if active(before, change.session_id@) {
        assert(is_active_at(
            before,
            place_of_session(before, change.session_id@),
            change.session_id@,
        ));
    }
}

/// An active session that does not work takes the model and the effort that the user gives it.
/// Nothing else of it changes, and no other session.
pub proof fn models_change_at_rest(
    before: StorageEngine,
    after: StorageEngine,
    change: ModelChange,
    outcome: Result<(), Refusal>,
)
    requires
        session_model_changed(before, after, change, outcome),
    ensures
        outcome is Ok <==> (exists|s: int| #[trigger] is_active_at(before, s, change.session_id@)) && does_not_work(before, change.session_id@),
        outcome is Err ==> after == before,
        outcome is Ok ==> forall|s: int| #[trigger] is_active_at(before, s, change.session_id@)
            ==> only_this_changed(before, after, s) && after.sessions@[s] == (SessionRow {
                model_key: change.model_key,
                reasoning_effort: change.reasoning_effort,
                ..before.sessions@[s]
            }),
{
    session_stands_where_found(before.sessions@, change.session_id@);
    sessions_work_while_something_waits(before, change.session_id@);
    if active(before, change.session_id@) {
        assert(is_active_at(
            before,
            place_of_session(before, change.session_id@),
            change.session_id@,
        ));
    }
}

/// An active session takes the effort that the user gives it. Nothing else of it changes, and no
/// other session.
pub proof fn efforts_change_nothing_else(
    before: StorageEngine,
    after: StorageEngine,
    change: ReasoningEffortChange,
    outcome: Result<(), Refusal>,
)
    requires
        session_effort_changed(before, after, change, outcome),
    ensures
        outcome is Ok <==> (exists|s: int| #[trigger] is_active_at(before, s, change.session_id@)),
        outcome is Err ==> after == before,
        outcome is Ok ==> forall|s: int| #[trigger] is_active_at(before, s, change.session_id@)
            ==> only_this_changed(before, after, s) && after.sessions@[s] == (SessionRow {
                reasoning_effort: change.reasoning_effort,
                ..before.sessions@[s]
            }),
{
    session_stands_where_found(before.sessions@, change.session_id@);
    sessions_work_while_something_waits(before, change.session_id@);
    if active(before, change.session_id@) {
        assert(is_active_at(
            before,
            place_of_session(before, change.session_id@),
            change.session_id@,
        ));
    }
}

/// An active session takes the variant that the user gives it. Nothing else of it changes, and no
/// other session.
pub proof fn variants_change_nothing_else(
    before: StorageEngine,
    after: StorageEngine,
    change: VariantChange,
    outcome: Result<(), Refusal>,
)
    requires
        session_variant_changed(before, after, change, outcome),
    ensures
        outcome is Ok <==> (exists|s: int| #[trigger] is_active_at(before, s, change.session_id@)),
        outcome is Err ==> after == before,
        outcome is Ok ==> forall|s: int| #[trigger] is_active_at(before, s, change.session_id@)
            ==> only_this_changed(before, after, s) && after.sessions@[s] == (SessionRow {
                current_variant: change.variant,
                ..before.sessions@[s]
            }),
{
    session_stands_where_found(before.sessions@, change.session_id@);
    sessions_work_while_something_waits(before, change.session_id@);
    if active(before, change.session_id@) {
        assert(is_active_at(
            before,
            place_of_session(before, change.session_id@),
            change.session_id@,
        ));
    }
}

/// An active session takes the approval mode that the user gives it. Nothing else of it changes,
/// and no other session.
pub proof fn approvals_change_nothing_else(
    before: StorageEngine,
    after: StorageEngine,
    change: ApprovalModeChange,
    outcome: Result<(), Refusal>,
)
    requires
        session_approval_changed(before, after, change, outcome),
    ensures
        outcome is Ok <==> (exists|s: int| #[trigger] is_active_at(before, s, change.session_id@)),
        outcome is Err ==> after == before,
        outcome is Ok ==> forall|s: int| #[trigger] is_active_at(before, s, change.session_id@)
            ==> only_this_changed(before, after, s) && after.sessions@[s] == (SessionRow {
                approval_mode: change.approval_mode,
                ..before.sessions@[s]
            }),
{
    session_stands_where_found(before.sessions@, change.session_id@);
    sessions_work_while_something_waits(before, change.session_id@);
    if active(before, change.session_id@) {
        assert(is_active_at(
            before,
            place_of_session(before, change.session_id@),
            change.session_id@,
        ));
    }
}

/// A standard session is archived while it is active and does not work, and is brought back while it
/// is archived. The time is kept while it is archived. Nothing else of it changes, and no other
/// session.
pub proof fn archived_sessions_come_back(
    before: StorageEngine,
    after: StorageEngine,
    change: ArchiveChange,
    outcome: Result<(), Refusal>,
)
    requires
        session_archive_changed(before, after, change, outcome),
    ensures
        outcome is Err ==> after == before,
        outcome is Ok <==> exists|s: int|
            {
                &&& #[trigger] stands_at(before.sessions@, s, change.session_id@)
                &&& before.sessions@[s].role is Standard
                &&& change.archived ==> before.sessions@[s].lifecycle is Active && does_not_work(
                    before,
                    change.session_id@,
                )
                &&& !change.archived ==> before.sessions@[s].lifecycle is Archived
            },
        outcome is Ok ==> forall|s: int| #[trigger]
            stands_at(before.sessions@, s, change.session_id@) ==> {
                &&& only_this_changed(before, after, s)
                &&& (after.sessions@[s].lifecycle is Archived) == change.archived
                &&& change.archived ==> after.sessions@[s].archived_at_ms == Some(
                    change.changed_at_ms,
                )
                &&& !change.archived ==> after.sessions@[s].archived_at_ms is None
                &&& after.sessions@[s] == (SessionRow {
                    lifecycle: after.sessions@[s].lifecycle,
                    archived_at_ms: after.sessions@[s].archived_at_ms,
                    ..before.sessions@[s]
                })
            },
{
    session_stands_where_found(before.sessions@, change.session_id@);
    sessions_work_while_something_waits(before, change.session_id@);
    if first(before.sessions@, is_session(change.session_id@)) is Some {
        assert(stands_at(
            before.sessions@,
            place_of_session(before, change.session_id@),
            change.session_id@,
        ));
    }
}

/// An active controller takes an active standard session under its control, or lets it go, unless
/// another controller has it. A session that is under its control stays so since the time at which
/// it came there.
pub proof fn controllers_share_no_session(
    before: StorageEngine,
    after: StorageEngine,
    change: SessionProxyChange,
    outcome: Result<(), Refusal>,
)
    requires
        session_proxy_changed(before, after, change, outcome),
    ensures
        outcome is Err ==> after == before,
        outcome is Ok <==> exists|c: int, t: int|
            {
                &&& #[trigger] is_active_at(before, c, change.controller_session_id@)
                &&& #[trigger] is_active_at(before, t, change.target_session_id@)
                &&& before.sessions@[c].role is Controller
                &&& before.sessions@[t].role is Standard
                &&& match before.sessions@[t].proxy {
                    Some(proxy) => proxy.controller_session_id@ == change.controller_session_id@,
                    None => true,
                }
            },
        outcome is Ok ==> forall|t: int| #[trigger]
            stands_at(before.sessions@, t, change.target_session_id@) ==> {
                &&& only_this_changed(before, after, t)
                &&& after.sessions@[t] == (SessionRow {
                    proxy: after.sessions@[t].proxy,
                    ..before.sessions@[t]
                })
                &&& !change.enabled ==> after.sessions@[t].proxy is None
                &&& change.enabled ==> after.sessions@[t].proxy is Some
                    && after.sessions@[t].proxy->0.controller_session_id@
                    == change.controller_session_id@
                &&& change.enabled && before.sessions@[t].proxy is Some
                    ==> after.sessions@[t].proxy == before.sessions@[t].proxy
                &&& change.enabled && before.sessions@[t].proxy is None
                    ==> after.sessions@[t].proxy->0.changed_at_ms == change.changed_at_ms
            },
{
    session_stands_where_found(before.sessions@, change.controller_session_id@);
    session_stands_where_found(before.sessions@, change.target_session_id@);
    if active(before, change.controller_session_id@) {
        assert(is_active_at(
            before,
            place_of_session(before, change.controller_session_id@),
            change.controller_session_id@,
        ));
    }
    if active(before, change.target_session_id@) {
        assert(is_active_at(
            before,
            place_of_session(before, change.target_session_id@),
            change.target_session_id@,
        ));
    }
}

/// What a user thinks of a message of a session.
pub open spec fn is_thought_of(row: FeedbackRow, session_id: Seq<char>, message_id: Seq<char>) -> bool {
    row.session_id@ == session_id && row.message_id@ == message_id
}

/// What a user thinks of a message is noted while the session is there: the latest word counts, no
/// word takes the earlier ones back, and what was thought of other messages stays.
pub proof fn the_latest_feedback_counts(
    before: StorageEngine,
    after: StorageEngine,
    change: MessageFeedbackChange,
    outcome: Result<(), Refusal>,
)
    requires
        feedback_changed(before, after, change, outcome),
    ensures
        outcome is Err ==> after == before,
        outcome is Ok <==> exists|s: int| #[trigger]
            stands_at(before.sessions@, s, change.session_id@),
        outcome is Ok ==> after == (StorageEngine { feedback: after.feedback, ..before }),
        outcome is Ok && change.feedback is None ==> after.feedback@ == before.feedback@.filter(
            |row: FeedbackRow| !is_thought_of(row, change.session_id@, change.message_id@),
        ),
        outcome is Ok && change.feedback is Some && none_of(
            before.feedback@,
            |row: FeedbackRow| is_thought_of(row, change.session_id@, change.message_id@),
        ) ==> {
            &&& after.feedback@.len() == before.feedback@.len() + 1
            &&& after.feedback@.drop_last() == before.feedback@
            &&& after.feedback@.last().session_id == change.session_id
            &&& after.feedback@.last().message_id == change.message_id
            &&& after.feedback@.last().feedback == change.feedback->0
            &&& after.feedback@.last().changed_at_ms == change.changed_at_ms
        },
        outcome is Ok && change.feedback is Some ==> forall|i: int| #[trigger]
            feedback_at(before.feedback@, i, change.session_id@, change.message_id@) ==> {
                &&& after.feedback@.len() == before.feedback@.len()
                &&& after.feedback@[i] == (FeedbackRow {
                    feedback: change.feedback->0,
                    changed_at_ms: change.changed_at_ms,
                    ..before.feedback@[i]
                })
                &&& forall|j: int|
                    0 <= j < before.feedback@.len() && j != i ==> #[trigger] after.feedback@[j]
                        == before.feedback@[j]
            },
{
    session_stands_where_found(before.sessions@, change.session_id@);
    if first(before.sessions@, is_session(change.session_id@)) is Some {
        assert(stands_at(
            before.sessions@,
            first(before.sessions@, is_session(change.session_id@))->0,
            change.session_id@,
        ));
    }
    let rows = before.feedback@;
    let about = |row: FeedbackRow| is_thought_of(row, change.session_id@, change.message_id@);
    let elsewhere = |row: FeedbackRow|
        !is_thought_of(row, change.session_id@, change.message_id@);
    leader_is_found(rows, is_feedback_on(change.session_id@, change.message_id@), about);
    kept_is_filtered(
        rows,
        is_feedback_elsewhere(change.session_id@, change.message_id@),
        elsewhere,
    );
    if none_of(rows, about) {
        if first(rows, is_feedback_on(change.session_id@, change.message_id@)) is Some {
            let i = first(rows, is_feedback_on(change.session_id@, change.message_id@))->0;
            assert(about(rows[i]));
        }
        if outcome is Ok && change.feedback is Some {
            assert(after.feedback@.drop_last() =~= rows);
        }
    }
    assert forall|i: int| #[trigger]
        feedback_at(rows, i, change.session_id@, change.message_id@) implies first(
        rows,
        is_feedback_on(change.session_id@, change.message_id@),
    ) == Some(i) by {
        assert(leads(rows, i, about));
    }
}

/// The first row that says what a user thinks of a message.
pub open spec fn feedback_at(
    rows: Seq<FeedbackRow>,
    i: int,
    session_id: Seq<char>,
    message_id: Seq<char>,
) -> bool {
    leads(rows, i, |row: FeedbackRow| is_thought_of(row, session_id, message_id))
}

/// What a user thinks is listed for the messages of the session asked for and no other, each with
/// its word, in the order of the messages' identifiers.
pub proof fn feedback_is_listed_as_noted(
    engine: StorageEngine,
    session_id: Seq<char>,
    order: Seq<usize>,
    list: Seq<StoredMessageFeedback>,
)
    requires
        feedback_listed(kept(engine.feedback@, is_feedback_in(session_id)), order, list),
    ensures
        list.len() == engine.feedback@.filter(
            |row: FeedbackRow| row.session_id@ == session_id,
        ).len(),
        forall|k: int|
            0 <= k < list.len() ==> exists|i: int|
                0 <= i < engine.feedback@.len() && is_thought_of(
                    #[trigger] engine.feedback@[i],
                    session_id,
                    (#[trigger] list[k]).message_id@,
                ) && list[k].feedback == engine.feedback@[i].feedback,
        forall|k: int, l: int|
            0 <= k < l < list.len() ==> !text_before(
                (#[trigger] list[l]).message_id@,
                (#[trigger] list[k]).message_id@,
            ),
{
    let plain = |row: FeedbackRow| row.session_id@ == session_id;
    let rows = kept(engine.feedback@, is_feedback_in(session_id));
    kept_is_filtered(engine.feedback@, is_feedback_in(session_id), plain);
    filtered_rows(engine.feedback@, plain);
    assert forall|k: int| 0 <= k < list.len() implies exists|i: int|
        0 <= i < engine.feedback@.len() && is_thought_of(
            #[trigger] engine.feedback@[i],
            session_id,
            (#[trigger] list[k]).message_id@,
        ) && list[k].feedback == engine.feedback@[i].feedback by {
        let row = rows[order[k] as int];
        assert(rows.contains(row));
        let i = engine.feedback@.index_of(row);
        assert(engine.feedback@[i] == row);
        assert(plain(row));
        assert(is_thought_of(engine.feedback@[i], session_id, list[k].message_id@));
    }
    assert forall|k: int, l: int| 0 <= k < l < list.len() implies !text_before(
        (#[trigger] list[l]).message_id@,
        (#[trigger] list[k]).message_id@,
    ) by {
        let keys = feedback_keys(rows);
        assert(!key_before(keys[order[l] as int], keys[order[k] as int]));
    }
}

/// What a user thinks is written as one of two words.
pub proof fn feedback_is_one_of_two_words(feedback: MessageFeedback)
    ensures
        feedback is Positive <==> feedback_text(feedback) == "positive"@,
        feedback is Negative <==> feedback_text(feedback) == "negative"@,
{
    reveal_strlit("positive");
    reveal_strlit("negative");
    assert("positive"@[0] != "negative"@[0]);
}

} // verus!
