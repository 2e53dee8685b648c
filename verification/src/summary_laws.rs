//! What the list of sessions says of each session.

use vstd::prelude::*;

use crate::append_effect::ConversationStorageTarget;
use crate::count_laws::is_counted;
use crate::engine::{current_conversation, is_session, StorageEngine};
use crate::keys::{session_name, unique};
use crate::order::key_before;
use crate::relations::{
    filtered_rows, found_leads, kept_is_filtered, leads, none_of, session_stands_where_found,
    stands_at,
};
use crate::rows::{Device, SessionResources, SessionRow, StoredInput};
use crate::session_resources::is_resources_of;
use crate::session_summaries::{
    asked_for, is_awaited, is_device, is_waiting, list_size, occurs, occurs_at,
    session_columns_refusal, session_in, sessions_listed, summary_key, summary_keys, summary_of,
    summary_refusal, window, SessionColumns, SessionSummary, SessionSummaryQuery,
};
use crate::table::{first, kept, some_row};
use crate::text::text_before;

verus! {

/// Two characters that a search does not tell apart: it ignores the case of the letters A to Z.
pub open spec fn same_letter(left: char, right: char) -> bool {
    ||| left == right
    ||| ('A' <= left <= 'Z' && right as int == left as int + 32)
    ||| ('A' <= right <= 'Z' && left as int == right as int + 32)
}

/// A part of a text that starts at a place.
pub open spec fn starts_at(text: Seq<char>, part: Seq<char>, place: int) -> bool {
    &&& 0 <= place
    &&& place + part.len() <= text.len()
    &&& forall|k: int|
        #![trigger part[k]]
        0 <= k < part.len() ==> same_letter(part[k], text[place + k])
}

/// A session that a query asks for.
pub open spec fn answers_query(query: SessionSummaryQuery, row: SessionRow) -> bool {
    &&& query.filter is Active ==> row.lifecycle is Active
    &&& query.filter is Archived ==> row.lifecycle is Archived
    &&& match query.session_id {
        Some(session_id) => row.session_id@ == session_id@,
        None => true,
    }
    &&& match query.role {
        Some(role) => row.role == role,
        None => true,
    }
    &&& match query.query {
        Some(part) => exists|place: int| #[trigger] starts_at(row.title@, part@, place),
        None => true,
    }
}

/// What a search finds is a part of the title, upper and lower case being the same.
pub proof fn search_ignores_case(text: Seq<char>, part: Seq<char>)
    ensures
        occurs(text, part) == (exists|place: int| #[trigger] starts_at(text, part, place)),
{
    if occurs(text, part) {
        let place = choose|place: int|
            0 <= place <= text.len() && #[trigger] occurs_at(text, part, place);
        assert(starts_at(text, part, place));
    }
    if exists|place: int| #[trigger] starts_at(text, part, place) {
        let place = choose|place: int| #[trigger] starts_at(text, part, place);
        assert(occurs_at(text, part, place));
    }
}

/// The first device that has an identifier.
pub open spec fn is_device_at(devices: Seq<Device>, d: int, device_id: Seq<char>) -> bool {
    leads(devices, d, |device: Device| device.device_id@ == device_id)
}

/// The first resources that are a session's.
pub open spec fn are_resources_at(
    rows: Seq<SessionResources>,
    r: int,
    session_id: Seq<char>,
) -> bool {
    leads(rows, r, |resources: SessionResources| resources.session_id@ == session_id)
}

/// What a summary says of a session is what the tables hold of it.
pub open spec fn is_shown(engine: StorageEngine, row: SessionRow, summary: SessionSummary) -> bool {
    &&& summary.session_id == row.session_id
    &&& summary.title == row.title
    &&& summary.title_origin == row.title_origin
    &&& summary.model_key == row.model_key
    &&& summary.reasoning_effort == row.reasoning_effort
    &&& summary.lifecycle == row.lifecycle
    &&& summary.role == row.role
    &&& summary.proxy == row.proxy
    &&& summary.current_variant == row.current_variant
    &&& summary.approval_mode == row.approval_mode
    &&& summary.message_count == row.message_count
    &&& summary.created_at_ms == row.created_at_ms
    &&& summary.updated_at_ms == row.updated_at_ms
    &&& summary.archived_at_ms == row.archived_at_ms
    &&& summary.is_pinned == row.is_pinned
    &&& match row.pc_output_device_id {
        Some(device_id) => {
            &&& summary.pc_output_hosting is Some
            &&& summary.pc_output_hosting->0.device_id == device_id
            &&& exists|d: int| #[trigger]
                is_device_at(engine.devices@, d, device_id@)
                    && summary.pc_output_hosting->0.device_name == engine.devices@[d].display_name
        },
        None => summary.pc_output_hosting is None,
    }
    &&& match summary.workspace_id {
        Some(workspace_id) => exists|r: int| #[trigger]
            are_resources_at(engine.session_resources@, r, row.session_id@) && engine.session_resources@[r].workspace_id == Some(workspace_id),
        None => none_of(
            engine.session_resources@,
            |resources: SessionResources| resources.session_id@ == row.session_id@,
        ) || exists|r: int| #[trigger]
            are_resources_at(engine.session_resources@, r, row.session_id@) && engine.session_resources@[r].workspace_id is None,
    }
    &&& summary.resume_required == (exists|k: int|
        0 <= k < engine.inputs@.len() && waits_for_a_run(
            #[trigger] engine.inputs@[k],
            row.session_id@,
        ))
    &&& engine.inputs@.len() <= u64::MAX ==> summary.queued_input_count == engine.inputs@.filter(
        |input: StoredInput|
            waits_for_a_run(input, row.session_id@) && input.kind is Message && input.origin is User,
    ).len()
}

/// An input that waits for a run, and not for a goal.
pub open spec fn waits_for_a_run(input: StoredInput, session_id: Seq<char>) -> bool {
    input.session_id@ == session_id && input.state is Queued && input.goal_binding is None
}

/// The summary of a session says what the tables hold of it: the count of its messages, of the
/// messages that wait, its title and the rest.
pub proof fn summary_shows_the_session(engine: StorageEngine, row: SessionRow)
    ensures
        summary_refusal(engine, row) is None <==> match row.pc_output_device_id {
            Some(device_id) => exists|d: int|
                0 <= d < engine.devices@.len() && (#[trigger] engine.devices@[d]).device_id@
                    == device_id@,
            None => true,
        },
        summary_refusal(engine, row) is None ==> is_shown(engine, row, summary_of(engine, row)),
{
    let s = row.session_id@;
    match row.pc_output_device_id {
        Some(device_id) => {
            let named = |device: Device| device.device_id@ == device_id@;
            found_leads(engine.devices@, is_device(device_id@), named);
            if exists|d: int|
                0 <= d < engine.devices@.len() && (#[trigger] engine.devices@[d]).device_id@
                    == device_id@ {
                let d = choose|d: int|
                    0 <= d < engine.devices@.len() && (#[trigger] engine.devices@[d]).device_id@
                        == device_id@;
                assert(named(engine.devices@[d]));
            }
            if first(engine.devices@, is_device(device_id@)) is Some {
                let d = first(engine.devices@, is_device(device_id@))->0;
                assert(named(engine.devices@[d]));
                assert(engine.devices@[d].device_id@ == device_id@);
                assert(is_device_at(engine.devices@, d, device_id@));
            }
        },
        None => {},
    }
    let theirs = |resources: SessionResources| resources.session_id@ == row.session_id@;
    found_leads(engine.session_resources@, is_resources_of(s), theirs);
    if first(engine.session_resources@, is_resources_of(s)) is Some {
        let r = first(engine.session_resources@, is_resources_of(s))->0;
        assert(are_resources_at(engine.session_resources@, r, s));
    }
    let waiting = |input: StoredInput| waits_for_a_run(input, s);
    found_leads(engine.inputs@, is_waiting(s), waiting);
    if some_row(engine.inputs@, is_waiting(s)) {
        let k = choose|k: int|
            0 <= k < engine.inputs@.len() && is_waiting(s)(#[trigger] engine.inputs@[k]);
        assert(waits_for_a_run(engine.inputs@[k], s));
    }
    if exists|k: int|
        0 <= k < engine.inputs@.len() && waits_for_a_run(#[trigger] engine.inputs@[k], s) {
        let k = choose|k: int|
            0 <= k < engine.inputs@.len() && waits_for_a_run(#[trigger] engine.inputs@[k], s);
        assert(waiting(engine.inputs@[k]));
    }
    let counted = |input: StoredInput|
        waits_for_a_run(input, row.session_id@) && input.kind is Message && input.origin is User;
    kept_is_filtered(engine.inputs@, is_awaited(s), counted);
    filtered_rows(engine.inputs@, counted);
}

/// The sessions that a query asks for.
pub open spec fn wanted_sessions(engine: StorageEngine, query: SessionSummaryQuery) -> Seq<
    SessionRow,
> {
    engine.sessions@.filter(|row: SessionRow| answers_query(query, row))
}

/// How many sessions a page has room for: what is asked for, but one at least and 201 at most.
pub open spec fn page_size(limit: u64) -> int {
    if limit == 0 {
        1
    } else if limit > 201 {
        201
    } else {
        limit as int
    }
}

/// A summary shows one of some sessions.
pub open spec fn shows_one_of(
    engine: StorageEngine,
    rows: Seq<SessionRow>,
    summary: SessionSummary,
) -> bool {
    exists|i: int| 0 <= i < rows.len() && is_shown(engine, #[trigger] rows[i], summary)
}

/// A list of sessions holds as many as its page has room for of those that the query asks for, each
/// shown as it is, pinned ones first, then those changed last, then by identifier.
pub proof fn list_shows_the_sessions_in_order(
    engine: StorageEngine,
    query: SessionSummaryQuery,
    order: Seq<usize>,
    list: Seq<SessionSummary>,
)
    requires
        sessions_listed(engine, query, order, Ok(list)),
    ensures
        query.offset >= wanted_sessions(engine, query).len() ==> list.len() == 0,
        query.offset < wanted_sessions(engine, query).len() ==> list.len() == if query.offset
            + page_size(query.limit) <= wanted_sessions(engine, query).len() {
            page_size(query.limit)
        } else {
            wanted_sessions(engine, query).len() - query.offset
        },
        forall|k: int|
            0 <= k < list.len() ==> shows_one_of(
                engine,
                wanted_sessions(engine, query),
                #[trigger] list[k],
            ),
        forall|k: int, l: int|
            0 <= k < l < list.len() ==> stands_before(#[trigger] list[k], #[trigger] list[l]),
        forall|k: int|
            0 <= k < list.len() ==> exists|i: int|
                0 <= i < engine.sessions@.len() && answers_query(
                    query,
                    #[trigger] engine.sessions@[i],
                ) && (#[trigger] list[k]).session_id == engine.sessions@[i].session_id
                    && list[k].message_count == engine.sessions@[i].message_count,
{
    let plain = |row: SessionRow| answers_query(query, row);
    let rows = kept(engine.sessions@, asked_for(query));
    let places = window(order, query.offset, query.limit);
    assert forall|i: int| 0 <= i < engine.sessions@.len() implies asked_for(query)(
        #[trigger] engine.sessions@[i],
    ) == plain(engine.sessions@[i]) by {
        if query.query is Some {
            search_ignores_case(engine.sessions@[i].title@, query.query->0@);
        }
    }
    kept_is_filtered(engine.sessions@, asked_for(query), plain);
    filtered_rows(engine.sessions@, plain);
    let wanted = wanted_sessions(engine, query);
    assert(rows == wanted);
    assert(query.offset >= wanted.len() ==> list.len() == 0);
    assert(query.offset < wanted.len() ==> list.len() == if query.offset + list_size(query.limit)
        <= wanted.len() {
        list_size(query.limit) as int
    } else {
        wanted.len() - query.offset
    });
    assert forall|k: int| 0 <= k < list.len() implies 0 <= (#[trigger] places[k]) as int
        && places[k] < rows.len() && places[k] == order[query.offset + k] by {}
    assert forall|k: int| 0 <= k < list.len() implies shows_one_of(
        engine,
        wanted,
        #[trigger] list[k],
    ) by {
        let i = places[k] as int;
        summary_shows_the_session(engine, rows[i]);
        assert(is_shown(engine, wanted[i], list[k]));
    }
    assert forall|k: int| 0 <= k < list.len() implies exists|i: int|
        0 <= i < engine.sessions@.len() && answers_query(query, #[trigger] engine.sessions@[i]) && (
        #[trigger] list[k]).session_id == engine.sessions@[i].session_id && list[k].message_count
            == engine.sessions@[i].message_count by {
        let row = rows[places[k] as int];
        assert(rows.contains(row));
        let i = engine.sessions@.index_of(row);
        assert(plain(engine.sessions@[i]));
        assert(answers_query(query, engine.sessions@[i]));
        assert(list[k] == summary_of(engine, row));
    }
    assert forall|k: int, l: int| 0 <= k < l < list.len() implies stands_before(
        #[trigger] list[k],
        #[trigger] list[l],
    ) by {
        let left = rows[places[k] as int];
        let right = rows[places[l] as int];
        let keys = summary_keys(rows);
        assert(keys[places[k] as int] == summary_key(left));
        assert(keys[places[l] as int] == summary_key(right));
        assert(!key_before(
            keys[order[query.offset + l] as int],
            keys[order[query.offset + k] as int],
        ));
        assert(list[k] == summary_of(engine, left));
        assert(list[l] == summary_of(engine, right));
    }
}

/// The order of the list.
pub open spec fn stands_before(left: SessionSummary, right: SessionSummary) -> bool {
    &&& right.is_pinned ==> left.is_pinned
    &&& left.is_pinned == right.is_pinned ==> {
        &&& left.updated_at_ms >= right.updated_at_ms
        &&& left.updated_at_ms == right.updated_at_ms ==> !text_before(
            right.session_id@,
            left.session_id@,
        )
    }
}

/// In a list, the count of a session's messages is how many its conversation holds, for every
/// session whose conversation is counted.
pub proof fn listed_counts_are_those_of_conversations(
    engine: StorageEngine,
    query: SessionSummaryQuery,
    order: Seq<usize>,
    list: Seq<SessionSummary>,
    session_id: String,
    run_id: String,
    k: int,
)
    requires
        sessions_listed(engine, query, order, Ok(list)),
        unique(engine.sessions@, session_name()),
        0 <= k < list.len(),
        list[k].session_id@ == session_id@,
        is_counted(engine, ConversationStorageTarget::Session { session_id, run_id }),
    ensures
        list[k].message_count == current_conversation(
            engine,
            ConversationStorageTarget::Session { session_id, run_id },
        )->Ok_0.len(),
{
    list_shows_the_sessions_in_order(engine, query, order, list);
    let i = choose|i: int|
        0 <= i < engine.sessions@.len() && answers_query(query, #[trigger] engine.sessions@[i])
            && list[k].session_id == engine.sessions@[i].session_id && list[k].message_count
            == engine.sessions@[i].message_count;
    session_stands_where_found(engine.sessions@, session_id@);
    let f = first(engine.sessions@, is_session(session_id@))->0;
    assert(engine.sessions@[i].session_id@ == session_id@);
    assert(stands_at(engine.sessions@, f, session_id@));
    if f < i {
        assert(session_name()(engine.sessions@[f]) != session_name()(engine.sessions@[i]));
    }
    if i < f {
        assert(session_name()(engine.sessions@[i]) != session_name()(engine.sessions@[f]));
    }
}

/// A session is read from its columns exactly where they are of the kinds that are written, and says
/// what they say.
pub proof fn columns_say_what_the_session_is(columns: SessionColumns)
    ensures
        session_columns_refusal(columns) is None <==> {
            &&& columns.lifecycle@ == "active"@ || columns.lifecycle@ == "archived"@
            &&& columns.role@ == "standard"@ || columns.role@ == "controller"@
            &&& columns.title_origin@ == "user"@ || columns.title_origin@ == "generated"@
            &&& columns.proxy_controller_session_id is Some <==> columns.proxy_changed_at_ms is Some
            &&& columns.proxy_controller_session_id is Some ==> columns.role@ == "standard"@
            &&& columns.body_generation >= 1
            &&& columns.message_count >= 0
        },
        session_columns_refusal(columns) is None ==> {
            let row = session_in(columns);
            &&& row.session_id == columns.session_id
            &&& row.title == columns.title
            &&& row.title_origin is User == (columns.title_origin@ == "user"@)
            &&& row.automatic_title_pending == columns.automatic_title_pending
            &&& row.model_key == columns.model_key
            &&& row.reasoning_effort == columns.reasoning_effort
            &&& row.system_prompt == columns.system_prompt
            &&& row.skill_catalog == columns.skill_catalog
            &&& row.current_variant == columns.current_variant
            &&& row.approval_mode == columns.approval_mode
            &&& row.role is Standard == (columns.role@ == "standard"@)
            &&& row.lifecycle is Active == (columns.lifecycle@ == "active"@)
            &&& row.body_generation == columns.body_generation
            &&& row.message_count == columns.message_count
            &&& row.created_at_ms == columns.created_at_ms
            &&& row.updated_at_ms == columns.updated_at_ms
            &&& row.archived_at_ms == columns.archived_at_ms
            &&& row.is_pinned == columns.is_pinned
            &&& row.materialization_key == columns.materialization_key
            &&& row.pc_output_device_id == columns.pc_output_device_id
            &&& match (columns.proxy_controller_session_id, row.proxy) {
                (Some(controller), Some(proxy)) => proxy.controller_session_id == controller
                    && Some(proxy.changed_at_ms) == columns.proxy_changed_at_ms,
                (None, None) => true,
                _ => false,
            }
        },
{
    reveal_strlit("active");
    reveal_strlit("archived");
    reveal_strlit("standard");
    reveal_strlit("controller");
    reveal_strlit("user");
    reveal_strlit("generated");
    assert("active"@.len() != "archived"@.len());
    assert("standard"@.len() != "controller"@.len());
    assert("user"@.len() != "generated"@.len());
}

} // verus!
