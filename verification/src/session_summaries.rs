//! Sessions in lists, and session rows from their columns.

use vstd::prelude::*;

use crate::engine::StorageEngine;
use crate::error::{corrupt, invalid_data, list_outcome, Refusal, StorageResult};
use crate::numbers::{non_negative, positive};
use crate::order::{is_order, key_before, ordered, SortKey};
use crate::rows::{
    AgentVariant, ApprovalMode, Device, InputKind, InputOrigin, InputState, SessionLifecycle,
    SessionProxy, SessionResources, SessionRole, SessionRow, SessionTitleOrigin, SkillCatalog,
    StoredInput,
};
use crate::session_resources::is_resources_of;
use crate::table::{any, count, first, kept, position, some_row};
use crate::text::{characters, same_text, text_before};

verus! {

/// Which sessions are asked for by their lifecycle.
#[derive(Clone, Copy, Debug, PartialEq, Eq, Structural)]
pub enum SessionListFilter {
    All,
    Active,
    Archived,
}

/// A question for sessions.
#[derive(Debug)]
pub struct SessionSummaryQuery {
    pub filter: SessionListFilter,
    pub session_id: Option<String>,
    pub role: Option<SessionRole>,
    pub query: Option<String>,
    pub offset: u64,
    pub limit: u64,
}

/// The device that a session sends its output to.
#[derive(Debug, PartialEq, Eq)]
pub struct PcOutputHosting {
    pub device_id: String,
    pub device_name: String,
}

/// A session in a list.
#[derive(Debug, PartialEq, Eq)]
pub struct SessionSummary {
    pub session_id: String,
    pub title: String,
    pub model_key: String,
    pub reasoning_effort: Option<String>,
    pub lifecycle: SessionLifecycle,
    pub role: SessionRole,
    pub proxy: Option<SessionProxy>,
    pub pc_output_hosting: Option<PcOutputHosting>,
    pub current_variant: AgentVariant,
    pub approval_mode: ApprovalMode,
    pub workspace_id: Option<String>,
    pub message_count: u64,
    pub queued_input_count: u64,
    pub resume_required: bool,
    pub created_at_ms: i64,
    pub updated_at_ms: i64,
    pub archived_at_ms: Option<i64>,
    pub is_pinned: bool,
    pub title_origin: SessionTitleOrigin,
}

/// The most sessions that a list holds.
pub const SUMMARY_LIMIT: u64 = 201;

/// A character as it counts in a search: letters of the Latin alphabet without regard to case.
pub open spec fn folded(c: char) -> int {
    if 65 <= c as int <= 90 {
        c as int + 32
    } else {
        c as int
    }
}

/// A text occurs in another at a place, without regard to case.
pub open spec fn occurs_at(text: Seq<char>, part: Seq<char>, place: int) -> bool {
    &&& place + part.len() <= text.len()
    &&& forall|k: int| 0 <= k < part.len() ==> folded(#[trigger] part[k]) == folded(text[place + k])
}

/// A text occurs in another, without regard to case.
pub open spec fn occurs(text: Seq<char>, part: Seq<char>) -> bool {
    exists|place: int| 0 <= place <= text.len() && #[trigger] occurs_at(text, part, place)
}

fn fold(c: char) -> (n: u32)
    ensures
        n as int == folded(c),
{
    let n: u32 = c as u32;
    if 65 <= n && n <= 90 {
        n + 32
    } else {
        n
    }
}

/// Whether a text occurs in another, without regard to case.
pub fn contains_text(text: &str, part: &str) -> (result: bool)
    ensures
        result == occurs(text@, part@),
{
    let whole = characters(text);
    let sought = characters(part);
    if sought.len() > whole.len() {
        return false;
    }
    let mut place: usize = 0;
    while place <= whole.len() - sought.len()
        invariant
            whole@ == text@,
            sought@ == part@,
            sought@.len() <= whole@.len() <= usize::MAX,
            place <= whole@.len() - sought@.len() + 1,
            forall|p: int| 0 <= p < place ==> !#[trigger] occurs_at(text@, part@, p),
        decreases whole@.len() - sought@.len() + 1 - place,
    {
        let mut k: usize = 0;
        let mut same = true;
        while k < sought.len()
            invariant
                whole@ == text@,
                sought@ == part@,
                place + sought@.len() <= whole@.len() <= usize::MAX,
                k <= sought@.len(),
                same ==> forall|j: int|
                    0 <= j < k ==> folded(#[trigger] part@[j]) == folded(text@[place + j]),
                !same ==> !occurs_at(text@, part@, place as int),
            decreases sought@.len() - k,
        {
            if fold(sought[k]) != fold(whole[place + k]) {
                same = false;
                assert(folded(part@[k as int]) != folded(text@[place + k]));
            }
            k += 1;
        }
        if same {
            assert(occurs_at(text@, part@, place as int));
            return true;
        }
        place += 1;
    }
    proof {
        assert forall|p: int| 0 <= p <= text@.len() implies !#[trigger] occurs_at(
            text@,
            part@,
            p,
        ) by {}
    }
    false
}

/// A session that is asked for.
pub open spec fn is_asked_for(query: SessionSummaryQuery, row: SessionRow) -> bool {
    &&& match query.filter {
        SessionListFilter::All => true,
        SessionListFilter::Active => row.lifecycle is Active,
        SessionListFilter::Archived => row.lifecycle is Archived,
    }
    &&& query.session_id is Some ==> row.session_id@ == query.session_id->0@
    &&& query.role is Some ==> row.role == query.role->0
    &&& query.query is Some ==> occurs(row.title@, query.query->0@)
}

/// The condition of being asked for.
pub open spec fn asked_for(query: SessionSummaryQuery) -> spec_fn(SessionRow) -> bool {
    |row: SessionRow| is_asked_for(query, row)
}

/// What sessions are ordered by in lists: pinned ones first, then by when they were last active.
pub open spec fn summary_key(row: SessionRow) -> SortKey {
    SortKey {
        rank: if row.is_pinned {
            0
        } else {
            1
        },
        time: (-1 - row.updated_at_ms) as i64,
        id: row.session_id,
    }
}

pub open spec fn summary_keys(rows: Seq<SessionRow>) -> Seq<SortKey> {
    rows.map_values(|row: SessionRow| summary_key(row))
}

/// A session stands before another in lists.
pub open spec fn listed_before(left: SessionRow, right: SessionRow) -> bool {
    if left.is_pinned != right.is_pinned {
        left.is_pinned
    } else if left.updated_at_ms != right.updated_at_ms {
        left.updated_at_ms > right.updated_at_ms
    } else {
        text_before(left.session_id@, right.session_id@)
    }
}

/// The keys of sessions order them as lists do.
pub proof fn keys_order_sessions(left: SessionRow, right: SessionRow)
    ensures
        key_before(summary_key(left), summary_key(right)) == listed_before(left, right),
{
}

/// How many sessions a list holds.
pub open spec fn list_size(limit: u64) -> u64 {
    if limit < 1 {
        1
    } else if limit > SUMMARY_LIMIT {
        SUMMARY_LIMIT
    } else {
        limit
    }
}

/// The condition of being an input that a user waits for.
pub open spec fn is_awaited(session_id: Seq<char>) -> spec_fn(StoredInput) -> bool {
    |row: StoredInput|
        row.session_id@ == session_id && row.state is Queued && row.kind is Message
            && row.origin is User && row.goal_binding is None
}

/// The condition of being a queued input that belongs to no goal.
pub open spec fn is_waiting(session_id: Seq<char>) -> spec_fn(StoredInput) -> bool {
    |row: StoredInput|
        row.session_id@ == session_id && row.state is Queued && row.goal_binding is None
}

/// The condition of being a device.
pub open spec fn is_device(device_id: Seq<char>) -> spec_fn(Device) -> bool {
    |row: Device| row.device_id@ == device_id
}

/// Why a session cannot be listed: it sends its output to a device that is not known.
pub open spec fn summary_refusal(engine: StorageEngine, row: SessionRow) -> Option<Refusal> {
    match row.pc_output_device_id {
        Some(device_id) => if first(engine.devices@, is_device(device_id@)) is None {
            Some(corrupt("incomplete hosting"@))
        } else {
            None
        },
        None => None,
    }
}

/// A session as it is listed.
pub open spec fn summary_of(engine: StorageEngine, row: SessionRow) -> SessionSummary {
    let resources = first(engine.session_resources@, is_resources_of(row.session_id@));
    SessionSummary {
        session_id: row.session_id,
        title: row.title,
        model_key: row.model_key,
        reasoning_effort: row.reasoning_effort,
        lifecycle: row.lifecycle,
        role: row.role,
        proxy: row.proxy,
        pc_output_hosting: match row.pc_output_device_id {
            Some(device_id) => Some(
                PcOutputHosting {
                    device_id,
                    device_name: engine.devices@[first(
                        engine.devices@,
                        is_device(device_id@),
                    )->0].display_name,
                },
            ),
            None => None,
        },
        current_variant: row.current_variant,
        approval_mode: row.approval_mode,
        workspace_id: match resources {
            Some(i) => engine.session_resources@[i].workspace_id,
            None => None,
        },
        message_count: row.message_count,
        queued_input_count: kept(engine.inputs@, is_awaited(row.session_id@)).len() as u64,
        resume_required: some_row(engine.inputs@, is_waiting(row.session_id@)),
        created_at_ms: row.created_at_ms,
        updated_at_ms: row.updated_at_ms,
        archived_at_ms: row.archived_at_ms,
        is_pinned: row.is_pinned,
        title_origin: row.title_origin,
    }
}

/// The part of a list that is asked for.
pub open spec fn window(order: Seq<usize>, offset: u64, limit: u64) -> Seq<usize> {
    if offset >= order.len() {
        Seq::empty()
    } else if offset + list_size(limit) >= order.len() {
        order.skip(offset as int)
    } else {
        order.subrange(offset as int, offset + list_size(limit))
    }
}

/// The sessions that are asked for, as they are listed: or why the first that cannot be listed
/// cannot.
pub open spec fn sessions_listed(
    engine: StorageEngine,
    query: SessionSummaryQuery,
    order: Seq<usize>,
    outcome: Result<Seq<SessionSummary>, Refusal>,
) -> bool {
    let rows = kept(engine.sessions@, asked_for(query));
    let places = window(order, query.offset, query.limit);
    &&& is_order(summary_keys(rows), order)
    &&& match outcome {
        Ok(list) => {
            &&& list.len() == places.len()
            &&& forall|k: int|
                0 <= k < list.len() ==> #[trigger] list[k] == summary_of(
                    engine,
                    rows[places[k] as int],
                ) && summary_refusal(engine, rows[places[k] as int]) is None
        },
        Err(error) => exists|k: int|
            0 <= k < places.len() && summary_refusal(engine, rows[#[trigger] places[k] as int])
                == Some(error) && forall|j: int|
                0 <= j < k ==> summary_refusal(engine, rows[#[trigger] places[j] as int]) is None,
    }
}

impl StorageEngine {
    fn is_wanted(&self, query: &SessionSummaryQuery, row: &SessionRow) -> (result: bool)
        ensures
            result == is_asked_for(*query, *row),
    {
        let by_lifecycle = match query.filter {
            SessionListFilter::All => true,
            SessionListFilter::Active => matches!(row.lifecycle, SessionLifecycle::Active),
            SessionListFilter::Archived => matches!(row.lifecycle, SessionLifecycle::Archived),
        };
        let by_id = match &query.session_id {
            Some(session_id) => row.session_id == *session_id,
            None => true,
        };
        let by_role = match query.role {
            Some(role) => row.role == role,
            None => true,
        };
        let by_title = match &query.query {
            Some(part) => contains_text(row.title.as_str(), part.as_str()),
            None => true,
        };
        by_lifecycle && by_id && by_role && by_title
    }

    /// A session as it is listed.
    pub fn summarise(&self, row: &SessionRow) -> (result: StorageResult<SessionSummary>)
        ensures
            match summary_refusal(*self, *row) {
                Some(error) => result is Err && result->Err_0@ == error,
                None => result is Ok && result->Ok_0 == summary_of(*self, *row),
            },
    {
        let pc_output_hosting = match &row.pc_output_device_id {
            None => None,
            Some(device_id) => match position(
                &self.devices,
                Ghost(is_device(device_id@)),
                |device: &Device| -> (found: bool)
                    ensures
                        found == (device.device_id@ == device_id@)
                    { device.device_id == *device_id },
            ) {
                Some(place) => Some(
                    PcOutputHosting {
                        device_id: device_id.clone(),
                        device_name: self.devices[place].display_name.clone(),
                    },
                ),
                None => {
                    return Err(invalid_data("incomplete hosting"));
                },
            },
        };
        let session_id = &row.session_id;
        let workspace_id = match position(
            &self.session_resources,
            Ghost(is_resources_of(session_id@)),
            |resources: &SessionResources| -> (found: bool)
                ensures
                    found == (resources.session_id@ == session_id@)
                { resources.session_id == *session_id },
        ) {
            Some(place) => self.session_resources[place].workspace_id.clone(),
            None => None,
        };
        let queued: usize = count(
            &self.inputs,
            Ghost(is_awaited(session_id@)),
            |input: &StoredInput| -> (found: bool)
                ensures
                    found == is_awaited(session_id@)(*input)
                {
                    input.session_id == *session_id && matches!(input.state, InputState::Queued)
                        && matches!(input.kind, InputKind::Message) && matches!(
                        input.origin,
                        InputOrigin::User
                    ) && input.goal_binding.is_none()
                },
        );
        let resume_required = any(
            &self.inputs,
            Ghost(is_waiting(session_id@)),
            |input: &StoredInput| -> (found: bool)
                ensures
                    found == is_waiting(session_id@)(*input)
                {
                    input.session_id == *session_id && matches!(input.state, InputState::Queued)
                        && input.goal_binding.is_none()
                },
        );
        Ok(
            SessionSummary {
                session_id: row.session_id.clone(),
                title: row.title.clone(),
                model_key: row.model_key.clone(),
                reasoning_effort: row.reasoning_effort.clone(),
                lifecycle: row.lifecycle,
                role: row.role,
                proxy: match &row.proxy {
                    Some(proxy) => Some(proxy.copy()),
                    None => None,
                },
                pc_output_hosting,
                current_variant: row.current_variant,
                approval_mode: row.approval_mode,
                workspace_id,
                message_count: row.message_count,
                queued_input_count: queued as u64,
                resume_required,
                created_at_ms: row.created_at_ms,
                updated_at_ms: row.updated_at_ms,
                archived_at_ms: row.archived_at_ms,
                is_pinned: row.is_pinned,
                title_origin: row.title_origin,
            },
        )
    }

    /// The sessions that are asked for: pinned ones first, then by when they were last active.
    pub fn query_session_summaries(&self, query: &SessionSummaryQuery) -> (result: StorageResult<
        Vec<SessionSummary>,
    >)
        ensures
            exists|order: Seq<usize>| #[trigger]
                sessions_listed(*self, *query, order, list_outcome(result)),
    {
        let ghost condition = asked_for(*query);
        let mut rows: Vec<SessionRow> = Vec::new();
        let mut keys: Vec<SortKey> = Vec::new();
        let mut i: usize = 0;
        proof {
            assert(self.sessions@.take(0) =~= Seq::empty());
        }
        while i < self.sessions.len()
            invariant
                i <= self.sessions@.len(),
                condition == asked_for(*query),
                rows@ == kept(self.sessions@.take(i as int), condition),
                keys@ =~= summary_keys(rows@),
            decreases self.sessions@.len() - i,
        {
            let row = &self.sessions[i];
            proof {
                let longer = self.sessions@.take(i + 1);
                assert(longer.drop_last() =~= self.sessions@.take(i as int));
                assert(longer.last() == *row);
            }
            if self.is_wanted(query, row) {
                rows.push(row.copy());
                keys.push(
                    SortKey {
                        rank: if row.is_pinned {
                            0
                        } else {
                            1
                        },
                        time: -1 - row.updated_at_ms,
                        id: row.session_id.clone(),
                    },
                );
            }
            i += 1;
        }
        proof {
            assert(self.sessions@.take(self.sessions@.len() as int) =~= self.sessions@);
        }
        let order = ordered(&keys);
        let ghost places = window(order@, query.offset, query.limit);
        let size: u64 = if query.limit < 1 {
            1
        } else if query.limit > SUMMARY_LIMIT {
            SUMMARY_LIMIT
        } else {
            query.limit
        };
        let length: u64 = order.len() as u64;
        let start: u64 = if query.offset >= length {
            length
        } else {
            query.offset
        };
        let end: u64 = if size >= length - start {
            length
        } else {
            start + size
        };
        proof {
            assert(places =~= order@.subrange(start as int, end as int));
        }
        let mut list: Vec<SessionSummary> = Vec::new();
        let mut k: u64 = start;
        while k < end
            invariant
                start <= k <= end <= order@.len(),
                order@.len() <= usize::MAX,
                list@.len() == k - start,
                rows@ == kept(self.sessions@, asked_for(*query)),
                is_order(summary_keys(rows@), order@),
                places == window(order@, query.offset, query.limit),
                places == order@.subrange(start as int, end as int),
                forall|j: int|
                    0 <= j < list@.len() ==> #[trigger] list@[j] == summary_of(
                        *self,
                        rows@[places[j] as int],
                    ) && summary_refusal(*self, rows@[places[j] as int]) is None,
            decreases end - k,
        {
            let place: usize = order[k as usize];
            assert(places[k - start] == place);
            match self.summarise(&rows[place]) {
                Ok(summary) => list.push(summary),
                Err(error) => {
                    proof {
                        let outcome = Err::<Seq<SessionSummary>, Refusal>(error@);
                        let at = k - start;
                        assert(summary_refusal(*self, rows@[places[at] as int]) == Some(error@));
                        assert forall|j: int| 0 <= j < at implies summary_refusal(
                            *self,
                            rows@[#[trigger] places[j] as int],
                        ) is None by {
                            assert(list@[j] == summary_of(*self, rows@[places[j] as int]));
                        }
                        assert(sessions_listed(*self, *query, order@, outcome));
                    }
                    return Err(error);
                },
            }
            k += 1;
        }
        proof {
            let outcome = Ok::<Seq<SessionSummary>, Refusal>(list@);
            assert(sessions_listed(*self, *query, order@, outcome));
        }
        Ok(list)
    }
}

/// The columns of a session as they are stored.
#[derive(Debug)]
pub struct SessionColumns {
    pub session_id: String,
    pub title: String,
    pub title_origin: String,
    pub automatic_title_pending: bool,
    pub model_key: String,
    pub reasoning_effort: Option<String>,
    pub system_prompt: String,
    pub skill_catalog: SkillCatalog,
    pub current_variant: AgentVariant,
    pub approval_mode: ApprovalMode,
    pub role: String,
    pub lifecycle: String,
    pub body_generation: i64,
    pub message_count: i64,
    pub created_at_ms: i64,
    pub updated_at_ms: i64,
    pub archived_at_ms: Option<i64>,
    pub is_pinned: bool,
    pub materialization_key: Option<String>,
    pub proxy_controller_session_id: Option<String>,
    pub proxy_changed_at_ms: Option<i64>,
    pub pc_output_device_id: Option<String>,
}

/// What the text of a lifecycle stands for.
pub open spec fn lifecycle_in(text: Seq<char>) -> Option<SessionLifecycle> {
    if text == "active"@ {
        Some(SessionLifecycle::Active)
    } else if text == "archived"@ {
        Some(SessionLifecycle::Archived)
    } else {
        None
    }
}

/// What the text of a role stands for.
pub open spec fn role_in(text: Seq<char>) -> Option<SessionRole> {
    if text == "standard"@ {
        Some(SessionRole::Standard)
    } else if text == "controller"@ {
        Some(SessionRole::Controller)
    } else {
        None
    }
}

/// What the text of a title's origin stands for.
pub open spec fn title_origin_in(text: Seq<char>) -> Option<SessionTitleOrigin> {
    if text == "user"@ {
        Some(SessionTitleOrigin::User)
    } else if text == "generated"@ {
        Some(SessionTitleOrigin::Generated)
    } else {
        None
    }
}

/// Why columns make no session. A controller acts for itself.
pub open spec fn session_columns_refusal(columns: SessionColumns) -> Option<Refusal> {
    if lifecycle_in(columns.lifecycle@) is None {
        Some(corrupt("invalid session lifecycle"@))
    } else if role_in(columns.role@) is None {
        Some(corrupt("invalid session role"@))
    } else if (columns.proxy_controller_session_id is Some) != (
    columns.proxy_changed_at_ms is Some) {
        Some(corrupt("incomplete proxy"@))
    } else if columns.proxy_controller_session_id is Some && role_in(columns.role@) == Some(
        SessionRole::Controller,
    ) {
        Some(corrupt("controller session has a proxy"@))
    } else if columns.body_generation <= 0 {
        Some(corrupt("stored body generation is invalid"@))
    } else if columns.message_count < 0 {
        Some(corrupt("invalid message count"@))
    } else if title_origin_in(columns.title_origin@) is None {
        Some(corrupt("invalid title origin"@))
    } else {
        None
    }
}

/// The session that columns make.
pub open spec fn session_in(columns: SessionColumns) -> SessionRow {
    SessionRow {
        session_id: columns.session_id,
        title: columns.title,
        title_origin: title_origin_in(columns.title_origin@)->0,
        automatic_title_pending: columns.automatic_title_pending,
        model_key: columns.model_key,
        reasoning_effort: columns.reasoning_effort,
        system_prompt: columns.system_prompt,
        skill_catalog: columns.skill_catalog,
        current_variant: columns.current_variant,
        approval_mode: columns.approval_mode,
        role: role_in(columns.role@)->0,
        lifecycle: lifecycle_in(columns.lifecycle@)->0,
        body_generation: columns.body_generation as u64,
        message_count: columns.message_count as u64,
        created_at_ms: columns.created_at_ms,
        updated_at_ms: columns.updated_at_ms,
        archived_at_ms: columns.archived_at_ms,
        is_pinned: columns.is_pinned,
        materialization_key: columns.materialization_key,
        proxy: match columns.proxy_controller_session_id {
            Some(controller_session_id) => Some(
                SessionProxy {
                    controller_session_id,
                    changed_at_ms: columns.proxy_changed_at_ms->0,
                },
            ),
            None => None,
        },
        pc_output_device_id: columns.pc_output_device_id,
    }
}

/// Reads a session from its columns.
pub fn decode_session(columns: SessionColumns) -> (result: StorageResult<SessionRow>)
    ensures
        match session_columns_refusal(columns) {
            Some(error) => result is Err && result->Err_0@ == error,
            None => result is Ok && result->Ok_0 == session_in(columns),
        },
{
    let lifecycle = if same_text(columns.lifecycle.as_str(), "active") {
        SessionLifecycle::Active
    } else if same_text(columns.lifecycle.as_str(), "archived") {
        SessionLifecycle::Archived
    } else {
        return Err(invalid_data("invalid session lifecycle"));
    };
    let role = if same_text(columns.role.as_str(), "standard") {
        SessionRole::Standard
    } else if same_text(columns.role.as_str(), "controller") {
        SessionRole::Controller
    } else {
        return Err(invalid_data("invalid session role"));
    };
    let proxy = match (columns.proxy_controller_session_id, columns.proxy_changed_at_ms) {
        (Some(controller_session_id), Some(changed_at_ms)) => {
            if matches!(role, SessionRole::Controller) {
                return Err(invalid_data("controller session has a proxy"));
            }
            Some(SessionProxy { controller_session_id, changed_at_ms })
        },
        (None, None) => None,
        _ => {
            return Err(invalid_data("incomplete proxy"));
        },
    };
    let body_generation: u64 = match positive(
        columns.body_generation,
        "stored body generation is invalid",
    ) {
        Ok(value) => value,
        Err(error) => {
            return Err(error);
        },
    };
    let message_count: u64 = match non_negative(columns.message_count, "invalid message count") {
        Ok(value) => value,
        Err(error) => {
            return Err(error);
        },
    };
    let title_origin = if same_text(columns.title_origin.as_str(), "user") {
        SessionTitleOrigin::User
    } else if same_text(columns.title_origin.as_str(), "generated") {
        SessionTitleOrigin::Generated
    } else {
        return Err(invalid_data("invalid title origin"));
    };
    Ok(
        SessionRow {
            session_id: columns.session_id,
            title: columns.title,
            title_origin,
            automatic_title_pending: columns.automatic_title_pending,
            model_key: columns.model_key,
            reasoning_effort: columns.reasoning_effort,
            system_prompt: columns.system_prompt,
            skill_catalog: columns.skill_catalog,
            current_variant: columns.current_variant,
            approval_mode: columns.approval_mode,
            role,
            lifecycle,
            body_generation,
            message_count,
            created_at_ms: columns.created_at_ms,
            updated_at_ms: columns.updated_at_ms,
            archived_at_ms: columns.archived_at_ms,
            is_pinned: columns.is_pinned,
            materialization_key: columns.materialization_key,
            proxy,
            pc_output_device_id: columns.pc_output_device_id,
        },
    )
}

} // verus!
