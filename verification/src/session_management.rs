//! Changes of a session's row: its title and place in lists, its model, its lifecycle and the
//! controller that acts for it.

use vstd::prelude::*;

use crate::engine::{is_session, StorageEngine};
use crate::error::{
    conflict, conflicting, corrupt, invalid_data, outcome_of, Refusal, StorageResult, StoreError,
};
use crate::idle::working;
use crate::order::{is_order, ordered, SortKey};
use crate::rows::{
    AgentVariant, ApprovalMode, FeedbackRow, MessageFeedback, SessionLifecycle, SessionProxy,
    SessionRole, SessionRow, SessionTitleOrigin,
};
use crate::table::{first, first_after_update, first_is_found, keep, kept, position, some_row};
use crate::text::same_text;

verus! {

/// A request to archive a session, or to bring it back.
#[derive(Debug)]
pub struct ArchiveChange {
    pub session_id: String,
    pub archived: bool,
    pub changed_at_ms: i64,
}

/// A request to bind a session to a controller, or to release it.
#[derive(Debug)]
pub struct SessionProxyChange {
    pub target_session_id: String,
    pub controller_session_id: String,
    pub enabled: bool,
    pub changed_at_ms: i64,
}

/// A request to name a session.
#[derive(Debug)]
pub struct SessionTitleChange {
    pub session_id: String,
    pub title: String,
    pub changed_at_ms: i64,
}

/// A request to pin a session, or to unpin it.
#[derive(Debug)]
pub struct SessionPinnedChange {
    pub session_id: String,
    pub is_pinned: bool,
    pub changed_at_ms: i64,
}

/// A judgement of a message, or its withdrawal.
#[derive(Debug)]
pub struct MessageFeedbackChange {
    pub session_id: String,
    pub message_id: String,
    pub feedback: Option<MessageFeedback>,
    pub changed_at_ms: i64,
}

/// The judgement of a message.
#[derive(Debug, PartialEq, Eq)]
pub struct StoredMessageFeedback {
    pub message_id: String,
    pub feedback: MessageFeedback,
}

/// A request to work with another model.
#[derive(Debug)]
pub struct ModelChange {
    pub session_id: String,
    pub model_key: String,
    pub reasoning_effort: Option<String>,
}

/// A request to think more or less.
#[derive(Debug)]
pub struct ReasoningEffortChange {
    pub session_id: String,
    pub reasoning_effort: Option<String>,
}

/// A request to work another way.
#[derive(Debug)]
pub struct VariantChange {
    pub session_id: String,
    pub variant: AgentVariant,
}

/// A request to ask more or less before acting.
#[derive(Debug)]
pub struct ApprovalModeChange {
    pub session_id: String,
    pub approval_mode: ApprovalMode,
}

/// The place of a session.
pub open spec fn place_of_session(engine: StorageEngine, session_id: Seq<char>) -> int {
    first(engine.sessions@, is_session(session_id))->0
}

/// There is a session, and it is active.
pub open spec fn active(engine: StorageEngine, session_id: Seq<char>) -> bool {
    let place = first(engine.sessions@, is_session(session_id));
    place is Some && engine.sessions@[place->0].lifecycle is Active
}

/// The engine with one session's row replaced.
pub open spec fn session_changed(
    before: StorageEngine,
    after: StorageEngine,
    session_id: Seq<char>,
    row: SessionRow,
) -> bool {
    &&& after == (StorageEngine { sessions: after.sessions, ..before })
    &&& after.sessions@ == before.sessions@.update(place_of_session(before, session_id), row)
}

/// Why a session cannot be archived, or brought back.
pub open spec fn archive_refusal(engine: StorageEngine, change: ArchiveChange) -> Option<Refusal> {
    let place = first(engine.sessions@, is_session(change.session_id@));
    if place is Some && {
        let row = engine.sessions@[place->0];
        &&& row.role is Standard
        &&& row.lifecycle == if change.archived {
            SessionLifecycle::Active
        } else {
            SessionLifecycle::Archived
        }
        &&& change.archived ==> !working(engine, change.session_id@)
    } {
        None
    } else {
        Some(conflicting("session lifecycle cannot be changed"@))
    }
}

/// A session that was archived, or brought back.
pub open spec fn archived_row(row: SessionRow, change: ArchiveChange) -> SessionRow {
    SessionRow {
        lifecycle: if change.archived {
            SessionLifecycle::Archived
        } else {
            SessionLifecycle::Active
        },
        archived_at_ms: if change.archived {
            Some(change.changed_at_ms)
        } else {
            None
        },
        ..row
    }
}

/// Why a session cannot be bound to a controller, or released.
pub open spec fn proxy_refusal(engine: StorageEngine, change: SessionProxyChange) -> Option<
    Refusal,
> {
    let controller = first(engine.sessions@, is_session(change.controller_session_id@));
    let target = first(engine.sessions@, is_session(change.target_session_id@));
    if !active(engine, change.controller_session_id@) || !(
    engine.sessions@[controller->0].role is Controller) || change.controller_session_id@
        == change.target_session_id@ {
        Some(conflicting("controller session is invalid"@))
    } else if !active(engine, change.target_session_id@) {
        Some(conflicting("proxy target session does not exist"@))
    } else if !(engine.sessions@[target->0].role is Standard) {
        Some(conflicting("proxy target session is invalid"@))
    } else if engine.sessions@[target->0].proxy is Some
        && engine.sessions@[target->0].proxy->0.controller_session_id@
        != change.controller_session_id@ {
        Some(conflicting("proxy target is bound to another controller"@))
    } else {
        None
    }
}

/// A session that was bound or released. One that is bound stays bound since when it was.
pub open spec fn proxied_row(row: SessionRow, change: SessionProxyChange) -> SessionRow {
    SessionRow {
        proxy: if change.enabled {
            match row.proxy {
                Some(proxy) => Some(proxy),
                None => Some(
                    SessionProxy {
                        controller_session_id: change.controller_session_id,
                        changed_at_ms: change.changed_at_ms,
                    },
                ),
            }
        } else {
            None
        },
        ..row
    }
}

/// The condition of being the judgement of a message.
pub open spec fn is_feedback_on(session_id: Seq<char>, message_id: Seq<char>) -> spec_fn(
    FeedbackRow,
) -> bool {
    |row: FeedbackRow| row.session_id@ == session_id && row.message_id@ == message_id
}

/// The condition of being the judgement of another message.
pub open spec fn is_feedback_elsewhere(session_id: Seq<char>, message_id: Seq<char>) -> spec_fn(
    FeedbackRow,
) -> bool {
    |row: FeedbackRow| !(row.session_id@ == session_id && row.message_id@ == message_id)
}

/// The condition of being a judgement in a session.
pub open spec fn is_feedback_in(session_id: Seq<char>) -> spec_fn(FeedbackRow) -> bool {
    |row: FeedbackRow| row.session_id@ == session_id
}

/// The judgements with one changed or withdrawn.
pub open spec fn judged(rows: Seq<FeedbackRow>, change: MessageFeedbackChange) -> Seq<FeedbackRow> {
    match change.feedback {
        Some(feedback) => {
            let row = FeedbackRow {
                session_id: change.session_id,
                message_id: change.message_id,
                feedback,
                changed_at_ms: change.changed_at_ms,
            };
            match first(rows, is_feedback_on(change.session_id@, change.message_id@)) {
                Some(i) => rows.update(
                    i,
                    FeedbackRow { feedback, changed_at_ms: change.changed_at_ms, ..rows[i] },
                ),
                None => rows.push(row),
            }
        },
        None => kept(rows, is_feedback_elsewhere(change.session_id@, change.message_id@)),
    }
}

/// What judgements are ordered by.
pub open spec fn feedback_keys(rows: Seq<FeedbackRow>) -> Seq<SortKey> {
    rows.map_values(|row: FeedbackRow| SortKey { rank: 0, time: 0, id: row.message_id })
}

/// Judgements in the order of their messages.
pub open spec fn feedback_listed(
    rows: Seq<FeedbackRow>,
    order: Seq<usize>,
    list: Seq<StoredMessageFeedback>,
) -> bool {
    &&& is_order(feedback_keys(rows), order)
    &&& list.len() == rows.len()
    &&& forall|k: int|
        0 <= k < list.len() ==> #[trigger] list[k] == (StoredMessageFeedback {
            message_id: rows[order[k] as int].message_id,
            feedback: rows[order[k] as int].feedback,
        })
}

/// The text that stands for a judgement in a table.
pub open spec fn feedback_text(feedback: MessageFeedback) -> Seq<char> {
    match feedback {
        MessageFeedback::Positive => "positive"@,
        MessageFeedback::Negative => "negative"@,
    }
}

/// The text that stands for a judgement in a table.
pub fn feedback_value(feedback: MessageFeedback) -> (text: &'static str)
    ensures
        text@ == feedback_text(feedback),
{
    match feedback {
        MessageFeedback::Positive => "positive",
        MessageFeedback::Negative => "negative",
    }
}

/// Reads the text that stands for a judgement; any other text is corrupt.
pub fn parse_feedback(text: &str) -> (result: StorageResult<MessageFeedback>)
    ensures
        match result {
            Ok(feedback) => text@ == feedback_text(feedback),
            Err(error) => {
                &&& forall|feedback: MessageFeedback| text@ != #[trigger] feedback_text(feedback)
                &&& error@ == corrupt("stored message feedback is invalid"@)
            },
        },
        forall|feedback: MessageFeedback|
            text@ == #[trigger] feedback_text(feedback) ==> result == Ok::<_, StoreError>(feedback),
{
    proof {
        feedback_texts_are_distinct();
    }
    if same_text(text, "positive") {
        assert(text@ == feedback_text(MessageFeedback::Positive));
        return Ok(MessageFeedback::Positive);
    }
    if same_text(text, "negative") {
        assert(text@ == feedback_text(MessageFeedback::Negative));
        return Ok(MessageFeedback::Negative);
    }
    Err(invalid_data("stored message feedback is invalid"))
}

/// The texts for the two judgements differ.
pub proof fn feedback_texts_are_distinct()
    ensures
        feedback_text(MessageFeedback::Positive) != feedback_text(MessageFeedback::Negative),
{
    reveal_strlit("positive");
    reveal_strlit("negative");
    assert("positive"@[0] == 'p');
    assert("negative"@[0] == 'n');
}

/// The title of a session changed, or was refused to.
pub open spec fn session_title_changed(
    before: StorageEngine,
    after: StorageEngine,
    change: SessionTitleChange,
    outcome: Result<(), Refusal>,
) -> bool {
    if active(before, change.session_id@) {
        outcome is Ok && session_changed(
            before,
            after,
            change.session_id@,
            SessionRow {
                title: change.title,
                title_origin: SessionTitleOrigin::User,
                ..before.sessions@[place_of_session(before, change.session_id@)]
            },
        )
    } else {
        after == before && outcome == Err::<(), _>(conflicting("session title cannot be changed"@))
    }
}

/// Whether a session is pinned changed, or was refused to.
pub open spec fn session_pin_changed(
    before: StorageEngine,
    after: StorageEngine,
    change: SessionPinnedChange,
    outcome: Result<(), Refusal>,
) -> bool {
    if active(before, change.session_id@) {
        outcome is Ok && session_changed(
            before,
            after,
            change.session_id@,
            SessionRow {
                is_pinned: change.is_pinned,
                ..before.sessions@[place_of_session(before, change.session_id@)]
            },
        )
    } else {
        after == before && outcome == Err::<(), _>(conflicting("session pinned state cannot be changed"@))
    }
}

/// The model of a session changed, or was refused to.
pub open spec fn session_model_changed(
    before: StorageEngine,
    after: StorageEngine,
    change: ModelChange,
    outcome: Result<(), Refusal>,
) -> bool {
    if active(before, change.session_id@) && !working(before, change.session_id@) {
        outcome is Ok && session_changed(
            before,
            after,
            change.session_id@,
            SessionRow {
                model_key: change.model_key,
                reasoning_effort: change.reasoning_effort,
                ..before.sessions@[place_of_session(before, change.session_id@)]
            },
        )
    } else {
        after == before && outcome == Err::<(), _>(conflicting("session model cannot be changed"@))
    }
}

/// The reasoning effort of a session changed, or was refused to.
pub open spec fn session_effort_changed(
    before: StorageEngine,
    after: StorageEngine,
    change: ReasoningEffortChange,
    outcome: Result<(), Refusal>,
) -> bool {
    if active(before, change.session_id@) {
        outcome is Ok && session_changed(
            before,
            after,
            change.session_id@,
            SessionRow {
                reasoning_effort: change.reasoning_effort,
                ..before.sessions@[place_of_session(before, change.session_id@)]
            },
        )
    } else {
        after == before && outcome == Err::<(), _>(conflicting("session reasoning effort cannot be changed"@))
    }
}

/// The variant of a session changed, or was refused to.
pub open spec fn session_variant_changed(
    before: StorageEngine,
    after: StorageEngine,
    change: VariantChange,
    outcome: Result<(), Refusal>,
) -> bool {
    if active(before, change.session_id@) {
        outcome is Ok && session_changed(
            before,
            after,
            change.session_id@,
            SessionRow {
                current_variant: change.variant,
                ..before.sessions@[place_of_session(before, change.session_id@)]
            },
        )
    } else {
        after == before && outcome == Err::<(), _>(conflicting("session variant cannot be changed"@))
    }
}

/// The approval mode of a session changed, or was refused to.
pub open spec fn session_approval_changed(
    before: StorageEngine,
    after: StorageEngine,
    change: ApprovalModeChange,
    outcome: Result<(), Refusal>,
) -> bool {
    if active(before, change.session_id@) {
        outcome is Ok && session_changed(
            before,
            after,
            change.session_id@,
            SessionRow {
                approval_mode: change.approval_mode,
                ..before.sessions@[place_of_session(before, change.session_id@)]
            },
        )
    } else {
        after == before && outcome == Err::<(), _>(conflicting("session approval mode cannot be changed"@))
    }
}

/// Whether a session is archived changed, or was refused to.
pub open spec fn session_archive_changed(
    before: StorageEngine,
    after: StorageEngine,
    change: ArchiveChange,
    outcome: Result<(), Refusal>,
) -> bool {
    match archive_refusal(before, change) {
        Some(error) => after == before && outcome == Err::<(), _>(error),
        None => outcome is Ok && session_changed(
            before,
            after,
            change.session_id@,
            archived_row(
                before.sessions@[place_of_session(before, change.session_id@)],
                change,
            ),
        ),
    }
}

/// The controller of a session changed, or was refused to.
pub open spec fn session_proxy_changed(
    before: StorageEngine,
    after: StorageEngine,
    change: SessionProxyChange,
    outcome: Result<(), Refusal>,
) -> bool {
    match proxy_refusal(before, change) {
        Some(error) => after == before && outcome == Err::<(), _>(error),
        None => outcome is Ok && session_changed(
            before,
            after,
            change.target_session_id@,
            proxied_row(
                before.sessions@[place_of_session(before, change.target_session_id@)],
                change,
            ),
        ),
    }
}

/// What a user thinks of a message was noted, or refused.
pub open spec fn feedback_changed(
    before: StorageEngine,
    after: StorageEngine,
    change: MessageFeedbackChange,
    outcome: Result<(), Refusal>,
) -> bool {
    if some_row(before.sessions@, is_session(change.session_id@)) {
        &&& outcome is Ok
        &&& after == (StorageEngine { feedback: after.feedback, ..before })
        &&& after.feedback@ == judged(before.feedback@, change)
    } else {
        after == before && outcome == Err::<(), _>(conflicting("feedback session does not exist"@))
    }
}

impl StorageEngine {
    /// The place of a session that is there and active.
    fn active_place(&self, session_id: &String) -> (place: Option<usize>)
        ensures
            match place {
                Some(i) => {
                    &&& active(*self, session_id@)
                    &&& i < self.sessions@.len()
                    &&& i == place_of_session(*self, session_id@)
                    &&& self.sessions@[i as int].session_id@ == session_id@
                },
                None => !active(*self, session_id@),
            },
    {
        match self.session_place(session_id) {
            Some(place) => if matches!(self.sessions[place].lifecycle, SessionLifecycle::Active) {
                Some(place)
            } else {
                None
            },
            None => None,
        }
    }

    /// Archives a session that works on nothing, or brings it back.
    pub fn set_session_archive(&mut self, change: ArchiveChange) -> (result: StorageResult<()>)
        ensures
            session_archive_changed(*old(self), *final(self), change, outcome_of(result)),
            match archive_refusal(*old(self), change) {
                Some(error) => {
                    &&& result is Err && result->Err_0@ == error
                    &&& *final(self) == *old(self)
                },
                None => result is Ok && session_changed(
                    *old(self),
                    *final(self),
                    change.session_id@,
                    archived_row(
                        old(self).sessions@[place_of_session(*old(self), change.session_id@)],
                        change,
                    ),
                ),
            },
    {
        let place: usize = match self.session_place(&change.session_id) {
            Some(place) => place,
            None => {
                return Err(conflict("session lifecycle cannot be changed"));
            },
        };
        let expected = if change.archived {
            SessionLifecycle::Active
        } else {
            SessionLifecycle::Archived
        };
        if self.sessions[place].role != SessionRole::Standard || self.sessions[place].lifecycle
            != expected || (change.archived && self.is_working(&change.session_id)) {
            return Err(conflict("session lifecycle cannot be changed"));
        }
        let ghost rows = self.sessions@;
        if change.archived {
            self.sessions[place].lifecycle = SessionLifecycle::Archived;
            self.sessions[place].archived_at_ms = Some(change.changed_at_ms);
        } else {
            self.sessions[place].lifecycle = SessionLifecycle::Active;
            self.sessions[place].archived_at_ms = None;
        }
        proof {
            assert(self.sessions@ =~= rows.update(
                place as int,
                archived_row(rows[place as int], change),
            ));
        }
        Ok(())
    }

    /// Binds a session to a controller, or releases it.
    pub fn set_session_proxy(&mut self, change: SessionProxyChange) -> (result: StorageResult<()>)
        ensures
            session_proxy_changed(*old(self), *final(self), change, outcome_of(result)),
            match proxy_refusal(*old(self), change) {
                Some(error) => {
                    &&& result is Err && result->Err_0@ == error
                    &&& *final(self) == *old(self)
                },
                None => result is Ok && session_changed(
                    *old(self),
                    *final(self),
                    change.target_session_id@,
                    proxied_row(
                        old(self).sessions@[place_of_session(
                            *old(self),
                            change.target_session_id@,
                        )],
                        change,
                    ),
                ),
            },
    {
        match self.active_place(&change.controller_session_id) {
            Some(place) => {
                if self.sessions[place].role != SessionRole::Controller {
                    return Err(conflict("controller session is invalid"));
                }
            },
            None => {
                return Err(conflict("controller session is invalid"));
            },
        }
        if change.controller_session_id == change.target_session_id {
            return Err(conflict("controller session is invalid"));
        }
        let target: usize = match self.active_place(&change.target_session_id) {
            Some(place) => place,
            None => {
                return Err(conflict("proxy target session does not exist"));
            },
        };
        if self.sessions[target].role != SessionRole::Standard {
            return Err(conflict("proxy target session is invalid"));
        }
        let bound = match &self.sessions[target].proxy {
            Some(proxy) => {
                if proxy.controller_session_id != change.controller_session_id {
                    return Err(conflict("proxy target is bound to another controller"));
                }
                true
            },
            None => false,
        };
        let ghost rows = self.sessions@;
        if change.enabled && !bound {
            self.sessions[target].proxy = Some(
                SessionProxy {
                    controller_session_id: change.controller_session_id,
                    changed_at_ms: change.changed_at_ms,
                },
            );
        }
        if !change.enabled {
            self.sessions[target].proxy = None;
        }
        proof {
            assert(self.sessions@ =~= rows.update(
                target as int,
                proxied_row(rows[target as int], change),
            ));
        }
        Ok(())
    }

    /// Names a session as its user wants.
    pub fn rename_session(&mut self, change: SessionTitleChange) -> (result: StorageResult<()>)
        ensures
            session_title_changed(*old(self), *final(self), change, outcome_of(result)),
            !active(*old(self), change.session_id@) ==> {
                &&& result is Err && result->Err_0@ == conflicting(
                    "session title cannot be changed"@,
                )
                &&& *final(self) == *old(self)
            },
            active(*old(self), change.session_id@) ==> result is Ok && session_changed(
                *old(self),
                *final(self),
                change.session_id@,
                SessionRow {
                    title: change.title,
                    title_origin: SessionTitleOrigin::User,
                    ..old(self).sessions@[place_of_session(*old(self), change.session_id@)]
                },
            ),
    {
        let place: usize = match self.active_place(&change.session_id) {
            Some(place) => place,
            None => {
                return Err(conflict("session title cannot be changed"));
            },
        };
        let ghost rows = self.sessions@;
        let ghost row = SessionRow {
            title: change.title,
            title_origin: SessionTitleOrigin::User,
            ..rows[place as int]
        };
        self.sessions[place].title = change.title;
        self.sessions[place].title_origin = SessionTitleOrigin::User;
        proof {
            assert(self.sessions@ =~= rows.update(place as int, row));
        }
        Ok(())
    }

    /// Pins a session, or unpins it.
    pub fn set_session_pinned(&mut self, change: SessionPinnedChange) -> (result: StorageResult<()>)
        ensures
            session_pin_changed(*old(self), *final(self), change, outcome_of(result)),
            !active(*old(self), change.session_id@) ==> {
                &&& result is Err && result->Err_0@ == conflicting(
                    "session pinned state cannot be changed"@,
                )
                &&& *final(self) == *old(self)
            },
            active(*old(self), change.session_id@) ==> result is Ok && session_changed(
                *old(self),
                *final(self),
                change.session_id@,
                SessionRow {
                    is_pinned: change.is_pinned,
                    ..old(self).sessions@[place_of_session(*old(self), change.session_id@)]
                },
            ),
    {
        let place: usize = match self.active_place(&change.session_id) {
            Some(place) => place,
            None => {
                return Err(conflict("session pinned state cannot be changed"));
            },
        };
        let ghost rows = self.sessions@;
        self.sessions[place].is_pinned = change.is_pinned;
        proof {
            assert(self.sessions@ =~= rows.update(
                place as int,
                SessionRow { is_pinned: change.is_pinned, ..rows[place as int] },
            ));
        }
        Ok(())
    }

    /// Records what a user thinks of a message, or that they no longer say.
    pub fn set_message_feedback(&mut self, change: MessageFeedbackChange) -> (result: StorageResult<
        (),
    >)
        ensures
            feedback_changed(*old(self), *final(self), change, outcome_of(result)),
            !some_row(old(self).sessions@, is_session(change.session_id@)) ==> {
                &&& result is Err && result->Err_0@ == conflicting(
                    "feedback session does not exist"@,
                )
                &&& *final(self) == *old(self)
            },
            some_row(old(self).sessions@, is_session(change.session_id@)) ==> {
                &&& result is Ok
                &&& *final(self) == (StorageEngine {
                    feedback: final(self).feedback,
                    ..*old(self)
                })
                &&& final(self).feedback@ == judged(old(self).feedback@, change)
            },
    {
        proof {
            first_is_found(self.sessions@, is_session(change.session_id@));
        }
        if self.session_place(&change.session_id).is_none() {
            return Err(conflict("feedback session does not exist"));
        }
        let session_id = &change.session_id;
        let message_id = &change.message_id;
        let ghost rows = self.feedback@;
        match change.feedback {
            Some(feedback) => {
                match position(
                    &self.feedback,
                    Ghost(is_feedback_on(session_id@, message_id@)),
                    |row: &FeedbackRow| -> (found: bool)
                        ensures
                            found == (row.session_id@ == session_id@ && row.message_id@
                                == message_id@)
                        { row.session_id == *session_id && row.message_id == *message_id },
                ) {
                    Some(place) => {
                        self.feedback[place].feedback = feedback;
                        self.feedback[place].changed_at_ms = change.changed_at_ms;
                        proof {
                            assert(self.feedback@ =~= judged(rows, change));
                        }
                    },
                    None => {
                        self.feedback.push(
                            FeedbackRow {
                                session_id: session_id.clone(),
                                message_id: message_id.clone(),
                                feedback,
                                changed_at_ms: change.changed_at_ms,
                            },
                        );
                    },
                }
            },
            None => keep(
                &mut self.feedback,
                Ghost(is_feedback_elsewhere(session_id@, message_id@)),
                |row: &FeedbackRow| -> (other: bool)
                    ensures
                        other == !(row.session_id@ == session_id@ && row.message_id@
                            == message_id@)
                    { !(row.session_id == *session_id && row.message_id == *message_id) },
            ),
        }
        Ok(())
    }

    /// What users think of the messages of a session, in the order of the messages' identifiers.
    pub fn load_message_feedback(&self, session_id: &String) -> (list: Vec<StoredMessageFeedback>)
        ensures
            exists|order: Seq<usize>| #[trigger]
                feedback_listed(
                    kept(self.feedback@, is_feedback_in(session_id@)),
                    order,
                    list@,
                ),
    {
        let mut rows: Vec<FeedbackRow> = Vec::new();
        let mut keys: Vec<SortKey> = Vec::new();
        let ghost condition = is_feedback_in(session_id@);
        let mut i: usize = 0;
        proof {
            assert(self.feedback@.take(0) =~= Seq::empty());
        }
        while i < self.feedback.len()
            invariant
                i <= self.feedback@.len(),
                condition == is_feedback_in(session_id@),
                rows@ == kept(self.feedback@.take(i as int), condition),
                keys@ =~= feedback_keys(rows@),
            decreases self.feedback@.len() - i,
        {
            proof {
                let longer = self.feedback@.take(i + 1);
                assert(longer.drop_last() =~= self.feedback@.take(i as int));
                assert(longer.last() == self.feedback@[i as int]);
            }
            if self.feedback[i].session_id == *session_id {
                rows.push(self.feedback[i].copy());
                keys.push(SortKey { rank: 0, time: 0, id: self.feedback[i].message_id.clone() });
            }
            i += 1;
        }
        proof {
            assert(self.feedback@.take(self.feedback@.len() as int) =~= self.feedback@);
        }
        let order = ordered(&keys);
        let mut list: Vec<StoredMessageFeedback> = Vec::new();
        let mut k: usize = 0;
        while k < order.len()
            invariant
                k <= order@.len(),
                list@.len() == k,
                is_order(feedback_keys(rows@), order@),
                forall|j: int|
                    0 <= j < k ==> #[trigger] list@[j] == (StoredMessageFeedback {
                        message_id: rows@[order@[j] as int].message_id,
                        feedback: rows@[order@[j] as int].feedback,
                    }),
            decreases order@.len() - k,
        {
            let row = &rows[order[k]];
            list.push(
                StoredMessageFeedback {
                    message_id: row.message_id.clone(),
                    feedback: row.feedback,
                },
            );
            k += 1;
        }
        proof {
            assert(feedback_listed(rows@, order@, list@));
        }
        list
    }

    /// Lets a session that works on nothing go on with another model.
    pub fn set_session_model(&mut self, change: ModelChange) -> (result: StorageResult<()>)
        ensures
            session_model_changed(*old(self), *final(self), change, outcome_of(result)),
            !active(*old(self), change.session_id@) || working(*old(self), change.session_id@) ==> {
                &&& result is Err && result->Err_0@ == conflicting(
                    "session model cannot be changed"@,
                )
                &&& *final(self) == *old(self)
            },
            active(*old(self), change.session_id@) && !working(*old(self), change.session_id@)
                ==> result is Ok && session_changed(
                *old(self),
                *final(self),
                change.session_id@,
                SessionRow {
                    model_key: change.model_key,
                    reasoning_effort: change.reasoning_effort,
                    ..old(self).sessions@[place_of_session(*old(self), change.session_id@)]
                },
            ),
    {
        let place: usize = match self.active_place(&change.session_id) {
            Some(place) => place,
            None => {
                return Err(conflict("session model cannot be changed"));
            },
        };
        if self.is_working(&change.session_id) {
            return Err(conflict("session model cannot be changed"));
        }
        let ghost rows = self.sessions@;
        let ghost row = SessionRow {
            model_key: change.model_key,
            reasoning_effort: change.reasoning_effort,
            ..rows[place as int]
        };
        self.sessions[place].model_key = change.model_key;
        self.sessions[place].reasoning_effort = change.reasoning_effort;
        proof {
            assert(self.sessions@ =~= rows.update(place as int, row));
        }
        Ok(())
    }

    /// Lets a session think more or less.
    pub fn set_session_reasoning_effort(&mut self, change: ReasoningEffortChange) -> (result:
        StorageResult<()>)
        ensures
            session_effort_changed(*old(self), *final(self), change, outcome_of(result)),
            !active(*old(self), change.session_id@) ==> {
                &&& result is Err && result->Err_0@ == conflicting(
                    "session reasoning effort cannot be changed"@,
                )
                &&& *final(self) == *old(self)
            },
            active(*old(self), change.session_id@) ==> result is Ok && session_changed(
                *old(self),
                *final(self),
                change.session_id@,
                SessionRow {
                    reasoning_effort: change.reasoning_effort,
                    ..old(self).sessions@[place_of_session(*old(self), change.session_id@)]
                },
            ),
    {
        let place: usize = match self.active_place(&change.session_id) {
            Some(place) => place,
            None => {
                return Err(conflict("session reasoning effort cannot be changed"));
            },
        };
        let ghost rows = self.sessions@;
        let ghost row = SessionRow {
            reasoning_effort: change.reasoning_effort,
            ..rows[place as int]
        };
        self.sessions[place].reasoning_effort = change.reasoning_effort;
        proof {
            assert(self.sessions@ =~= rows.update(place as int, row));
        }
        Ok(())
    }

    /// Lets a session work another way.
    pub fn set_session_variant(&mut self, change: VariantChange) -> (result: StorageResult<()>)
        ensures
            session_variant_changed(*old(self), *final(self), change, outcome_of(result)),
            !active(*old(self), change.session_id@) ==> {
                &&& result is Err && result->Err_0@ == conflicting(
                    "session variant cannot be changed"@,
                )
                &&& *final(self) == *old(self)
            },
            active(*old(self), change.session_id@) ==> result is Ok && session_changed(
                *old(self),
                *final(self),
                change.session_id@,
                SessionRow {
                    current_variant: change.variant,
                    ..old(self).sessions@[place_of_session(*old(self), change.session_id@)]
                },
            ),
    {
        let place: usize = match self.active_place(&change.session_id) {
            Some(place) => place,
            None => {
                return Err(conflict("session variant cannot be changed"));
            },
        };
        let ghost rows = self.sessions@;
        self.sessions[place].current_variant = change.variant;
        proof {
            assert(self.sessions@ =~= rows.update(
                place as int,
                SessionRow { current_variant: change.variant, ..rows[place as int] },
            ));
        }
        Ok(())
    }

    /// Lets a session ask more or less before it acts.
    pub fn set_session_approval_mode(&mut self, change: ApprovalModeChange) -> (result:
        StorageResult<()>)
        ensures
            session_approval_changed(*old(self), *final(self), change, outcome_of(result)),
            !active(*old(self), change.session_id@) ==> {
                &&& result is Err && result->Err_0@ == conflicting(
                    "session approval mode cannot be changed"@,
                )
                &&& *final(self) == *old(self)
            },
            active(*old(self), change.session_id@) ==> result is Ok && session_changed(
                *old(self),
                *final(self),
                change.session_id@,
                SessionRow {
                    approval_mode: change.approval_mode,
                    ..old(self).sessions@[place_of_session(*old(self), change.session_id@)]
                },
            ),
    {
        let place: usize = match self.active_place(&change.session_id) {
            Some(place) => place,
            None => {
                return Err(conflict("session approval mode cannot be changed"));
            },
        };
        let ghost rows = self.sessions@;
        self.sessions[place].approval_mode = change.approval_mode;
        proof {
            assert(self.sessions@ =~= rows.update(
                place as int,
                SessionRow { approval_mode: change.approval_mode, ..rows[place as int] },
            ));
        }
        Ok(())
    }
}

/// What changes one session's row leaves every other row where and as it is.
pub proof fn other_sessions_keep_their_rows(
    before: StorageEngine,
    after: StorageEngine,
    session_id: Seq<char>,
    row: SessionRow,
    other: Seq<char>,
)
    requires
        session_changed(before, after, session_id, row),
        some_row(before.sessions@, is_session(session_id)),
        row.session_id@ == session_id,
        other != session_id,
    ensures
        first(after.sessions@, is_session(other)) == first(before.sessions@, is_session(other)),
        first(before.sessions@, is_session(other)) is Some ==> after.sessions@[first(
            before.sessions@,
            is_session(other),
        )->0] == before.sessions@[first(before.sessions@, is_session(other))->0],
{
    let rows = before.sessions@;
    first_is_found(rows, is_session(session_id));
    first_is_found(rows, is_session(other));
    first_after_update(rows, is_session(other), place_of_session(before, session_id), row);
}

/// Archiving a session and bringing it back leaves it as it was, but for when it was archived.
pub proof fn archive_is_undone(row: SessionRow, away: ArchiveChange, back: ArchiveChange)
    requires
        row.lifecycle is Active,
        away.archived,
        !back.archived,
    ensures
        archived_row(archived_row(row, away), back) == (SessionRow { archived_at_ms: None, ..row }),
{
}

/// Releasing a session undoes its binding, and binding it twice is binding it once.
pub proof fn proxy_is_undone(
    row: SessionRow,
    bind: SessionProxyChange,
    again: SessionProxyChange,
    release: SessionProxyChange,
)
    requires
        row.proxy is None,
        bind.enabled,
        again.enabled,
        !release.enabled,
    ensures
        proxied_row(proxied_row(row, bind), again) == proxied_row(row, bind),
        proxied_row(proxied_row(row, bind), release) == row,
{
}

} // verus!
