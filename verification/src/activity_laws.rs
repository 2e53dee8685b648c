//! When a session was last active.

use vstd::prelude::*;

use crate::append_effect::{
    purpose_applied, purpose_refusal, purpose_tables, session_of, AppendPurpose,
    ConversationStorageTarget, StagedAppend,
};
use crate::append_laws::purpose_keeps_generations;
use crate::engine::{is_session, StorageEngine};
use crate::message::held;
use crate::recovery::{counted_sessions, finalized, AppendTable};
use crate::rows::SessionRow;
use crate::session_management::{archived_row, proxied_row, ArchiveChange, SessionProxyChange};
use crate::table::{first, first_is_found};

verus! {

/// A session becomes active when one of its runs settles, and by no other append.
pub proof fn activity_moves_only_when_a_run_settles(
    before: StorageEngine,
    after: StorageEngine,
    row: StagedAppend,
    table: AppendTable,
    place: int,
)
    requires
        finalized(before, after, row, table),
        purpose_refusal(purpose_tables(before), row.target, *row.purpose) is None,
        first(before.sessions@, is_session(session_of(row.target)@)) is Some,
        0 <= place < before.sessions@.len(),
    ensures
        after.sessions@.len() == before.sessions@.len(),
        after.sessions@[place].updated_at_ms == match (row.target, *row.purpose) {
            (
                ConversationStorageTarget::Session { session_id, run_id },
                AppendPurpose::RunSettlement(effect),
            ) => if first(before.sessions@, is_session(session_id@)) == Some(place) {
                row.created_at_ms
            } else {
                before.sessions@[place].updated_at_ms
            },
            _ => before.sessions@[place].updated_at_ms,
        },
{
    let session_id = session_of(row.target)@;
    first_is_found(before.sessions@, is_session(session_id));
    let applied = purpose_applied(
        purpose_tables(before),
        row.target,
        held(row.purpose),
        row.created_at_ms,
    );
    purpose_keeps_generations(
        purpose_tables(before),
        row.target,
        held(row.purpose),
        row.created_at_ms,
        session_id,
    );
    assert(after.sessions@ == counted_sessions(applied.settlement.sessions, row));
}

/// Archiving a session, or binding it to a controller, is no activity.
pub proof fn management_is_no_activity(
    row: SessionRow,
    archive: ArchiveChange,
    proxy: SessionProxyChange,
)
    ensures
        archived_row(row, archive).updated_at_ms == row.updated_at_ms,
        proxied_row(row, proxy).updated_at_ms == row.updated_at_ms,
{
}

} // verus!
