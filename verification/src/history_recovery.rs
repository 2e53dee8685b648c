//! Changes of whole conversations that a restart interrupted.

use vstd::prelude::*;

use crate::append_effect::ConversationStorageTarget;
use crate::engine::{
    bodies, generation_of, path_component, remove_body, session_body_path, StorageEngine,
};
use crate::error::{
    corrupt, failed, internal_error, invalid_data, list_outcome, malformed, outcome_of, Refusal,
    StorageResult,
};
use crate::order::{is_order, ordered, SortKey};
use crate::recovery::main_target;
use crate::rows::{HistoryKind, HistoryOperationRow, HistoryState};
use crate::session_history::{decode_history_operation, receipt_of, receipt_refusal, state_moved};
use crate::table::{first, kept, position};
use crate::text::{add_text, holds_text, lists, with_text};

verus! {

/// The condition of being the receipt of a change that is not over, of one session or of any.
pub open spec fn is_unsettled(scope: Option<String>) -> spec_fn(HistoryOperationRow) -> bool {
    |row: HistoryOperationRow|
        (row.state is Preparing || row.state is CleanupPending) && (scope is None
            || row.session_id@ == scope->0@)
}

/// What receipts are ordered by.
pub open spec fn receipt_keys(rows: Seq<HistoryOperationRow>) -> Seq<SortKey> {
    rows.map_values(
        |row: HistoryOperationRow| SortKey { rank: 0, time: row.created_at_ms, id: row.operation_id },
    )
}

/// The engine with a receipt moved on, and nothing else.
pub open spec fn receipt_moved(
    before: StorageEngine,
    after: StorageEngine,
    operation_id: Seq<char>,
    from: HistoryState,
    to: HistoryState,
) -> bool {
    after.history_operations@ == state_moved(
        before.history_operations@,
        operation_id,
        from,
        to,
        Some(0),
    )
}

/// Why the body that was opened for an emptied conversation cannot be taken away.
#[derive(Clone, Copy, Debug, PartialEq, Eq, Structural)]
pub enum Obstacle {
    /// What lies at its path is no regular file.
    NotAFile,
    /// It cannot be told what lies at its path.
    NotInspected,
    /// The file stays where it is.
    NotRemoved,
}

/// An interrupted change with a body that cannot be taken away.
#[derive(Debug, PartialEq, Eq)]
pub struct BlockedBody {
    pub operation_id: String,
    pub obstacle: Obstacle,
}

/// What was found of the files of changes that are not over.
#[derive(Debug, PartialEq, Eq)]
pub struct FoundFiles {
    /// The operations whose old files are gone.
    pub cleaned: Vec<String>,
    /// The operations whose unpublished bodies cannot be taken away.
    pub blocked: Vec<BlockedBody>,
}

impl FoundFiles {
    /// No old files are gone, and nothing is in the way.
    pub fn none() -> (found: FoundFiles)
        ensures
            found.cleaned@.len() == 0,
            found.blocked@.len() == 0,
    {
        FoundFiles { cleaned: Vec::new(), blocked: Vec::new() }
    }
}

/// The condition of being what stands in the way of a change.
pub open spec fn blocks(operation_id: Seq<char>) -> spec_fn(BlockedBody) -> bool {
    |body: BlockedBody| body.operation_id@ == operation_id
}

/// Why the unpublished body of a change cannot be taken away, where it cannot.
pub open spec fn obstacle_refusal(found: FoundFiles, operation_id: Seq<char>) -> Option<Refusal> {
    match first(found.blocked@, blocks(operation_id)) {
        None => None,
        Some(i) => Some(
            match found.blocked@[i].obstacle {
                Obstacle::NotAFile => corrupt("interrupted clear path is not a regular file"@),
                Obstacle::NotInspected => failed("interrupted clear file could not be inspected"@),
                Obstacle::NotRemoved => failed("interrupted clear file could not be removed"@),
            },
        ),
    }
}

fn check_obstacle(found: &FoundFiles, operation_id: &String) -> (result: StorageResult<()>)
    ensures
        match obstacle_refusal(*found, operation_id@) {
            Some(error) => result is Err && result->Err_0@ == error,
            None => result is Ok,
        },
{
    match position(
        &found.blocked,
        Ghost(blocks(operation_id@)),
        |body: &BlockedBody| -> (same: bool)
            ensures
                same == (body.operation_id@ == operation_id@)
            { body.operation_id == *operation_id },
    ) {
        None => Ok(()),
        Some(place) => match found.blocked[place].obstacle {
            Obstacle::NotAFile => Err(
                invalid_data("interrupted clear path is not a regular file"),
            ),
            Obstacle::NotInspected => Err(
                internal_error("interrupted clear file could not be inspected"),
            ),
            Obstacle::NotRemoved => Err(
                internal_error("interrupted clear file could not be removed"),
            ),
        },
    }
}

/// What becomes of one interrupted change, with whether files are still to be removed for it or why
/// it cannot be brought to an end. `found` says what was found of its files.
pub open spec fn change_recovered(
    before: StorageEngine,
    after: StorageEngine,
    row: HistoryOperationRow,
    found: FoundFiles,
    outcome: Result<bool, Refusal>,
) -> bool {
    let operation = receipt_of(row);
    match generation_of(before, main_target(row.session_id)) {
        Err(error) => after == before && outcome == Err::<bool, _>(error),
        Ok(current) => match (operation.kind, operation.state) {
            (HistoryKind::Clear, HistoryState::Preparing) => if current
                != operation.source_generation {
                after == before && outcome == Err::<bool, _>(
                    corrupt("preparing clear does not match the authoritative generation"@),
                )
            } else if operation.result_generation is Some && !path_component(row.session_id@) {
                after == before && outcome == Err::<bool, _>(
                    malformed("session id is not a directory name"@),
                )
            } else if operation.result_generation is Some && obstacle_refusal(
                found,
                row.operation_id@,
            ) is Some {
                after == before && outcome == Err::<bool, _>(
                    obstacle_refusal(found, row.operation_id@)->0,
                )
            } else {
                &&& outcome == Ok::<_, Refusal>(false)
                &&& after == (StorageEngine {
                    files: after.files,
                    history_operations: after.history_operations,
                    ..before
                })
                &&& bodies(after.files@) == match operation.result_generation {
                    Some(generation) => bodies(before.files@).remove(
                        session_body_path(
                            before.sessions_directory@,
                            row.session_id@,
                            generation,
                        ),
                    ),
                    None => bodies(before.files@),
                }
                &&& receipt_moved(
                    before,
                    after,
                    row.operation_id@,
                    HistoryState::Preparing,
                    HistoryState::Interrupted,
                )
            },
            (HistoryKind::Clear, HistoryState::CleanupPending) => if operation.result_generation
                is None {
                after == before && outcome == Err::<bool, _>(
                    corrupt("pending clear result generation is missing"@),
                )
            } else if current != operation.result_generation->0 {
                after == before && outcome == Err::<bool, _>(
                    corrupt("pending clear does not match the authoritative generation"@),
                )
            } else if lists(found.cleaned@, row.operation_id@) {
                &&& outcome == Ok::<_, Refusal>(false)
                &&& after == (StorageEngine {
                    history_operations: after.history_operations,
                    ..before
                })
                &&& receipt_moved(
                    before,
                    after,
                    row.operation_id@,
                    HistoryState::CleanupPending,
                    HistoryState::Completed,
                )
            } else {
                after == before && outcome == Ok::<_, Refusal>(true)
            },
            (HistoryKind::Compact, HistoryState::Preparing) => {
                &&& outcome == Ok::<_, Refusal>(false)
                &&& after == (StorageEngine {
                    history_operations: after.history_operations,
                    ..before
                })
                &&& receipt_moved(
                    before,
                    after,
                    row.operation_id@,
                    HistoryState::Preparing,
                    HistoryState::Interrupted,
                )
            },
            _ => after == before && outcome == Ok::<_, Refusal>(false),
        },
    }
}

/// The engine passes from state to state by bringing changes to an end, earlier ones first; `open`
/// says for which of them files are still to be removed.
pub open spec fn changes_in_turn(
    rows: Seq<HistoryOperationRow>,
    found: FoundFiles,
    order: Seq<usize>,
    trace: Seq<StorageEngine>,
    open: Seq<bool>,
) -> bool {
    &&& is_order(receipt_keys(rows), order)
    &&& open.len() <= order.len()
    &&& trace.len() == open.len() + 1
    &&& forall|k: int|
        0 <= k < open.len() ==> change_recovered(
            trace[k],
            trace[k + 1],
            rows[#[trigger] order[k] as int],
            found,
            Ok::<_, Refusal>(open[k]),
        )
}

/// The sessions for which files are still to be removed, each once.
pub open spec fn open_sessions(
    rows: Seq<HistoryOperationRow>,
    order: Seq<usize>,
    open: Seq<bool>,
) -> Seq<String>
    decreases open.len(),
{
    if open.len() == 0 {
        Seq::empty()
    } else {
        let earlier = open_sessions(rows, order, open.drop_last());
        if open.last() {
            with_text(earlier, rows[order[open.len() - 1] as int].session_id)
        } else {
            earlier
        }
    }
}

/// The first receipt in order that cannot be read.
pub open spec fn first_unreadable(
    rows: Seq<HistoryOperationRow>,
    order: Seq<usize>,
    k: int,
) -> bool {
    &&& is_order(receipt_keys(rows), order)
    &&& 0 <= k < order.len()
    &&& receipt_refusal(rows[order[k] as int]) is Some
    &&& forall|j: int|
        0 <= j < k ==> receipt_refusal(rows[#[trigger] order[j] as int]) is None
}

/// Every receipt can be read.
pub open spec fn all_readable(rows: Seq<HistoryOperationRow>) -> bool {
    forall|i: int| 0 <= i < rows.len() ==> receipt_refusal(#[trigger] rows[i]) is None
}

/// The engine after the interrupted changes in scope were brought to an end. Nothing happens unless
/// every receipt can be read; the first change that cannot be brought to an end stops the rest.
pub open spec fn changes_recovered(
    before: StorageEngine,
    after: StorageEngine,
    scope: Option<String>,
    found: FoundFiles,
    outcome: Result<Seq<String>, Refusal>,
) -> bool {
    let rows = kept(before.history_operations@, is_unsettled(scope));
    if !all_readable(rows) {
        after == before && exists|order: Seq<usize>, k: int| #[trigger]
            first_unreadable(rows, order, k) && outcome == Err::<Seq<String>, _>(
                receipt_refusal(rows[order[k] as int])->0,
            )
    } else {
        exists|order: Seq<usize>, trace: Seq<StorageEngine>, open: Seq<bool>| #[trigger]
            changes_in_turn(rows, found, order, trace, open) && trace[0] == before
                && trace.last() == after && match outcome {
                Ok(pending) => open.len() == order.len() && pending == open_sessions(
                    rows,
                    order,
                    open,
                ),
                Err(error) => open.len() < order.len() && change_recovered(
                    after,
                    after,
                    rows[order[open.len() as int] as int],
                    found,
                    Err::<bool, _>(error),
                ),
            }
    }
}

/// A body that was opened for a conversation which did not get emptied.
#[derive(Debug, PartialEq, Eq)]
pub struct InterruptedClear {
    pub operation_id: String,
    pub path: String,
}

/// A conversation that was emptied, and whose old files are still to be removed.
#[derive(Debug, PartialEq, Eq)]
pub struct PendingCleanup {
    pub operation_id: String,
    pub session_id: String,
    pub result_generation: u64,
}

impl StorageEngine {
    fn recover_change(&mut self, row: &HistoryOperationRow, found: &FoundFiles) -> (result:
        StorageResult<bool>)
        requires
            receipt_refusal(*row) is None,
        ensures
            change_recovered(
                *old(self),
                *final(self),
                *row,
                *found,
                outcome_of(result),
            ),
    {
        let operation = match decode_history_operation(row) {
            Ok(operation) => operation,
            Err(error) => {
                return Err(error);
            },
        };
        let target = ConversationStorageTarget::Session {
            session_id: row.session_id.clone(),
            run_id: row.session_id.clone(),
        };
        let current: u64 = match self.target_generation(&target) {
            Ok(generation) => generation,
            Err(error) => {
                return Err(error);
            },
        };
        match (operation.kind, operation.state) {
            (HistoryKind::Clear, HistoryState::Preparing) => {
                if current != operation.source_generation {
                    return Err(
                        invalid_data("preparing clear does not match the authoritative generation"),
                    );
                }
                match operation.result_generation {
                    Some(generation) => match self.target_body_path(&target, generation) {
                        Ok(path) => match check_obstacle(found, &row.operation_id) {
                            Ok(_) => remove_body(&mut self.files, &path),
                            Err(error) => {
                                return Err(error);
                            },
                        },
                        Err(error) => {
                            return Err(error);
                        },
                    },
                    None => {},
                }
                self.mark_clear_interrupted(&row.operation_id, 0);
                Ok(false)
            },
            (HistoryKind::Clear, HistoryState::CleanupPending) => {
                let generation: u64 = match operation.result_generation {
                    Some(generation) => generation,
                    None => {
                        return Err(invalid_data("pending clear result generation is missing"));
                    },
                };
                if current != generation {
                    return Err(
                        invalid_data("pending clear does not match the authoritative generation"),
                    );
                }
                let removed = holds_text(&found.cleaned, row.operation_id.as_str());
                let _ = self.finish_clear_cleanup(&row.operation_id, removed, 0);
                Ok(!removed)
            },
            (HistoryKind::Compact, HistoryState::Preparing) => {
                self.mark_clear_interrupted(&row.operation_id, 0);
                Ok(false)
            },
            _ => Ok(false),
        }
    }

    fn unsettled_receipts(&self, scope: &Option<String>) -> (rows: Vec<HistoryOperationRow>)
        ensures
            rows@ == kept(self.history_operations@, is_unsettled(*scope)),
    {
        let ghost condition = is_unsettled(*scope);
        let mut rows: Vec<HistoryOperationRow> = Vec::new();
        let mut i: usize = 0;
        proof {
            assert(self.history_operations@.take(0) =~= Seq::empty());
        }
        while i < self.history_operations.len()
            invariant
                i <= self.history_operations@.len(),
                condition == is_unsettled(*scope),
                rows@ == kept(self.history_operations@.take(i as int), condition),
            decreases self.history_operations@.len() - i,
        {
            let row = &self.history_operations[i];
            proof {
                let longer = self.history_operations@.take(i + 1);
                assert(longer.drop_last() =~= self.history_operations@.take(i as int));
                assert(longer.last() == *row);
            }
            let inside = match scope {
                None => true,
                Some(session_id) => row.session_id == *session_id,
            };
            if inside && matches!(
                row.state,
                HistoryState::Preparing | HistoryState::CleanupPending
            ) {
                rows.push(row.copy());
            }
            i += 1;
        }
        proof {
            assert(self.history_operations@.take(self.history_operations@.len() as int)
                =~= self.history_operations@);
        }
        rows
    }

    /// The emptied conversations, of one session or of all, whose old files are still to be removed
    /// and may be.
    pub fn pending_cleanups(&self, scope: &Option<String>) -> (list: Vec<PendingCleanup>)
        ensures
            forall|i: int|
                0 <= i < list@.len() ==> is_pending_cleanup(*self, *scope, #[trigger] list@[i]),
            forall|row: HistoryOperationRow, generation: u64|
                #[trigger] awaits_cleanup(*self, *scope, row, generation) ==> exists|i: int|
                    0 <= i < list@.len() && #[trigger] list@[i] == (PendingCleanup {
                        operation_id: row.operation_id,
                        session_id: row.session_id,
                        result_generation: generation,
                    }),
    {
        let rows = self.unsettled_receipts(scope);
        let mut list: Vec<PendingCleanup> = Vec::new();
        let mut i: usize = 0;
        while i < rows.len()
            invariant
                i <= rows@.len(),
                rows@ == kept(self.history_operations@, is_unsettled(*scope)),
                forall|k: int|
                    0 <= k < list@.len() ==> is_pending_cleanup(
                        *self,
                        *scope,
                        #[trigger] list@[k],
                    ),
                forall|k: int, generation: u64|
                    0 <= k < i && #[trigger] awaits_cleanup(*self, *scope, rows@[k], generation)
                        ==> exists|j: int|
                        0 <= j < list@.len() && #[trigger] list@[j] == (PendingCleanup {
                            operation_id: rows@[k].operation_id,
                            session_id: rows@[k].session_id,
                            result_generation: generation,
                        }),
            decreases rows@.len() - i,
        {
            let row = &rows[i];
            let target = ConversationStorageTarget::Session {
                session_id: row.session_id.clone(),
                run_id: row.session_id.clone(),
            };
            let ghost before = list@;
            match (decode_history_operation(row), self.target_generation(&target)) {
                (Ok(operation), Ok(current)) => match (
                    operation.kind,
                    operation.state,
                    operation.result_generation,
                ) {
                    (HistoryKind::Clear, HistoryState::CleanupPending, Some(generation)) => {
                        if current == generation {
                            list.push(
                                PendingCleanup {
                                    operation_id: row.operation_id.clone(),
                                    session_id: row.session_id.clone(),
                                    result_generation: generation,
                                },
                            );
                            proof {
                                let added = list@[before.len() as int];
                                assert(rows@[i as int] == *row);
                                assert(awaits_cleanup(
                                    *self,
                                    *scope,
                                    *row,
                                    added.result_generation,
                                ));
                                assert(is_pending_cleanup(*self, *scope, added));
                                assert forall|k: int| 0 <= k < list@.len() implies
                                    is_pending_cleanup(*self, *scope, #[trigger] list@[k]) by {
                                    if k < before.len() {
                                        assert(list@[k] == before[k]);
                                    }
                                }
                            }
                        }
                    },
                    _ => {},
                },
                _ => {},
            }
            proof {
                assert forall|k: int, generation: u64| 0 <= k < i + 1 && #[trigger] awaits_cleanup(
                    *self,
                    *scope,
                    rows@[k],
                    generation,
                ) implies exists|j: int|
                    0 <= j < list@.len() && #[trigger] list@[j] == (PendingCleanup {
                        operation_id: rows@[k].operation_id,
                        session_id: rows@[k].session_id,
                        result_generation: generation,
                    }) by {
                    if k < i {
                        let j = choose|j: int|
                            0 <= j < before.len() && #[trigger] before[j] == (PendingCleanup {
                                operation_id: rows@[k].operation_id,
                                session_id: rows@[k].session_id,
                                result_generation: generation,
                            });
                        assert(list@[j] == before[j]);
                    }
                }
            }
            i += 1;
        }
        proof {
            assert forall|row: HistoryOperationRow, generation: u64| #[trigger]
                awaits_cleanup(*self, *scope, row, generation) implies exists|j: int|
                0 <= j < list@.len() && #[trigger] list@[j] == (PendingCleanup {
                    operation_id: row.operation_id,
                    session_id: row.session_id,
                    result_generation: generation,
                }) by {
                let k = rows@.index_of(row);
                assert(rows@[k] == row);
            }
        }
        list
    }

    /// The bodies that were opened for conversations which did not get emptied, of one session or
    /// of all, and which are to be taken away before the changes are brought to an end.
    pub fn interrupted_clears(&self, scope: &Option<String>) -> (list: Vec<InterruptedClear>)
        ensures
            forall|i: int|
                0 <= i < list@.len() ==> is_interrupted_clear(*self, *scope, #[trigger] list@[i]),
            forall|row: HistoryOperationRow, generation: u64| #[trigger]
                was_interrupted(*self, *scope, row, generation) ==> exists|i: int|
                    0 <= i < list@.len() && names_body(
                        *self,
                        #[trigger] list@[i],
                        row,
                        generation,
                    ),
    {
        let rows = self.unsettled_receipts(scope);
        let mut list: Vec<InterruptedClear> = Vec::new();
        let mut i: usize = 0;
        while i < rows.len()
            invariant
                i <= rows@.len(),
                rows@ == kept(self.history_operations@, is_unsettled(*scope)),
                forall|k: int|
                    0 <= k < list@.len() ==> is_interrupted_clear(
                        *self,
                        *scope,
                        #[trigger] list@[k],
                    ),
                forall|k: int, generation: u64|
                    0 <= k < i && #[trigger] was_interrupted(*self, *scope, rows@[k], generation)
                        ==> exists|j: int|
                        0 <= j < list@.len() && names_body(
                            *self,
                            #[trigger] list@[j],
                            rows@[k],
                            generation,
                        ),
            decreases rows@.len() - i,
        {
            let row = &rows[i];
            let target = ConversationStorageTarget::Session {
                session_id: row.session_id.clone(),
                run_id: row.session_id.clone(),
            };
            let ghost before = list@;
            match (decode_history_operation(row), self.target_generation(&target)) {
                (Ok(operation), Ok(current)) => match (
                    operation.kind,
                    operation.state,
                    operation.result_generation,
                ) {
                    (HistoryKind::Clear, HistoryState::Preparing, Some(generation)) => {
                        if current == operation.source_generation {
                            match self.target_body_path(&target, generation) {
                                Ok(path) => {
                                    list.push(
                                        InterruptedClear {
                                            operation_id: row.operation_id.clone(),
                                            path,
                                        },
                                    );
                                    proof {
                                        let added = list@[before.len() as int];
                                        assert(rows@[i as int] == *row);
                                        assert(was_interrupted(*self, *scope, *row, generation));
                                        assert(names_body(*self, added, *row, generation));
                                        assert(is_interrupted_clear(*self, *scope, added));
                                    }
                                },
                                Err(_) => {},
                            }
                        }
                    },
                    _ => {},
                },
                _ => {},
            }
            proof {
                assert forall|k: int| 0 <= k < list@.len() implies is_interrupted_clear(
                    *self,
                    *scope,
                    #[trigger] list@[k],
                ) by {
                    if k < before.len() {
                        assert(list@[k] == before[k]);
                    }
                }
                assert forall|k: int, generation: u64| 0 <= k < i + 1
                    && #[trigger] was_interrupted(
                    *self,
                    *scope,
                    rows@[k],
                    generation,
                ) implies exists|j: int|
                    0 <= j < list@.len() && names_body(
                        *self,
                        #[trigger] list@[j],
                        rows@[k],
                        generation,
                    ) by {
                    if k < i {
                        let j = choose|j: int|
                            0 <= j < before.len() && names_body(
                                *self,
                                #[trigger] before[j],
                                rows@[k],
                                generation,
                            );
                        assert(list@[j] == before[j]);
                    } else {
                        assert(list@.len() == before.len() + 1);
                        assert(names_body(
                            *self,
                            list@[before.len() as int],
                            rows@[k],
                            generation,
                        ));
                    }
                }
            }
            i += 1;
        }
        proof {
            assert forall|row: HistoryOperationRow, generation: u64| #[trigger]
                was_interrupted(*self, *scope, row, generation) implies exists|j: int|
                0 <= j < list@.len() && names_body(
                    *self,
                    #[trigger] list@[j],
                    row,
                    generation,
                ) by {
                let k = rows@.index_of(row);
                assert(rows@[k] == row);
                assert(was_interrupted(*self, *scope, rows@[k], generation));
            }
        }
        list
    }

    /// Brings the interrupted changes of one session, or of all, to an end before anything else is
    /// read, and names the sessions for which files are still to be removed.
    pub fn recover_session_history_operations(
        &mut self,
        scope: &Option<String>,
        found: &FoundFiles,
    ) -> (result: StorageResult<Vec<String>>)
        ensures
            changes_recovered(
                *old(self),
                *final(self),
                *scope,
                *found,
                list_outcome(result),
            ),
    {
        let rows = self.unsettled_receipts(scope);
        let mut keys: Vec<SortKey> = Vec::new();
        let mut i: usize = 0;
        while i < rows.len()
            invariant
                i <= rows@.len(),
                keys@ =~= receipt_keys(rows@).take(i as int),
            decreases rows@.len() - i,
        {
            keys.push(SortKey { rank: 0, time: rows[i].created_at_ms, id: rows[i].operation_id.clone() });
            i += 1;
        }
        proof {
            assert(receipt_keys(rows@).take(rows@.len() as int) =~= receipt_keys(rows@));
        }
        let order = ordered(&keys);
        match check_readable(&rows, &order) {
            Ok(_) => {},
            Err(error) => {
                return Err(error);
            },
        }
        let mut pending: Vec<String> = Vec::new();
        let ghost mut trace: Seq<StorageEngine> = seq![*self];
        let ghost mut open: Seq<bool> = Seq::empty();
        let mut n: usize = 0;
        while n < order.len()
            invariant
                n <= order@.len(),
                rows@ == kept(old(self).history_operations@, is_unsettled(*scope)),
                all_readable(rows@),
                is_order(receipt_keys(rows@), order@),
                trace.len() == n + 1,
                open.len() == n,
                trace[0] == *old(self),
                trace[n as int] == *self,
                forall|k: int|
                    0 <= k < n ==> change_recovered(
                        trace[k],
                        trace[k + 1],
                        rows@[#[trigger] order@[k] as int],
                        *found,
                        Ok::<_, Refusal>(open[k]),
                    ),
                pending@ == open_sessions(rows@, order@, open),
            decreases order@.len() - n,
        {
            let ghost before = trace;
            let ghost earlier = open;
            let row = &rows[order[n]];
            let result = self.recover_change(row, found);
            match result {
                Err(error) => {
                    proof {
                        assert(*self == before[n as int]);
                        assert(changes_in_turn(rows@, *found, order@, before, earlier));
                        assert(before.last() == *self);
                    }
                    return Err(error);
                },
                Ok(still_open) => {
                    proof {
                        trace = trace.push(*self);
                        open = open.push(still_open);
                        assert(open.drop_last() =~= earlier);
                        assert forall|k: int| 0 <= k < n + 1 implies change_recovered(
                            trace[k],
                            trace[k + 1],
                            rows@[#[trigger] order@[k] as int],
                            *found,
                            Ok::<_, Refusal>(open[k]),
                        ) by {
                            if k < n {
                                assert(trace[k] == before[k]);
                                assert(trace[k + 1] == before[k + 1]);
                                assert(open[k] == earlier[k]);
                                assert(change_recovered(
                                    before[k],
                                    before[k + 1],
                                    rows@[order@[k] as int],
                                    *found,
                                    Ok::<_, Refusal>(earlier[k]),
                                ));
                            }
                        }
                    }
                    if still_open {
                        add_text(&mut pending, &row.session_id);
                    }
                },
            }
            n += 1;
        }
        proof {
            assert(changes_in_turn(rows@, *found, order@, trace, open));
        }
        Ok(pending)
    }
}

/// An emptied conversation that does not count, with the generation of its body.
pub open spec fn was_interrupted(
    engine: StorageEngine,
    scope: Option<String>,
    row: HistoryOperationRow,
    generation: u64,
) -> bool {
    &&& kept(engine.history_operations@, is_unsettled(scope)).contains(row)
    &&& receipt_refusal(row) is None
    &&& row.kind is Clear
    &&& row.state is Preparing
    &&& path_component(row.session_id@)
    &&& receipt_of(row).result_generation == Some(generation)
    &&& generation_of(engine, main_target(row.session_id)) == Ok::<_, Refusal>(
        receipt_of(row).source_generation,
    )
}

/// A body is that of a change at a generation.
pub open spec fn names_body(
    engine: StorageEngine,
    body: InterruptedClear,
    row: HistoryOperationRow,
    generation: u64,
) -> bool {
    &&& body.operation_id@ == row.operation_id@
    &&& body.path@ == session_body_path(engine.sessions_directory@, row.session_id@, generation)
}

/// A body was opened for a conversation that did not get emptied.
pub open spec fn is_interrupted_clear(
    engine: StorageEngine,
    scope: Option<String>,
    body: InterruptedClear,
) -> bool {
    exists|row: HistoryOperationRow, generation: u64| #[trigger]
        was_interrupted(engine, scope, row, generation) && names_body(
            engine,
            body,
            row,
            generation,
        )
}

/// A change whose old files are to be removed now.
pub open spec fn awaits_cleanup(
    engine: StorageEngine,
    scope: Option<String>,
    row: HistoryOperationRow,
    generation: u64,
) -> bool {
    &&& kept(engine.history_operations@, is_unsettled(scope)).contains(row)
    &&& receipt_refusal(row) is None
    &&& row.kind is Clear
    &&& row.state is CleanupPending
    &&& receipt_of(row).result_generation == Some(generation)
    &&& generation_of(engine, main_target(row.session_id)) == Ok::<_, Refusal>(generation)
}

/// The old files of some change are to be removed now.
pub open spec fn is_pending_cleanup(
    engine: StorageEngine,
    scope: Option<String>,
    pending: PendingCleanup,
) -> bool {
    exists|row: HistoryOperationRow| #[trigger]
        awaits_cleanup(engine, scope, row, pending.result_generation) && pending.operation_id
            == row.operation_id && pending.session_id == row.session_id
}

fn check_readable(rows: &Vec<HistoryOperationRow>, order: &Vec<usize>) -> (result: StorageResult<()>)
    requires
        is_order(receipt_keys(rows@), order@),
    ensures
        match result {
            Ok(_) => all_readable(rows@),
            Err(error) => {
                &&& !all_readable(rows@)
                &&& exists|k: int| #[trigger]
                    first_unreadable(rows@, order@, k) && receipt_refusal(
                        rows@[order@[k] as int],
                    ) == Some(error@)
            },
        },
{
    let mut k: usize = 0;
    while k < order.len()
        invariant
            k <= order@.len(),
            is_order(receipt_keys(rows@), order@),
            forall|j: int|
                0 <= j < k ==> receipt_refusal(rows@[#[trigger] order@[j] as int]) is None,
        decreases order@.len() - k,
    {
        match decode_history_operation(&rows[order[k]]) {
            Ok(_) => {},
            Err(error) => {
                proof {
                    assert(first_unreadable(rows@, order@, k as int));
                    assert(receipt_refusal(rows@[order@[k as int] as int]) is Some);
                }
                return Err(error);
            },
        }
        k += 1;
    }
    proof {
        assert forall|i: int| 0 <= i < rows@.len() implies receipt_refusal(
            #[trigger] rows@[i],
        ) is None by {
            order_reaches_every_place(order@, rows@.len() as int, i);
            let j = choose|j: int| 0 <= j < order@.len() && #[trigger] order@[j] == i;
            assert(receipt_refusal(rows@[order@[j] as int]) is None);
        }
    }
    Ok(())
}

/// An order of `n` places names each of them.
proof fn order_reaches_every_place(order: Seq<usize>, n: int, place: int)
    requires
        order.len() == n,
        0 <= place < n,
        forall|i: int| 0 <= i < order.len() ==> #[trigger] order[i] < n,
        forall|i: int, j: int|
            0 <= i < j < order.len() ==> #[trigger] order[i] != #[trigger] order[j],
    ensures
        exists|j: int| 0 <= j < order.len() && #[trigger] order[j] == place,
{
    let places = order.map_values(|p: usize| p as int);
    assert(places.no_duplicates()) by {
        assert forall|i: int, j: int| 0 <= i < places.len() && 0 <= j < places.len() && i
            != j implies places[i] != places[j] by {
            if i < j {
                assert(order[i] != order[j]);
            } else {
                assert(order[j] != order[i]);
            }
        }
    }
    let all = vstd::set_lib::set_int_range(0, n);
    vstd::set_lib::lemma_int_range(0, n);
    places.unique_seq_to_set();
    let named = places.to_set();
    assert forall|p: int| named.contains(p) implies all.contains(p) by {
        let i = places.index_of(p);
        assert(places[i] == p);
        assert(order[i] < n);
    }
    assert(named.subset_of(all));
    vstd::set_lib::lemma_subset_equality(named, all);
    assert(named.contains(place));
    let j = places.index_of(place);
    assert(places[j] == place);
    assert(order[j] == place);
}

} // verus!
