//! Runs as the runtime sees them: with the variant of their input and the messages they recorded.

use vstd::prelude::*;

use crate::engine::{has_input_id, StorageEngine};
use crate::error::{corrupt, invalid_data, Refusal, StorageResult};
use crate::order::{is_order, ordered, SortKey};
use crate::rows::{AgentVariant, ApprovalMode, RunError, RunMessageRef, RunRow};
use crate::run_projection::{
    error_code_text, parse_error_code, parse_run_status, run_status_text, RunStatus,
    RuntimeErrorCode,
};
use crate::table::{first, first_is_found, kept, kept_rows, some_row};

verus! {

/// The step of a run that recorded a message.
#[derive(Debug, PartialEq, Eq)]
pub struct MessageStep {
    pub message_id: String,
    pub step: u32,
}

/// A run with the variant of its input and the messages it recorded. Messages recorded before
/// steps were kept have none.
#[derive(Debug, PartialEq, Eq)]
pub struct StoredRun {
    pub run_id: String,
    pub session_id: String,
    pub input_id: String,
    pub attempt: u32,
    pub status: RunStatus,
    pub agent_variant: AgentVariant,
    pub approval_mode: ApprovalMode,
    pub reasoning_effort: Option<String>,
    pub cancel_requested: bool,
    pub error: Option<RunError>,
    pub message_ids: Vec<String>,
    pub message_steps: Vec<MessageStep>,
    pub created_at_ms: i64,
    pub started_at_ms: Option<i64>,
    pub finished_at_ms: Option<i64>,
}

/// The columns of a run as they are stored.
#[derive(Debug)]
pub struct RunColumns {
    pub run_id: String,
    pub session_id: String,
    pub input_id: String,
    pub attempt: i64,
    pub status: String,
    pub cancel_requested: i64,
    pub approval_mode: ApprovalMode,
    pub reasoning_effort: Option<String>,
    pub error_code: Option<String>,
    pub error_message: Option<String>,
    pub created_at_ms: i64,
    pub started_at_ms: Option<i64>,
    pub finished_at_ms: Option<i64>,
}

/// Some code has this text.
pub open spec fn names_error(text: Seq<char>) -> bool {
    exists|code: RuntimeErrorCode| text == #[trigger] error_code_text(code)
}

/// Some status has this text.
pub open spec fn names_status(text: Seq<char>) -> bool {
    exists|status: RunStatus| text == #[trigger] run_status_text(status)
}

/// Why stored columns do not make a run.
pub open spec fn columns_refusal(columns: RunColumns) -> Option<Refusal> {
    if columns.cancel_requested != 0 && columns.cancel_requested != 1 {
        Some(corrupt("stored run cancellation flag is invalid"@))
    } else if (columns.error_code is Some) != (columns.error_message is Some) {
        Some(corrupt("stored run error is incomplete"@))
    } else if columns.error_code is Some && !names_error(columns.error_code->0@) {
        Some(corrupt("stored run error code is invalid"@))
    } else if columns.attempt < 0 || columns.attempt > u32::MAX {
        Some(corrupt("stored run attempt is invalid"@))
    } else if !names_status(columns.status@) {
        Some(corrupt("stored run status is invalid"@))
    } else {
        None
    }
}

/// The run that stored columns make.
pub open spec fn is_run_of(columns: RunColumns, row: RunRow) -> bool {
    &&& row.run_id == columns.run_id
    &&& row.session_id == columns.session_id
    &&& row.input_id == columns.input_id
    &&& row.attempt == columns.attempt
    &&& run_status_text(row.status) == columns.status@
    &&& row.cancel_requested == (columns.cancel_requested == 1)
    &&& row.approval_mode == columns.approval_mode
    &&& row.reasoning_effort == columns.reasoning_effort
    &&& match row.error {
        Some(error) => columns.error_code is Some && error_code_text(error.code)
            == columns.error_code->0@ && Some(error.message) == columns.error_message,
        None => columns.error_code is None,
    }
    &&& row.created_at_ms == columns.created_at_ms
    &&& row.started_at_ms == columns.started_at_ms
    &&& row.finished_at_ms == columns.finished_at_ms
}

/// Reads a run from its columns.
pub fn decode_run(columns: RunColumns) -> (result: StorageResult<RunRow>)
    ensures
        match columns_refusal(columns) {
            Some(error) => result is Err && result->Err_0@ == error,
            None => result is Ok && is_run_of(columns, result->Ok_0),
        },
{
    if columns.cancel_requested != 0 && columns.cancel_requested != 1 {
        return Err(invalid_data("stored run cancellation flag is invalid"));
    }
    let error = match (columns.error_code, columns.error_message) {
        (None, None) => None,
        (Some(code), Some(message)) => match parse_error_code(code.as_str()) {
            Ok(value) => {
                assert(names_error(code@));
                Some(RunError { code: value, message })
            },
            Err(error) => {
                return Err(error);
            },
        },
        _ => {
            return Err(invalid_data("stored run error is incomplete"));
        },
    };
    if columns.attempt < 0 || columns.attempt > u32::MAX as i64 {
        return Err(invalid_data("stored run attempt is invalid"));
    }
    let status = match parse_run_status(columns.status.as_str()) {
        Ok(status) => {
            assert(names_status(columns.status@));
            status
        },
        Err(error) => {
            return Err(error);
        },
    };
    Ok(
        RunRow {
            run_id: columns.run_id,
            session_id: columns.session_id,
            input_id: columns.input_id,
            attempt: columns.attempt as u32,
            status,
            cancel_requested: columns.cancel_requested == 1,
            approval_mode: columns.approval_mode,
            reasoning_effort: columns.reasoning_effort,
            error,
            created_at_ms: columns.created_at_ms,
            started_at_ms: columns.started_at_ms,
            finished_at_ms: columns.finished_at_ms,
        },
    )
}

/// The condition of being a reference of a run.
pub open spec fn is_ref_of(run_id: Seq<char>) -> spec_fn(RunMessageRef) -> bool {
    |row: RunMessageRef| row.run_id@ == run_id
}

/// The messages that references lead to, in the order they were recorded.
pub open spec fn ref_ids(refs: Seq<RunMessageRef>) -> Seq<String> {
    refs.map_values(|row: RunMessageRef| row.message_id)
}

/// The steps that references know.
pub open spec fn ref_steps(refs: Seq<RunMessageRef>) -> Seq<MessageStep>
    decreases refs.len(),
{
    if refs.len() == 0 {
        Seq::empty()
    } else {
        let earlier = ref_steps(refs.drop_last());
        match refs.last().step {
            Some(step) => earlier.push(
                MessageStep { message_id: refs.last().message_id, step },
            ),
            None => earlier,
        }
    }
}

/// A run as the runtime sees it.
pub open spec fn shows(engine: StorageEngine, row: RunRow, run: StoredRun) -> bool {
    let input = first(engine.inputs@, has_input_id(row.input_id@));
    let refs = kept(engine.run_message_refs@, is_ref_of(row.run_id@));
    &&& input is Some
    &&& run.run_id == row.run_id
    &&& run.session_id == row.session_id
    &&& run.input_id == row.input_id
    &&& run.attempt == row.attempt
    &&& run.status == row.status
    &&& run.agent_variant == engine.inputs@[input->0].agent_variant
    &&& run.approval_mode == row.approval_mode
    &&& run.reasoning_effort == row.reasoning_effort
    &&& run.cancel_requested == row.cancel_requested
    &&& run.error == row.error
    &&& run.message_ids@ == ref_ids(refs)
    &&& run.message_steps@ == ref_steps(refs)
    &&& run.created_at_ms == row.created_at_ms
    &&& run.started_at_ms == row.started_at_ms
    &&& run.finished_at_ms == row.finished_at_ms
}

/// The condition of being a run, of one session or of any, whose input is there.
pub open spec fn is_shown(engine: StorageEngine, scope: Option<String>) -> spec_fn(RunRow) -> bool {
    |row: RunRow|
        some_row(engine.inputs@, has_input_id(row.input_id@)) && (scope is None
            || row.session_id@ == scope->0@)
}

/// What runs are ordered by.
pub open spec fn run_keys(rows: Seq<RunRow>) -> Seq<SortKey> {
    rows.map_values(|row: RunRow| SortKey { rank: 0, time: row.created_at_ms, id: row.run_id })
}

/// Runs as the runtime sees them, earlier ones first.
pub open spec fn runs_listed(
    engine: StorageEngine,
    rows: Seq<RunRow>,
    order: Seq<usize>,
    list: Seq<StoredRun>,
) -> bool {
    &&& is_order(run_keys(rows), order)
    &&& list.len() == rows.len()
    &&& forall|k: int|
        0 <= k < list.len() ==> shows(engine, rows[order[k] as int], #[trigger] list[k])
}

impl StorageEngine {
    /// A run as the runtime sees it, where its input is there.
    pub fn show_run(&self, row: &RunRow) -> (run: Option<StoredRun>)
        ensures
            match run {
                Some(run) => shows(*self, *row, run) && some_row(
                    self.inputs@,
                    has_input_id(row.input_id@),
                ),
                None => !some_row(self.inputs@, has_input_id(row.input_id@)),
            },
    {
        proof {
            first_is_found(self.inputs@, has_input_id(row.input_id@));
        }
        let input: usize = match self.input_place(&row.input_id) {
            Some(place) => place,
            None => {
                return None;
            },
        };
        let mut message_ids: Vec<String> = Vec::new();
        let mut message_steps: Vec<MessageStep> = Vec::new();
        let ghost condition = is_ref_of(row.run_id@);
        let ghost mut refs: Seq<RunMessageRef> = Seq::empty();
        let mut i: usize = 0;
        proof {
            assert(self.run_message_refs@.take(0) =~= Seq::empty());
            assert(refs =~= kept(self.run_message_refs@.take(0), condition));
            assert(message_ids@ =~= ref_ids(refs));
        }
        while i < self.run_message_refs.len()
            invariant
                i <= self.run_message_refs@.len(),
                condition == is_ref_of(row.run_id@),
                refs == kept(self.run_message_refs@.take(i as int), condition),
                message_ids@ == ref_ids(refs),
                message_steps@ == ref_steps(refs),
            decreases self.run_message_refs@.len() - i,
        {
            let reference = &self.run_message_refs[i];
            let ghost before = refs;
            proof {
                let longer = self.run_message_refs@.take(i + 1);
                assert(longer.drop_last() =~= self.run_message_refs@.take(i as int));
                assert(longer.last() == *reference);
                if reference.run_id@ == row.run_id@ {
                    refs = refs.push(*reference);
                    assert(refs.drop_last() =~= before);
                }
            }
            if reference.run_id == row.run_id {
                message_ids.push(reference.message_id.clone());
                proof {
                    assert(message_ids@ =~= ref_ids(refs));
                }
                match reference.step {
                    Some(step) => message_steps.push(
                        MessageStep { message_id: reference.message_id.clone(), step },
                    ),
                    None => {},
                }
            }
            i += 1;
        }
        proof {
            assert(self.run_message_refs@.take(self.run_message_refs@.len() as int)
                =~= self.run_message_refs@);
        }
        Some(
            StoredRun {
                run_id: row.run_id.clone(),
                session_id: row.session_id.clone(),
                input_id: row.input_id.clone(),
                attempt: row.attempt,
                status: row.status,
                agent_variant: self.inputs[input].agent_variant,
                approval_mode: row.approval_mode,
                reasoning_effort: row.reasoning_effort.clone(),
                cancel_requested: row.cancel_requested,
                error: match &row.error {
                    Some(error) => Some(error.copy()),
                    None => None,
                },
                message_ids,
                message_steps,
                created_at_ms: row.created_at_ms,
                started_at_ms: row.started_at_ms,
                finished_at_ms: row.finished_at_ms,
            },
        )
    }

    /// The runs of one session, or of all, earlier ones first.
    pub fn load_runs(&self, scope: &Option<String>) -> (list: Vec<StoredRun>)
        ensures
            exists|order: Seq<usize>| #[trigger]
                runs_listed(*self, kept(self.runs@, is_shown(*self, *scope)), order, list@),
    {
        let ghost condition = is_shown(*self, *scope);
        let mut rows: Vec<RunRow> = Vec::new();
        let mut keys: Vec<SortKey> = Vec::new();
        let mut i: usize = 0;
        proof {
            assert(self.runs@.take(0) =~= Seq::empty());
        }
        while i < self.runs.len()
            invariant
                i <= self.runs@.len(),
                condition == is_shown(*self, *scope),
                rows@ == kept(self.runs@.take(i as int), condition),
                keys@ =~= run_keys(rows@),
            decreases self.runs@.len() - i,
        {
            let row = &self.runs[i];
            proof {
                let longer = self.runs@.take(i + 1);
                assert(longer.drop_last() =~= self.runs@.take(i as int));
                assert(longer.last() == *row);
                first_is_found(self.inputs@, has_input_id(row.input_id@));
            }
            let inside = match scope {
                None => true,
                Some(session_id) => row.session_id == *session_id,
            };
            if inside && self.input_place(&row.input_id).is_some() {
                rows.push(row.copy());
                keys.push(SortKey { rank: 0, time: row.created_at_ms, id: row.run_id.clone() });
            }
            i += 1;
        }
        proof {
            assert(self.runs@.take(self.runs@.len() as int) =~= self.runs@);
            kept_rows(self.runs@, condition);
        }
        let order = ordered(&keys);
        let mut list: Vec<StoredRun> = Vec::new();
        let mut k: usize = 0;
        while k < order.len()
            invariant
                k <= order@.len(),
                list@.len() == k,
                condition == is_shown(*self, *scope),
                is_order(run_keys(rows@), order@),
                forall|j: int| 0 <= j < rows@.len() ==> condition(#[trigger] rows@[j]),
                forall|j: int|
                    0 <= j < k ==> shows(*self, rows@[order@[j] as int], #[trigger] list@[j]),
            decreases order@.len() - k,
        {
            let row = &rows[order[k]];
            assert(condition(rows@[order@[k as int] as int]));
            match self.show_run(row) {
                Some(run) => list.push(run),
                None => {},
            }
            k += 1;
        }
        proof {
            assert(runs_listed(*self, rows@, order@, list@));
        }
        list
    }
}

} // verus!
