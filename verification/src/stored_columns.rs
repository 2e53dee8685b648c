//! Announced appends and pending exchanges from their columns.

use std::sync::Arc;
use vstd::prelude::*;

use crate::append_effect::{AppendPurpose, ConversationStorageTarget, StagedAppend};
use crate::conversation::RecordedMessage;
use crate::error::{corrupt, invalid_data, Refusal, StorageResult};
use crate::numbers::{non_negative, positive};
use crate::rows::{PendingState, SessionRole};
use crate::session_summaries::role_in;
use crate::text::same_text;
use crate::tool_exchange::{PendingExchange, PendingTarget, ReadyExchange};

verus! {

/// The columns of an announced append as they are stored.
#[derive(Debug)]
pub struct AppendColumns {
    pub operation_id: String,
    pub target: ConversationStorageTarget,
    pub body_generation: i64,
    pub base_byte_length: i64,
    pub payload: Vec<u8>,
    pub message_count_delta: i64,
    pub message_step: Option<u32>,
    pub created_at_ms: i64,
    pub purpose: Arc<AppendPurpose>,
}

/// The columns of a pending exchange as they are stored.
#[derive(Debug)]
pub struct ExchangeColumns {
    pub receipt_id: String,
    pub target: PendingTarget,
    pub assistant: Arc<RecordedMessage>,
    pub ready: Option<Arc<ReadyExchange>>,
    pub state: String,
    pub step: Option<u32>,
    pub created_at_ms: i64,
}

/// Why columns make no announced append.
pub open spec fn append_columns_refusal(columns: AppendColumns) -> Option<Refusal> {
    if columns.body_generation <= 0 {
        Some(corrupt("staged append generation is invalid"@))
    } else if columns.base_byte_length < 0 {
        Some(corrupt("staged append base length is invalid"@))
    } else if columns.message_count_delta <= 0 {
        Some(corrupt("staged append message count is invalid"@))
    } else {
        None
    }
}

/// The announced append that columns make.
pub open spec fn append_in(columns: AppendColumns) -> StagedAppend {
    StagedAppend {
        operation_id: columns.operation_id,
        target: columns.target,
        body_generation: columns.body_generation as u64,
        base_byte_length: columns.base_byte_length as u64,
        payload: columns.payload,
        message_count_delta: columns.message_count_delta as u64,
        message_step: columns.message_step,
        created_at_ms: columns.created_at_ms,
        purpose: columns.purpose,
    }
}

/// Reads an announced append from its columns.
pub fn decode_staged_append(columns: AppendColumns) -> (result: StorageResult<StagedAppend>)
    ensures
        match append_columns_refusal(columns) {
            Some(error) => result is Err && result->Err_0@ == error,
            None => result is Ok && result->Ok_0 == append_in(columns),
        },
{
    let body_generation: u64 = match positive(
        columns.body_generation,
        "staged append generation is invalid",
    ) {
        Ok(value) => value,
        Err(error) => {
            return Err(error);
        },
    };
    let base_byte_length: u64 = match non_negative(
        columns.base_byte_length,
        "staged append base length is invalid",
    ) {
        Ok(value) => value,
        Err(error) => {
            return Err(error);
        },
    };
    let message_count_delta: u64 = match positive(
        columns.message_count_delta,
        "staged append message count is invalid",
    ) {
        Ok(value) => value,
        Err(error) => {
            return Err(error);
        },
    };
    Ok(
        StagedAppend {
            operation_id: columns.operation_id,
            target: columns.target,
            body_generation,
            base_byte_length,
            payload: columns.payload,
            message_count_delta,
            message_step: columns.message_step,
            created_at_ms: columns.created_at_ms,
            purpose: columns.purpose,
        },
    )
}

/// The text of a state.
pub open spec fn pending_state_text(state: PendingState) -> Seq<char> {
    match state {
        PendingState::Begun => "begun"@,
        PendingState::Ready => "ready"@,
    }
}

/// What the text of a state stands for.
pub open spec fn pending_state_in(text: Seq<char>) -> Option<PendingState> {
    if text == "begun"@ {
        Some(PendingState::Begun)
    } else if text == "ready"@ {
        Some(PendingState::Ready)
    } else {
        None
    }
}

/// The text of a state.
pub fn pending_state_value(state: PendingState) -> (text: &'static str)
    ensures
        text@ == pending_state_text(state),
{
    match state {
        PendingState::Begun => "begun",
        PendingState::Ready => "ready",
    }
}

/// Reads a pending exchange from its columns.
pub fn decode_pending_exchange(columns: ExchangeColumns) -> (result: StorageResult<PendingExchange>)
    ensures
        match pending_state_in(columns.state@) {
            Some(state) => result is Ok && result->Ok_0 == (PendingExchange {
                receipt_id: columns.receipt_id,
                target: columns.target,
                assistant: columns.assistant,
                ready: columns.ready,
                state,
                step: columns.step,
                created_at_ms: columns.created_at_ms,
            }),
            None => result is Err && result->Err_0@ == corrupt(
                "pending tool exchange state is invalid"@,
            ),
        },
{
    let state = if same_text(columns.state.as_str(), "begun") {
        PendingState::Begun
    } else if same_text(columns.state.as_str(), "ready") {
        PendingState::Ready
    } else {
        return Err(invalid_data("pending tool exchange state is invalid"));
    };
    Ok(
        PendingExchange {
            receipt_id: columns.receipt_id,
            target: columns.target,
            assistant: columns.assistant,
            ready: columns.ready,
            state,
            step: columns.step,
            created_at_ms: columns.created_at_ms,
        },
    )
}

/// The text of a role.
pub open spec fn role_text(role: SessionRole) -> Seq<char> {
    match role {
        SessionRole::Standard => "standard"@,
        SessionRole::Controller => "controller"@,
    }
}

/// The text of a role.
pub fn role_value(role: SessionRole) -> (text: &'static str)
    ensures
        text@ == role_text(role),
{
    match role {
        SessionRole::Standard => "standard",
        SessionRole::Controller => "controller",
    }
}

/// States and roles are read back from their texts.
pub proof fn stored_texts_are_read_back(state: PendingState, role: SessionRole)
    ensures
        pending_state_in(pending_state_text(state)) == Some(state),
        role_in(role_text(role)) == Some(role),
{
    reveal_strlit("begun");
    reveal_strlit("ready");
    reveal_strlit("standard");
    reveal_strlit("controller");
    assert("begun"@[0] != "ready"@[0]);
    assert("standard"@[0] != "controller"@[0]);
}

} // verus!
