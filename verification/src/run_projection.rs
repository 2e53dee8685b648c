//! Run rows, and the texts that stand for their values.

use vstd::prelude::*;

use crate::error::{corrupt, invalid_data, StorageResult, StoreError};
use crate::text::same_text;

verus! {

/// How far a run has come.
#[derive(Clone, Copy, Debug, PartialEq, Eq, Structural)]
pub enum RunStatus {
    Accepted,
    Running,
    Cancelling,
    Completed,
    Failed,
    Cancelled,
    Interrupted,
    CompactionRequired,
}

/// The text that stands for the status of a run in a table.
pub open spec fn run_status_text(value: RunStatus) -> Seq<char> {
    match value {
        RunStatus::Accepted => "accepted"@,
        RunStatus::Running => "running"@,
        RunStatus::Cancelling => "cancelling"@,
        RunStatus::Completed => "completed"@,
        RunStatus::Failed => "failed"@,
        RunStatus::Cancelled => "cancelled"@,
        RunStatus::Interrupted => "interrupted"@,
        RunStatus::CompactionRequired => "compaction_required"@,
    }
}

/// The text that stands for the status of a run in a table.
pub fn run_status_value(value: RunStatus) -> (text: &'static str)
    ensures
        text@ == run_status_text(value),
{
    match value {
        RunStatus::Accepted => "accepted",
        RunStatus::Running => "running",
        RunStatus::Cancelling => "cancelling",
        RunStatus::Completed => "completed",
        RunStatus::Failed => "failed",
        RunStatus::Cancelled => "cancelled",
        RunStatus::Interrupted => "interrupted",
        RunStatus::CompactionRequired => "compaction_required",
    }
}

/// Reads the text that stands for the status of a run; any other text is corrupt.
pub fn parse_run_status(text: &str) -> (result: StorageResult<RunStatus>)
    ensures
        match result {
            Ok(value) => text@ == run_status_text(value),
            Err(error) => {
                &&& forall|value: RunStatus| text@ != #[trigger] run_status_text(value)
                &&& error@ == corrupt("stored run status is invalid"@)
            },
        },
        forall|value: RunStatus|
            text@ == #[trigger] run_status_text(value) ==> result == Ok::<_, StoreError>(value),
{
    proof {
        assert forall|value: RunStatus, other: RunStatus|
            #[trigger] run_status_text(value) == #[trigger] run_status_text(other) implies value == other by {
            run_status_texts_are_distinct(value, other);
        }
    }
    if same_text(text, "accepted") {
        assert(text@ == run_status_text(RunStatus::Accepted));
        return Ok(RunStatus::Accepted);
    }
    if same_text(text, "running") {
        assert(text@ == run_status_text(RunStatus::Running));
        return Ok(RunStatus::Running);
    }
    if same_text(text, "cancelling") {
        assert(text@ == run_status_text(RunStatus::Cancelling));
        return Ok(RunStatus::Cancelling);
    }
    if same_text(text, "completed") {
        assert(text@ == run_status_text(RunStatus::Completed));
        return Ok(RunStatus::Completed);
    }
    if same_text(text, "failed") {
        assert(text@ == run_status_text(RunStatus::Failed));
        return Ok(RunStatus::Failed);
    }
    if same_text(text, "cancelled") {
        assert(text@ == run_status_text(RunStatus::Cancelled));
        return Ok(RunStatus::Cancelled);
    }
    if same_text(text, "interrupted") {
        assert(text@ == run_status_text(RunStatus::Interrupted));
        return Ok(RunStatus::Interrupted);
    }
    if same_text(text, "compaction_required") {
        assert(text@ == run_status_text(RunStatus::CompactionRequired));
        return Ok(RunStatus::CompactionRequired);
    }
    Err(invalid_data("stored run status is invalid"))
}

spec fn status_mark(text: Seq<char>) -> (int,char) {
    (text.len() as int, text[1])
}

/// No two texts for the status of a run are the same.
pub proof fn run_status_texts_are_distinct(left: RunStatus, right: RunStatus)
    requires
        run_status_text(left) == run_status_text(right),
    ensures
        left == right,
{
    run_status_texts_are_distinct_by_mark(left);
    run_status_texts_are_distinct_by_mark(right);
}

spec fn status_mark_of(value: RunStatus) -> (int,char) {
    match value {
        RunStatus::Accepted => (8int, 'c'),
        RunStatus::Running => (7int, 'u'),
        RunStatus::Cancelling => (10int, 'a'),
        RunStatus::Completed => (9int, 'o'),
        RunStatus::Failed => (6int, 'a'),
        RunStatus::Cancelled => (9int, 'a'),
        RunStatus::Interrupted => (11int, 'n'),
        RunStatus::CompactionRequired => (19int, 'o'),
    }
}

proof fn run_status_texts_are_distinct_by_mark(value: RunStatus)
    ensures
        status_mark(run_status_text(value)) == status_mark_of(value),
{
    match value {
        RunStatus::Accepted => {
            reveal_strlit("accepted");
        },
        RunStatus::Running => {
            reveal_strlit("running");
        },
        RunStatus::Cancelling => {
            reveal_strlit("cancelling");
        },
        RunStatus::Completed => {
            reveal_strlit("completed");
        },
        RunStatus::Failed => {
            reveal_strlit("failed");
        },
        RunStatus::Cancelled => {
            reveal_strlit("cancelled");
        },
        RunStatus::Interrupted => {
            reveal_strlit("interrupted");
        },
        RunStatus::CompactionRequired => {
            reveal_strlit("compaction_required");
        },
    }
}

/// Why a request or a run failed.
#[derive(Clone, Copy, Debug, PartialEq, Eq, Structural)]
pub enum RuntimeErrorCode {
    InvalidRequest,
    SessionNotFound,
    SessionBusy,
    SessionArchived,
    SessionNotIdle,
    RunNotFound,
    ChildTaskNotFound,
    InputNotFound,
    RunNotRetryable,
    StorageUnavailable,
    RuntimeShuttingDown,
    AgentBuildFailed,
    ConfigurationUnavailable,
    ModelNotFound,
    ModelUnavailable,
    ModelBuildFailed,
    ModelExecutionFailed,
    ContextCompactionFailed,
    Timeout,
    Cancelled,
    WorkspaceNotFound,
    WorkspaceRemoved,
    WorkspaceUnavailable,
    AttachmentNotFound,
    AttachmentUnavailable,
    AttachmentTooLarge,
    AttachmentUploadInvalid,
    PermissionFileInvalid,
    PermissionFileConflict,
    PermissionReloadFailed,
    PermissionPersistenceFailed,
    ApprovalNotFound,
    ApprovalExpired,
    ApprovalNotHead,
    ApprovalAlreadyResolved,
    PermissionScopeUnavailable,
    Conflict,
    ConfigurationConflict,
    QueueConflict,
    SnapshotStale,
    SnapshotBusy,
    OperationNotAllowed,
    ResourceNotPreviewable,
    ResourceTooLarge,
    Internal,
}

/// The text that stands for an error code in a table.
pub open spec fn error_code_text(value: RuntimeErrorCode) -> Seq<char> {
    match value {
        RuntimeErrorCode::InvalidRequest => "invalid_request"@,
        RuntimeErrorCode::SessionNotFound => "session_not_found"@,
        RuntimeErrorCode::SessionBusy => "session_busy"@,
        RuntimeErrorCode::SessionArchived => "session_archived"@,
        RuntimeErrorCode::SessionNotIdle => "session_not_idle"@,
        RuntimeErrorCode::RunNotFound => "run_not_found"@,
        RuntimeErrorCode::ChildTaskNotFound => "child_task_not_found"@,
        RuntimeErrorCode::InputNotFound => "input_not_found"@,
        RuntimeErrorCode::RunNotRetryable => "run_not_retryable"@,
        RuntimeErrorCode::StorageUnavailable => "storage_unavailable"@,
        RuntimeErrorCode::RuntimeShuttingDown => "runtime_shutting_down"@,
        RuntimeErrorCode::AgentBuildFailed => "agent_build_failed"@,
        RuntimeErrorCode::ConfigurationUnavailable => "configuration_unavailable"@,
        RuntimeErrorCode::ModelNotFound => "model_not_found"@,
        RuntimeErrorCode::ModelUnavailable => "model_unavailable"@,
        RuntimeErrorCode::ModelBuildFailed => "model_build_failed"@,
        RuntimeErrorCode::ModelExecutionFailed => "model_execution_failed"@,
        RuntimeErrorCode::ContextCompactionFailed => "context_compaction_failed"@,
        RuntimeErrorCode::Timeout => "timeout"@,
        RuntimeErrorCode::Cancelled => "cancelled"@,
        RuntimeErrorCode::WorkspaceNotFound => "workspace_not_found"@,
        RuntimeErrorCode::WorkspaceRemoved => "workspace_removed"@,
        RuntimeErrorCode::WorkspaceUnavailable => "workspace_unavailable"@,
        RuntimeErrorCode::AttachmentNotFound => "attachment_not_found"@,
        RuntimeErrorCode::AttachmentUnavailable => "attachment_unavailable"@,
        RuntimeErrorCode::AttachmentTooLarge => "attachment_too_large"@,
        RuntimeErrorCode::AttachmentUploadInvalid => "attachment_upload_invalid"@,
        RuntimeErrorCode::PermissionFileInvalid => "permission_file_invalid"@,
        RuntimeErrorCode::PermissionFileConflict => "permission_file_conflict"@,
        RuntimeErrorCode::PermissionReloadFailed => "permission_reload_failed"@,
        RuntimeErrorCode::PermissionPersistenceFailed => "permission_persistence_failed"@,
        RuntimeErrorCode::ApprovalNotFound => "approval_not_found"@,
        RuntimeErrorCode::ApprovalExpired => "approval_expired"@,
        RuntimeErrorCode::ApprovalNotHead => "approval_not_head"@,
        RuntimeErrorCode::ApprovalAlreadyResolved => "approval_already_resolved"@,
        RuntimeErrorCode::PermissionScopeUnavailable => "permission_scope_unavailable"@,
        RuntimeErrorCode::Conflict => "conflict"@,
        RuntimeErrorCode::ConfigurationConflict => "configuration_conflict"@,
        RuntimeErrorCode::QueueConflict => "queue_conflict"@,
        RuntimeErrorCode::SnapshotStale => "snapshot_stale"@,
        RuntimeErrorCode::SnapshotBusy => "snapshot_busy"@,
        RuntimeErrorCode::OperationNotAllowed => "operation_not_allowed"@,
        RuntimeErrorCode::ResourceNotPreviewable => "resource_not_previewable"@,
        RuntimeErrorCode::ResourceTooLarge => "resource_too_large"@,
        RuntimeErrorCode::Internal => "internal"@,
    }
}

/// The text that stands for an error code in a table.
pub fn error_code_value(value: RuntimeErrorCode) -> (text: &'static str)
    ensures
        text@ == error_code_text(value),
{
    match value {
        RuntimeErrorCode::InvalidRequest => "invalid_request",
        RuntimeErrorCode::SessionNotFound => "session_not_found",
        RuntimeErrorCode::SessionBusy => "session_busy",
        RuntimeErrorCode::SessionArchived => "session_archived",
        RuntimeErrorCode::SessionNotIdle => "session_not_idle",
        RuntimeErrorCode::RunNotFound => "run_not_found",
        RuntimeErrorCode::ChildTaskNotFound => "child_task_not_found",
        RuntimeErrorCode::InputNotFound => "input_not_found",
        RuntimeErrorCode::RunNotRetryable => "run_not_retryable",
        RuntimeErrorCode::StorageUnavailable => "storage_unavailable",
        RuntimeErrorCode::RuntimeShuttingDown => "runtime_shutting_down",
        RuntimeErrorCode::AgentBuildFailed => "agent_build_failed",
        RuntimeErrorCode::ConfigurationUnavailable => "configuration_unavailable",
        RuntimeErrorCode::ModelNotFound => "model_not_found",
        RuntimeErrorCode::ModelUnavailable => "model_unavailable",
        RuntimeErrorCode::ModelBuildFailed => "model_build_failed",
        RuntimeErrorCode::ModelExecutionFailed => "model_execution_failed",
        RuntimeErrorCode::ContextCompactionFailed => "context_compaction_failed",
        RuntimeErrorCode::Timeout => "timeout",
        RuntimeErrorCode::Cancelled => "cancelled",
        RuntimeErrorCode::WorkspaceNotFound => "workspace_not_found",
        RuntimeErrorCode::WorkspaceRemoved => "workspace_removed",
        RuntimeErrorCode::WorkspaceUnavailable => "workspace_unavailable",
        RuntimeErrorCode::AttachmentNotFound => "attachment_not_found",
        RuntimeErrorCode::AttachmentUnavailable => "attachment_unavailable",
        RuntimeErrorCode::AttachmentTooLarge => "attachment_too_large",
        RuntimeErrorCode::AttachmentUploadInvalid => "attachment_upload_invalid",
        RuntimeErrorCode::PermissionFileInvalid => "permission_file_invalid",
        RuntimeErrorCode::PermissionFileConflict => "permission_file_conflict",
        RuntimeErrorCode::PermissionReloadFailed => "permission_reload_failed",
        RuntimeErrorCode::PermissionPersistenceFailed => "permission_persistence_failed",
        RuntimeErrorCode::ApprovalNotFound => "approval_not_found",
        RuntimeErrorCode::ApprovalExpired => "approval_expired",
        RuntimeErrorCode::ApprovalNotHead => "approval_not_head",
        RuntimeErrorCode::ApprovalAlreadyResolved => "approval_already_resolved",
        RuntimeErrorCode::PermissionScopeUnavailable => "permission_scope_unavailable",
        RuntimeErrorCode::Conflict => "conflict",
        RuntimeErrorCode::ConfigurationConflict => "configuration_conflict",
        RuntimeErrorCode::QueueConflict => "queue_conflict",
        RuntimeErrorCode::SnapshotStale => "snapshot_stale",
        RuntimeErrorCode::SnapshotBusy => "snapshot_busy",
        RuntimeErrorCode::OperationNotAllowed => "operation_not_allowed",
        RuntimeErrorCode::ResourceNotPreviewable => "resource_not_previewable",
        RuntimeErrorCode::ResourceTooLarge => "resource_too_large",
        RuntimeErrorCode::Internal => "internal",
    }
}

/// Reads the text that stands for an error code; any other text is corrupt.
pub fn parse_error_code(text: &str) -> (result: StorageResult<RuntimeErrorCode>)
    ensures
        match result {
            Ok(value) => text@ == error_code_text(value),
            Err(error) => {
                &&& forall|value: RuntimeErrorCode| text@ != #[trigger] error_code_text(value)
                &&& error@ == corrupt("stored run error code is invalid"@)
            },
        },
        forall|value: RuntimeErrorCode|
            text@ == #[trigger] error_code_text(value) ==> result == Ok::<_, StoreError>(value),
{
    proof {
        assert forall|value: RuntimeErrorCode, other: RuntimeErrorCode|
            #[trigger] error_code_text(value) == #[trigger] error_code_text(other) implies value == other by {
            error_code_texts_are_distinct(value, other);
        }
    }
    if same_text(text, "invalid_request") {
        assert(text@ == error_code_text(RuntimeErrorCode::InvalidRequest));
        return Ok(RuntimeErrorCode::InvalidRequest);
    }
    if same_text(text, "session_not_found") {
        assert(text@ == error_code_text(RuntimeErrorCode::SessionNotFound));
        return Ok(RuntimeErrorCode::SessionNotFound);
    }
    if same_text(text, "session_busy") {
        assert(text@ == error_code_text(RuntimeErrorCode::SessionBusy));
        return Ok(RuntimeErrorCode::SessionBusy);
    }
    if same_text(text, "session_archived") {
        assert(text@ == error_code_text(RuntimeErrorCode::SessionArchived));
        return Ok(RuntimeErrorCode::SessionArchived);
    }
    if same_text(text, "session_not_idle") {
        assert(text@ == error_code_text(RuntimeErrorCode::SessionNotIdle));
        return Ok(RuntimeErrorCode::SessionNotIdle);
    }
    if same_text(text, "run_not_found") {
        assert(text@ == error_code_text(RuntimeErrorCode::RunNotFound));
        return Ok(RuntimeErrorCode::RunNotFound);
    }
    if same_text(text, "child_task_not_found") {
        assert(text@ == error_code_text(RuntimeErrorCode::ChildTaskNotFound));
        return Ok(RuntimeErrorCode::ChildTaskNotFound);
    }
    if same_text(text, "input_not_found") {
        assert(text@ == error_code_text(RuntimeErrorCode::InputNotFound));
        return Ok(RuntimeErrorCode::InputNotFound);
    }
    if same_text(text, "run_not_retryable") {
        assert(text@ == error_code_text(RuntimeErrorCode::RunNotRetryable));
        return Ok(RuntimeErrorCode::RunNotRetryable);
    }
    if same_text(text, "storage_unavailable") {
        assert(text@ == error_code_text(RuntimeErrorCode::StorageUnavailable));
        return Ok(RuntimeErrorCode::StorageUnavailable);
    }
    if same_text(text, "runtime_shutting_down") {
        assert(text@ == error_code_text(RuntimeErrorCode::RuntimeShuttingDown));
        return Ok(RuntimeErrorCode::RuntimeShuttingDown);
    }
    if same_text(text, "agent_build_failed") {
        assert(text@ == error_code_text(RuntimeErrorCode::AgentBuildFailed));
        return Ok(RuntimeErrorCode::AgentBuildFailed);
    }
    if same_text(text, "configuration_unavailable") {
        assert(text@ == error_code_text(RuntimeErrorCode::ConfigurationUnavailable));
        return Ok(RuntimeErrorCode::ConfigurationUnavailable);
    }
    if same_text(text, "model_not_found") {
        assert(text@ == error_code_text(RuntimeErrorCode::ModelNotFound));
        return Ok(RuntimeErrorCode::ModelNotFound);
    }
    if same_text(text, "model_unavailable") {
        assert(text@ == error_code_text(RuntimeErrorCode::ModelUnavailable));
        return Ok(RuntimeErrorCode::ModelUnavailable);
    }
    if same_text(text, "model_build_failed") {
        assert(text@ == error_code_text(RuntimeErrorCode::ModelBuildFailed));
        return Ok(RuntimeErrorCode::ModelBuildFailed);
    }
    if same_text(text, "model_execution_failed") {
        assert(text@ == error_code_text(RuntimeErrorCode::ModelExecutionFailed));
        return Ok(RuntimeErrorCode::ModelExecutionFailed);
    }
    if same_text(text, "context_compaction_failed") {
        assert(text@ == error_code_text(RuntimeErrorCode::ContextCompactionFailed));
        return Ok(RuntimeErrorCode::ContextCompactionFailed);
    }
    if same_text(text, "timeout") {
        assert(text@ == error_code_text(RuntimeErrorCode::Timeout));
        return Ok(RuntimeErrorCode::Timeout);
    }
    if same_text(text, "cancelled") {
        assert(text@ == error_code_text(RuntimeErrorCode::Cancelled));
        return Ok(RuntimeErrorCode::Cancelled);
    }
    if same_text(text, "workspace_not_found") {
        assert(text@ == error_code_text(RuntimeErrorCode::WorkspaceNotFound));
        return Ok(RuntimeErrorCode::WorkspaceNotFound);
    }
    if same_text(text, "workspace_removed") {
        assert(text@ == error_code_text(RuntimeErrorCode::WorkspaceRemoved));
        return Ok(RuntimeErrorCode::WorkspaceRemoved);
    }
    if same_text(text, "workspace_unavailable") {
        assert(text@ == error_code_text(RuntimeErrorCode::WorkspaceUnavailable));
        return Ok(RuntimeErrorCode::WorkspaceUnavailable);
    }
    if same_text(text, "attachment_not_found") {
        assert(text@ == error_code_text(RuntimeErrorCode::AttachmentNotFound));
        return Ok(RuntimeErrorCode::AttachmentNotFound);
    }
    if same_text(text, "attachment_unavailable") {
        assert(text@ == error_code_text(RuntimeErrorCode::AttachmentUnavailable));
        return Ok(RuntimeErrorCode::AttachmentUnavailable);
    }
    if same_text(text, "attachment_too_large") {
        assert(text@ == error_code_text(RuntimeErrorCode::AttachmentTooLarge));
        return Ok(RuntimeErrorCode::AttachmentTooLarge);
    }
    if same_text(text, "attachment_upload_invalid") {
        assert(text@ == error_code_text(RuntimeErrorCode::AttachmentUploadInvalid));
        return Ok(RuntimeErrorCode::AttachmentUploadInvalid);
    }
    if same_text(text, "permission_file_invalid") {
        assert(text@ == error_code_text(RuntimeErrorCode::PermissionFileInvalid));
        return Ok(RuntimeErrorCode::PermissionFileInvalid);
    }
    if same_text(text, "permission_file_conflict") {
        assert(text@ == error_code_text(RuntimeErrorCode::PermissionFileConflict));
        return Ok(RuntimeErrorCode::PermissionFileConflict);
    }
    if same_text(text, "permission_reload_failed") {
        assert(text@ == error_code_text(RuntimeErrorCode::PermissionReloadFailed));
        return Ok(RuntimeErrorCode::PermissionReloadFailed);
    }
    if same_text(text, "permission_persistence_failed") {
        assert(text@ == error_code_text(RuntimeErrorCode::PermissionPersistenceFailed));
        return Ok(RuntimeErrorCode::PermissionPersistenceFailed);
    }
    if same_text(text, "approval_not_found") {
        assert(text@ == error_code_text(RuntimeErrorCode::ApprovalNotFound));
        return Ok(RuntimeErrorCode::ApprovalNotFound);
    }
    if same_text(text, "approval_expired") {
        assert(text@ == error_code_text(RuntimeErrorCode::ApprovalExpired));
        return Ok(RuntimeErrorCode::ApprovalExpired);
    }
    if same_text(text, "approval_not_head") {
        assert(text@ == error_code_text(RuntimeErrorCode::ApprovalNotHead));
        return Ok(RuntimeErrorCode::ApprovalNotHead);
    }
    if same_text(text, "approval_already_resolved") {
        assert(text@ == error_code_text(RuntimeErrorCode::ApprovalAlreadyResolved));
        return Ok(RuntimeErrorCode::ApprovalAlreadyResolved);
    }
    if same_text(text, "permission_scope_unavailable") {
        assert(text@ == error_code_text(RuntimeErrorCode::PermissionScopeUnavailable));
        return Ok(RuntimeErrorCode::PermissionScopeUnavailable);
    }
    if same_text(text, "conflict") {
        assert(text@ == error_code_text(RuntimeErrorCode::Conflict));
        return Ok(RuntimeErrorCode::Conflict);
    }
    if same_text(text, "configuration_conflict") {
        assert(text@ == error_code_text(RuntimeErrorCode::ConfigurationConflict));
        return Ok(RuntimeErrorCode::ConfigurationConflict);
    }
    if same_text(text, "queue_conflict") {
        assert(text@ == error_code_text(RuntimeErrorCode::QueueConflict));
        return Ok(RuntimeErrorCode::QueueConflict);
    }
    if same_text(text, "snapshot_stale") {
        assert(text@ == error_code_text(RuntimeErrorCode::SnapshotStale));
        return Ok(RuntimeErrorCode::SnapshotStale);
    }
    if same_text(text, "snapshot_busy") {
        assert(text@ == error_code_text(RuntimeErrorCode::SnapshotBusy));
        return Ok(RuntimeErrorCode::SnapshotBusy);
    }
    if same_text(text, "operation_not_allowed") {
        assert(text@ == error_code_text(RuntimeErrorCode::OperationNotAllowed));
        return Ok(RuntimeErrorCode::OperationNotAllowed);
    }
    if same_text(text, "resource_not_previewable") {
        assert(text@ == error_code_text(RuntimeErrorCode::ResourceNotPreviewable));
        return Ok(RuntimeErrorCode::ResourceNotPreviewable);
    }
    if same_text(text, "resource_too_large") {
        assert(text@ == error_code_text(RuntimeErrorCode::ResourceTooLarge));
        return Ok(RuntimeErrorCode::ResourceTooLarge);
    }
    if same_text(text, "internal") {
        assert(text@ == error_code_text(RuntimeErrorCode::Internal));
        return Ok(RuntimeErrorCode::Internal);
    }
    Err(invalid_data("stored run error code is invalid"))
}

spec fn code_mark(text: Seq<char>) -> (int,char,char) {
    (text.len() as int, text[0], text[text.len() - 2])
}

/// No two texts for an error code are the same.
pub proof fn error_code_texts_are_distinct(left: RuntimeErrorCode, right: RuntimeErrorCode)
    requires
        error_code_text(left) == error_code_text(right),
    ensures
        left == right,
{
    error_code_texts_are_distinct_by_mark(left);
    error_code_texts_are_distinct_by_mark(right);
}

spec fn code_mark_of(value: RuntimeErrorCode) -> (int,char,char) {
    match value {
        RuntimeErrorCode::InvalidRequest => (15int, 'i', 's'),
        RuntimeErrorCode::SessionNotFound => (17int, 's', 'n'),
        RuntimeErrorCode::SessionBusy => (12int, 's', 's'),
        RuntimeErrorCode::SessionArchived => (16int, 's', 'e'),
        RuntimeErrorCode::SessionNotIdle => (16int, 's', 'l'),
        RuntimeErrorCode::RunNotFound => (13int, 'r', 'n'),
        RuntimeErrorCode::ChildTaskNotFound => (20int, 'c', 'n'),
        RuntimeErrorCode::InputNotFound => (15int, 'i', 'n'),
        RuntimeErrorCode::RunNotRetryable => (17int, 'r', 'l'),
        RuntimeErrorCode::StorageUnavailable => (19int, 's', 'l'),
        RuntimeErrorCode::RuntimeShuttingDown => (21int, 'r', 'w'),
        RuntimeErrorCode::AgentBuildFailed => (18int, 'a', 'e'),
        RuntimeErrorCode::ConfigurationUnavailable => (25int, 'c', 'l'),
        RuntimeErrorCode::ModelNotFound => (15int, 'm', 'n'),
        RuntimeErrorCode::ModelUnavailable => (17int, 'm', 'l'),
        RuntimeErrorCode::ModelBuildFailed => (18int, 'm', 'e'),
        RuntimeErrorCode::ModelExecutionFailed => (22int, 'm', 'e'),
        RuntimeErrorCode::ContextCompactionFailed => (25int, 'c', 'e'),
        RuntimeErrorCode::Timeout => (7int, 't', 'u'),
        RuntimeErrorCode::Cancelled => (9int, 'c', 'e'),
        RuntimeErrorCode::WorkspaceNotFound => (19int, 'w', 'n'),
        RuntimeErrorCode::WorkspaceRemoved => (17int, 'w', 'e'),
        RuntimeErrorCode::WorkspaceUnavailable => (21int, 'w', 'l'),
        RuntimeErrorCode::AttachmentNotFound => (20int, 'a', 'n'),
        RuntimeErrorCode::AttachmentUnavailable => (22int, 'a', 'l'),
        RuntimeErrorCode::AttachmentTooLarge => (20int, 'a', 'g'),
        RuntimeErrorCode::AttachmentUploadInvalid => (25int, 'a', 'i'),
        RuntimeErrorCode::PermissionFileInvalid => (23int, 'p', 'i'),
        RuntimeErrorCode::PermissionFileConflict => (24int, 'p', 'c'),
        RuntimeErrorCode::PermissionReloadFailed => (24int, 'p', 'e'),
        RuntimeErrorCode::PermissionPersistenceFailed => (29int, 'p', 'e'),
        RuntimeErrorCode::ApprovalNotFound => (18int, 'a', 'n'),
        RuntimeErrorCode::ApprovalExpired => (16int, 'a', 'e'),
        RuntimeErrorCode::ApprovalNotHead => (17int, 'a', 'a'),
        RuntimeErrorCode::ApprovalAlreadyResolved => (25int, 'a', 'e'),
        RuntimeErrorCode::PermissionScopeUnavailable => (28int, 'p', 'l'),
        RuntimeErrorCode::Conflict => (8int, 'c', 'c'),
        RuntimeErrorCode::ConfigurationConflict => (22int, 'c', 'c'),
        RuntimeErrorCode::QueueConflict => (14int, 'q', 'c'),
        RuntimeErrorCode::SnapshotStale => (14int, 's', 'l'),
        RuntimeErrorCode::SnapshotBusy => (13int, 's', 's'),
        RuntimeErrorCode::OperationNotAllowed => (21int, 'o', 'e'),
        RuntimeErrorCode::ResourceNotPreviewable => (24int, 'r', 'l'),
        RuntimeErrorCode::ResourceTooLarge => (18int, 'r', 'g'),
        RuntimeErrorCode::Internal => (8int, 'i', 'a'),
    }
}

proof fn error_code_texts_are_distinct_by_mark(value: RuntimeErrorCode)
    ensures
        code_mark(error_code_text(value)) == code_mark_of(value),
{
    match value {
        RuntimeErrorCode::InvalidRequest => {
            reveal_strlit("invalid_request");
        },
        RuntimeErrorCode::SessionNotFound => {
            reveal_strlit("session_not_found");
        },
        RuntimeErrorCode::SessionBusy => {
            reveal_strlit("session_busy");
        },
        RuntimeErrorCode::SessionArchived => {
            reveal_strlit("session_archived");
        },
        RuntimeErrorCode::SessionNotIdle => {
            reveal_strlit("session_not_idle");
        },
        RuntimeErrorCode::RunNotFound => {
            reveal_strlit("run_not_found");
        },
        RuntimeErrorCode::ChildTaskNotFound => {
            reveal_strlit("child_task_not_found");
        },
        RuntimeErrorCode::InputNotFound => {
            reveal_strlit("input_not_found");
        },
        RuntimeErrorCode::RunNotRetryable => {
            reveal_strlit("run_not_retryable");
        },
        RuntimeErrorCode::StorageUnavailable => {
            reveal_strlit("storage_unavailable");
        },
        RuntimeErrorCode::RuntimeShuttingDown => {
            reveal_strlit("runtime_shutting_down");
        },
        RuntimeErrorCode::AgentBuildFailed => {
            reveal_strlit("agent_build_failed");
        },
        RuntimeErrorCode::ConfigurationUnavailable => {
            reveal_strlit("configuration_unavailable");
        },
        RuntimeErrorCode::ModelNotFound => {
            reveal_strlit("model_not_found");
        },
        RuntimeErrorCode::ModelUnavailable => {
            reveal_strlit("model_unavailable");
        },
        RuntimeErrorCode::ModelBuildFailed => {
            reveal_strlit("model_build_failed");
        },
        RuntimeErrorCode::ModelExecutionFailed => {
            reveal_strlit("model_execution_failed");
        },
        RuntimeErrorCode::ContextCompactionFailed => {
            reveal_strlit("context_compaction_failed");
        },
        RuntimeErrorCode::Timeout => {
            reveal_strlit("timeout");
        },
        RuntimeErrorCode::Cancelled => {
            reveal_strlit("cancelled");
        },
        RuntimeErrorCode::WorkspaceNotFound => {
            reveal_strlit("workspace_not_found");
        },
        RuntimeErrorCode::WorkspaceRemoved => {
            reveal_strlit("workspace_removed");
        },
        RuntimeErrorCode::WorkspaceUnavailable => {
            reveal_strlit("workspace_unavailable");
        },
        RuntimeErrorCode::AttachmentNotFound => {
            reveal_strlit("attachment_not_found");
        },
        RuntimeErrorCode::AttachmentUnavailable => {
            reveal_strlit("attachment_unavailable");
        },
        RuntimeErrorCode::AttachmentTooLarge => {
            reveal_strlit("attachment_too_large");
        },
        RuntimeErrorCode::AttachmentUploadInvalid => {
            reveal_strlit("attachment_upload_invalid");
        },
        RuntimeErrorCode::PermissionFileInvalid => {
            reveal_strlit("permission_file_invalid");
        },
        RuntimeErrorCode::PermissionFileConflict => {
            reveal_strlit("permission_file_conflict");
        },
        RuntimeErrorCode::PermissionReloadFailed => {
            reveal_strlit("permission_reload_failed");
        },
        RuntimeErrorCode::PermissionPersistenceFailed => {
            reveal_strlit("permission_persistence_failed");
        },
        RuntimeErrorCode::ApprovalNotFound => {
            reveal_strlit("approval_not_found");
        },
        RuntimeErrorCode::ApprovalExpired => {
            reveal_strlit("approval_expired");
        },
        RuntimeErrorCode::ApprovalNotHead => {
            reveal_strlit("approval_not_head");
        },
        RuntimeErrorCode::ApprovalAlreadyResolved => {
            reveal_strlit("approval_already_resolved");
        },
        RuntimeErrorCode::PermissionScopeUnavailable => {
            reveal_strlit("permission_scope_unavailable");
        },
        RuntimeErrorCode::Conflict => {
            reveal_strlit("conflict");
        },
        RuntimeErrorCode::ConfigurationConflict => {
            reveal_strlit("configuration_conflict");
        },
        RuntimeErrorCode::QueueConflict => {
            reveal_strlit("queue_conflict");
        },
        RuntimeErrorCode::SnapshotStale => {
            reveal_strlit("snapshot_stale");
        },
        RuntimeErrorCode::SnapshotBusy => {
            reveal_strlit("snapshot_busy");
        },
        RuntimeErrorCode::OperationNotAllowed => {
            reveal_strlit("operation_not_allowed");
        },
        RuntimeErrorCode::ResourceNotPreviewable => {
            reveal_strlit("resource_not_previewable");
        },
        RuntimeErrorCode::ResourceTooLarge => {
            reveal_strlit("resource_too_large");
        },
        RuntimeErrorCode::Internal => {
            reveal_strlit("internal");
        },
    }
}

} // verus!
