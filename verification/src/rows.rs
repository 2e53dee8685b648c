//! The rows that the engine keeps, and the requests that change them.

use std::sync::Arc;
use vstd::prelude::*;

use crate::conversation::RecordedMessage;
use crate::message::{share, TokenUsage};
use crate::run_projection::{RunStatus, RuntimeErrorCode};

verus! {

/// Who chose the title of a session.
#[derive(Clone, Copy, Debug, PartialEq, Eq, Structural)]
pub enum SessionTitleOrigin {
    Generated,
    User,
}

/// The way an agent works on an input.
#[derive(Clone, Copy, Debug, PartialEq, Eq, Structural)]
pub enum AgentVariant {
    Build,
    Plan,
}

/// Whether tools ask before they act.
#[derive(Clone, Copy, Debug, PartialEq, Eq, Structural)]
pub enum ApprovalMode {
    Ask,
    Auto,
}

/// What a session is for.
#[derive(Clone, Copy, Debug, PartialEq, Eq, Structural)]
pub enum SessionRole {
    Standard,
    Controller,
}

/// Whether a session takes part in work.
#[derive(Clone, Copy, Debug, PartialEq, Eq, Structural)]
pub enum SessionLifecycle {
    Active,
    Archived,
}

/// Whether a workspace takes new sessions.
#[derive(Clone, Copy, Debug, PartialEq, Eq, Structural)]
pub enum WorkspaceLifecycle {
    Active,
    Removed,
}

/// How far an input has come.
#[derive(Clone, Copy, Debug, PartialEq, Eq, Structural)]
pub enum InputState {
    Queued,
    Committed,
}

/// What an input is.
#[derive(Clone, Copy, Debug, PartialEq, Eq, Structural)]
pub enum InputKind {
    Message,
    Command,
}

/// Who submitted an input.
#[derive(Clone, Copy, Debug, PartialEq, Eq, Structural)]
pub enum InputOrigin {
    User,
    Runtime,
}

/// How far a delegated task has come.
#[derive(Clone, Copy, Debug, PartialEq, Eq, Structural)]
pub enum ChildTaskStatus {
    Accepted,
    Running,
    Completed,
    Failed,
    Cancelled,
    Interrupted,
}

/// What a user thinks of a message.
#[derive(Clone, Copy, Debug, PartialEq, Eq, Structural)]
pub enum MessageFeedback {
    Positive,
    Negative,
}

/// Whether the content of an attachment can be read.
#[derive(Clone, Copy, Debug, PartialEq, Eq, Structural)]
pub enum AttachmentState {
    Ready,
    Unavailable,
}

/// What a goal is doing.
#[derive(Clone, Copy, Debug, PartialEq, Eq, Structural)]
pub enum GoalState {
    Running,
    Paused,
    Completed,
}

/// Why a goal does not go on.
#[derive(Clone, Copy, Debug, PartialEq, Eq, Structural)]
pub enum GoalPauseReason {
    UserStopped,
    RecoveryRequired,
    Other,
}

/// How far a tool exchange has come: its calls are known, or its results too.
#[derive(Clone, Copy, Debug, PartialEq, Eq, Structural)]
pub enum PendingState {
    Begun,
    Ready,
}

/// A change of a whole conversation.
#[derive(Clone, Copy, Debug, PartialEq, Eq, Structural)]
pub enum HistoryKind {
    Clear,
    Compact,
}

/// How far a change of a whole conversation has come.
#[derive(Clone, Copy, Debug, PartialEq, Eq, Structural)]
pub enum HistoryState {
    Preparing,
    CleanupPending,
    Completed,
    NoOp,
    Cancelled,
    Interrupted,
}

/// Who activated a skill.
#[derive(Clone, Copy, Debug, PartialEq, Eq, Structural)]
pub enum SkillActivationTrigger {
    User,
    Model,
}

/// Why a model was asked.
#[derive(Clone, Copy, Debug, PartialEq, Eq, Structural)]
pub enum RequestKind {
    AgentTurn,
    ContextSummary,
    LegacyCompacted,
}

/// The controller that acts for a session.
#[derive(Debug, PartialEq, Eq)]
pub struct SessionProxy {
    pub controller_session_id: String,
    pub changed_at_ms: i64,
}

impl SessionProxy {
    /// The same value once more.
    pub fn copy(&self) -> (copy: SessionProxy)
        ensures
            copy == *self,
    {
        SessionProxy {
            controller_session_id: self.controller_session_id.clone(),
            changed_at_ms: self.changed_at_ms,
        }
    }
}

/// The skills that a session was offered, with the revision they were read at.
#[derive(Debug, PartialEq, Eq)]
pub struct SkillCatalog {
    pub revision: String,
    pub document: String,
}

impl SkillCatalog {
    /// The same value once more.
    pub fn copy(&self) -> (copy: SkillCatalog)
        ensures
            copy == *self,
    {
        SkillCatalog {
            revision: self.revision.clone(),
            document: self.document.clone(),
        }
    }
}

/// A session.
#[derive(Debug, PartialEq, Eq)]
pub struct SessionRow {
    pub session_id: String,
    pub title: String,
    pub title_origin: SessionTitleOrigin,
    pub automatic_title_pending: bool,
    pub model_key: String,
    pub reasoning_effort: Option<String>,
    pub system_prompt: String,
    pub skill_catalog: SkillCatalog,
    pub current_variant: AgentVariant,
    pub approval_mode: ApprovalMode,
    pub role: SessionRole,
    pub lifecycle: SessionLifecycle,
    pub body_generation: u64,
    pub message_count: u64,
    pub created_at_ms: i64,
    pub updated_at_ms: i64,
    pub archived_at_ms: Option<i64>,
    pub is_pinned: bool,
    pub materialization_key: Option<String>,
    pub proxy: Option<SessionProxy>,
    pub pc_output_device_id: Option<String>,
}

impl SessionRow {
    /// The same value once more.
    pub fn copy(&self) -> (copy: SessionRow)
        ensures
            copy == *self,
    {
        SessionRow {
            session_id: self.session_id.clone(),
            title: self.title.clone(),
            title_origin: self.title_origin,
            automatic_title_pending: self.automatic_title_pending,
            model_key: self.model_key.clone(),
            reasoning_effort: self.reasoning_effort.clone(),
            system_prompt: self.system_prompt.clone(),
            skill_catalog: self.skill_catalog.copy(),
            current_variant: self.current_variant,
            approval_mode: self.approval_mode,
            role: self.role,
            lifecycle: self.lifecycle,
            body_generation: self.body_generation,
            message_count: self.message_count,
            created_at_ms: self.created_at_ms,
            updated_at_ms: self.updated_at_ms,
            archived_at_ms: self.archived_at_ms,
            is_pinned: self.is_pinned,
            materialization_key: self.materialization_key.clone(),
            proxy: match &self.proxy {
                Some(value) => Some(value.copy()),
                None => None,
            },
            pc_output_device_id: self.pc_output_device_id.clone(),
        }
    }
}

/// The directories that a session was created with.
#[derive(Debug, PartialEq, Eq)]
pub struct SessionResources {
    pub session_id: String,
    pub workspace_id: Option<String>,
    pub working_directory: String,
    pub attachment_directory: String,
    pub private_directory: String,
    pub created_at_ms: i64,
}

impl SessionResources {
    /// The same value once more.
    pub fn copy(&self) -> (copy: SessionResources)
        ensures
            copy == *self,
    {
        SessionResources {
            session_id: self.session_id.clone(),
            workspace_id: self.workspace_id.clone(),
            working_directory: self.working_directory.clone(),
            attachment_directory: self.attachment_directory.clone(),
            private_directory: self.private_directory.clone(),
            created_at_ms: self.created_at_ms,
        }
    }
}

/// A directory of the user that sessions can be bound to.
#[derive(Debug, PartialEq, Eq)]
pub struct Workspace {
    pub workspace_id: String,
    pub user_directory: String,
    pub agent_directory: String,
    pub lifecycle: WorkspaceLifecycle,
}

impl Workspace {
    /// The same value once more.
    pub fn copy(&self) -> (copy: Workspace)
        ensures
            copy == *self,
    {
        Workspace {
            workspace_id: self.workspace_id.clone(),
            user_directory: self.user_directory.clone(),
            agent_directory: self.agent_directory.clone(),
            lifecycle: self.lifecycle,
        }
    }
}

/// A device that a session can send its output to.
#[derive(Debug, PartialEq, Eq)]
pub struct Device {
    pub device_id: String,
    pub display_name: String,
}

impl Device {
    /// The same value once more.
    pub fn copy(&self) -> (copy: Device)
        ensures
            copy == *self,
    {
        Device {
            device_id: self.device_id.clone(),
            display_name: self.display_name.clone(),
        }
    }
}

/// The turn of a goal that an input belongs to.
#[derive(Debug, PartialEq, Eq)]
pub struct GoalInputBinding {
    pub goal_id: String,
    pub generation: u64,
    pub turn: u64,
}

impl GoalInputBinding {
    /// The same value once more.
    pub fn copy(&self) -> (copy: GoalInputBinding)
        ensures
            copy == *self,
    {
        GoalInputBinding {
            goal_id: self.goal_id.clone(),
            generation: self.generation,
            turn: self.turn,
        }
    }
}

/// How an input came from another session.
#[derive(Debug, PartialEq, Eq)]
pub enum CrossSessionBinding {
    ControllerDelivery { controller_session_id: String },
    ProxyReport { source_session_id: String, source_run_id: String },
}

impl CrossSessionBinding {
    /// The same value once more.
    pub fn copy(&self) -> (copy: CrossSessionBinding)
        ensures
            copy == *self,
    {
        match self {
            CrossSessionBinding::ControllerDelivery { controller_session_id } => {
                CrossSessionBinding::ControllerDelivery {
                    controller_session_id: controller_session_id.clone(),
                }
            },
            CrossSessionBinding::ProxyReport { source_session_id, source_run_id } => {
                CrossSessionBinding::ProxyReport {
                    source_session_id: source_session_id.clone(),
                    source_run_id: source_run_id.clone(),
                }
            },
        }
    }
}

/// An input with its place in the queue.
#[derive(Debug, PartialEq, Eq)]
pub struct StoredInput {
    pub queue_order: i64,
    pub kind: InputKind,
    pub input_id: String,
    pub session_id: String,
    pub idempotency_key: Option<String>,
    pub agent_variant: AgentVariant,
    pub origin: InputOrigin,
    pub goal_binding: Option<GoalInputBinding>,
    pub cross_session: Option<CrossSessionBinding>,
    pub channel_source: Option<String>,
    pub user_message_id: String,
    pub state: InputState,
    pub queued_message: Option<Arc<RecordedMessage>>,
    pub accepted_at_ms: i64,
}

impl StoredInput {
    /// The same value once more.
    pub fn copy(&self) -> (copy: StoredInput)
        ensures
            copy == *self,
    {
        StoredInput {
            queue_order: self.queue_order,
            kind: self.kind,
            input_id: self.input_id.clone(),
            session_id: self.session_id.clone(),
            idempotency_key: self.idempotency_key.clone(),
            agent_variant: self.agent_variant,
            origin: self.origin,
            goal_binding: match &self.goal_binding {
                Some(value) => Some(value.copy()),
                None => None,
            },
            cross_session: match &self.cross_session {
                Some(value) => Some(value.copy()),
                None => None,
            },
            channel_source: self.channel_source.clone(),
            user_message_id: self.user_message_id.clone(),
            state: self.state,
            queued_message: match &self.queued_message {
                Some(value) => Some(share(value)),
                None => None,
            },
            accepted_at_ms: self.accepted_at_ms,
        }
    }
}

/// An input to be queued, with the run that will work on it.
#[derive(Debug, PartialEq, Eq)]
pub struct NewStoredInput {
    pub input_id: String,
    pub run_id: String,
    pub session_id: String,
    pub idempotency_key: Option<String>,
    pub agent_variant: AgentVariant,
    pub origin: InputOrigin,
    pub goal_binding: Option<GoalInputBinding>,
    pub cross_session: Option<CrossSessionBinding>,
    pub channel_source: Option<String>,
    pub approval_mode: ApprovalMode,
    pub message: Arc<RecordedMessage>,
    pub user_message_id: String,
    pub accepted_at_ms: i64,
}

/// Why a run ended early.
#[derive(Debug, PartialEq, Eq)]
pub struct RunError {
    pub code: RuntimeErrorCode,
    pub message: String,
}

impl RunError {
    /// The same value once more.
    pub fn copy(&self) -> (copy: RunError)
        ensures
            copy == *self,
    {
        RunError {
            code: self.code,
            message: self.message.clone(),
        }
    }
}

/// One attempt to work on an input.
#[derive(Debug, PartialEq, Eq)]
pub struct RunRow {
    pub run_id: String,
    pub session_id: String,
    pub input_id: String,
    pub attempt: u32,
    pub status: RunStatus,
    pub cancel_requested: bool,
    pub approval_mode: ApprovalMode,
    pub reasoning_effort: Option<String>,
    pub error: Option<RunError>,
    pub created_at_ms: i64,
    pub started_at_ms: Option<i64>,
    pub finished_at_ms: Option<i64>,
}

impl RunRow {
    /// The same value once more.
    pub fn copy(&self) -> (copy: RunRow)
        ensures
            copy == *self,
    {
        RunRow {
            run_id: self.run_id.clone(),
            session_id: self.session_id.clone(),
            input_id: self.input_id.clone(),
            attempt: self.attempt,
            status: self.status,
            cancel_requested: self.cancel_requested,
            approval_mode: self.approval_mode,
            reasoning_effort: self.reasoning_effort.clone(),
            error: match &self.error {
                Some(value) => Some(value.copy()),
                None => None,
            },
            created_at_ms: self.created_at_ms,
            started_at_ms: self.started_at_ms,
            finished_at_ms: self.finished_at_ms,
        }
    }
}

/// A message that a run recorded, with the step of the run.
#[derive(Debug, PartialEq, Eq)]
pub struct RunMessageRef {
    pub run_id: String,
    pub message_id: String,
    pub step: Option<u32>,
}

impl RunMessageRef {
    /// The same value once more.
    pub fn copy(&self) -> (copy: RunMessageRef)
        ensures
            copy == *self,
    {
        RunMessageRef {
            run_id: self.run_id.clone(),
            message_id: self.message_id.clone(),
            step: self.step,
        }
    }
}

/// A task that a run delegated, with a conversation of its own.
#[derive(Debug, PartialEq, Eq)]
pub struct ChildTaskRow {
    pub child_task_id: String,
    pub session_id: String,
    pub parent_run_id: String,
    pub parent_tool_call_id: String,
    pub status: ChildTaskStatus,
    pub final_message_id: Option<String>,
    pub error_code: Option<String>,
    pub body_generation: u64,
    pub message_count: u64,
}

impl ChildTaskRow {
    /// The same value once more.
    pub fn copy(&self) -> (copy: ChildTaskRow)
        ensures
            copy == *self,
    {
        ChildTaskRow {
            child_task_id: self.child_task_id.clone(),
            session_id: self.session_id.clone(),
            parent_run_id: self.parent_run_id.clone(),
            parent_tool_call_id: self.parent_tool_call_id.clone(),
            status: self.status,
            final_message_id: self.final_message_id.clone(),
            error_code: self.error_code.clone(),
            body_generation: self.body_generation,
            message_count: self.message_count,
        }
    }
}

/// A tool call whose execution has begun.
#[derive(Debug, PartialEq, Eq)]
pub struct PendingStart {
    pub receipt_id: String,
    pub call_id: String,
    pub started_at_ms: i64,
}

impl PendingStart {
    /// The same value once more.
    pub fn copy(&self) -> (copy: PendingStart)
        ensures
            copy == *self,
    {
        PendingStart {
            receipt_id: self.receipt_id.clone(),
            call_id: self.call_id.clone(),
            started_at_ms: self.started_at_ms,
        }
    }
}

/// The receipt of a change of a whole conversation, with its numbers as stored.
#[derive(Debug, PartialEq, Eq)]
pub struct HistoryOperationRow {
    pub operation_id: String,
    pub session_id: String,
    pub kind: HistoryKind,
    pub state: HistoryState,
    pub source_generation: i64,
    pub result_generation: Option<i64>,
    pub compacted_message_count: Option<i64>,
    pub retained_message_count: Option<i64>,
    pub created_at_ms: i64,
    pub finished_at_ms: Option<i64>,
}

impl HistoryOperationRow {
    /// The same value once more.
    pub fn copy(&self) -> (copy: HistoryOperationRow)
        ensures
            copy == *self,
    {
        HistoryOperationRow {
            operation_id: self.operation_id.clone(),
            session_id: self.session_id.clone(),
            kind: self.kind,
            state: self.state,
            source_generation: self.source_generation,
            result_generation: self.result_generation,
            compacted_message_count: self.compacted_message_count,
            retained_message_count: self.retained_message_count,
            created_at_ms: self.created_at_ms,
            finished_at_ms: self.finished_at_ms,
        }
    }
}

/// What a goal is to reach, and the message that set it.
#[derive(Debug, PartialEq, Eq)]
pub struct GoalObjective {
    pub source_message_id: String,
    pub payload: String,
    pub payload_hash: String,
}

impl GoalObjective {
    /// The same value once more.
    pub fn copy(&self) -> (copy: GoalObjective)
        ensures
            copy == *self,
    {
        GoalObjective {
            source_message_id: self.source_message_id.clone(),
            payload: self.payload.clone(),
            payload_hash: self.payload_hash.clone(),
        }
    }
}

/// What a goal may consume, and what it has consumed.
#[derive(Clone, Copy, Debug, PartialEq, Eq, Structural)]
pub struct GoalBudget {
    pub max_runs: u64,
    pub max_total_tokens: u64,
    pub max_consecutive_failures: u64,
    pub used_runs: u64,
    pub used_total_tokens: u64,
    pub usage_complete: bool,
}

/// A goal of a session.
#[derive(Debug, PartialEq, Eq)]
pub struct StoredGoal {
    pub goal_id: String,
    pub session_id: String,
    pub objective: GoalObjective,
    pub state: GoalState,
    pub pause_reason: Option<GoalPauseReason>,
    pub generation: u64,
    pub turn: u64,
    pub budget: GoalBudget,
    pub consecutive_failures: u64,
    pub created_at_ms: i64,
    pub updated_at_ms: i64,
    pub completed_at_ms: Option<i64>,
}

impl StoredGoal {
    /// The same value once more.
    pub fn copy(&self) -> (copy: StoredGoal)
        ensures
            copy == *self,
    {
        StoredGoal {
            goal_id: self.goal_id.clone(),
            session_id: self.session_id.clone(),
            objective: self.objective.copy(),
            state: self.state,
            pause_reason: self.pause_reason,
            generation: self.generation,
            turn: self.turn,
            budget: self.budget,
            consecutive_failures: self.consecutive_failures,
            created_at_ms: self.created_at_ms,
            updated_at_ms: self.updated_at_ms,
            completed_at_ms: self.completed_at_ms,
        }
    }
}

/// A file that a session was given.
#[derive(Debug, PartialEq, Eq)]
pub struct StoredAttachment {
    pub attachment_id: String,
    pub session_id: String,
    pub original_name: String,
    pub blob_hash: String,
    pub size_bytes: u64,
    pub media_type: String,
    pub agent_readable_path: String,
    pub state: AttachmentState,
    pub created_at_ms: i64,
}

impl StoredAttachment {
    /// The same value once more.
    pub fn copy(&self) -> (copy: StoredAttachment)
        ensures
            copy == *self,
    {
        StoredAttachment {
            attachment_id: self.attachment_id.clone(),
            session_id: self.session_id.clone(),
            original_name: self.original_name.clone(),
            blob_hash: self.blob_hash.clone(),
            size_bytes: self.size_bytes,
            media_type: self.media_type.clone(),
            agent_readable_path: self.agent_readable_path.clone(),
            state: self.state,
            created_at_ms: self.created_at_ms,
        }
    }
}

/// Where an activated skill took effect.
#[derive(Debug, PartialEq, Eq)]
pub enum SkillActivationOwner {
    Session(String),
    ChildTask(String),
}

impl SkillActivationOwner {
    /// The same value once more.
    pub fn copy(&self) -> (copy: SkillActivationOwner)
        ensures
            copy == *self,
    {
        match self {
            SkillActivationOwner::Session(id) => SkillActivationOwner::Session(id.clone()),
            SkillActivationOwner::ChildTask(id) => SkillActivationOwner::ChildTask(id.clone()),
        }
    }
}

/// A skill that was activated by a message.
#[derive(Debug, PartialEq, Eq)]
pub struct StoredSkillActivation {
    pub activation_id: String,
    pub session_id: String,
    pub owner: SkillActivationOwner,
    pub run_id: Option<String>,
    pub input_id: Option<String>,
    pub message_id: String,
    pub name: String,
    pub catalog_revision: String,
    pub definition_digest: String,
    pub trigger: SkillActivationTrigger,
    pub created_at_ms: i64,
}

impl StoredSkillActivation {
    /// The same value once more.
    pub fn copy(&self) -> (copy: StoredSkillActivation)
        ensures
            copy == *self,
    {
        StoredSkillActivation {
            activation_id: self.activation_id.clone(),
            session_id: self.session_id.clone(),
            owner: self.owner.copy(),
            run_id: self.run_id.clone(),
            input_id: self.input_id.clone(),
            message_id: self.message_id.clone(),
            name: self.name.clone(),
            catalog_revision: self.catalog_revision.clone(),
            definition_digest: self.definition_digest.clone(),
            trigger: self.trigger,
            created_at_ms: self.created_at_ms,
        }
    }
}

/// What a user thinks of a message.
#[derive(Debug, PartialEq, Eq)]
pub struct FeedbackRow {
    pub session_id: String,
    pub message_id: String,
    pub feedback: MessageFeedback,
    pub changed_at_ms: i64,
}

impl FeedbackRow {
    /// The same value once more.
    pub fn copy(&self) -> (copy: FeedbackRow)
        ensures
            copy == *self,
    {
        FeedbackRow {
            session_id: self.session_id.clone(),
            message_id: self.message_id.clone(),
            feedback: self.feedback,
            changed_at_ms: self.changed_at_ms,
        }
    }
}

/// Whether skills of a name are offered.
#[derive(Debug, PartialEq, Eq)]
pub struct SkillNameState {
    pub name: String,
    pub enabled: bool,
    pub updated_at_ms: u64,
}

impl SkillNameState {
    /// The same value once more.
    pub fn copy(&self) -> (copy: SkillNameState)
        ensures
            copy == *self,
    {
        SkillNameState {
            name: self.name.clone(),
            enabled: self.enabled,
            updated_at_ms: self.updated_at_ms,
        }
    }
}

/// The conversation that a record belongs to.
#[derive(Debug, PartialEq, Eq)]
pub enum ConversationOwner {
    MainSession { session_id: String },
    ChildTask { session_id: String, child_task_id: String },
}

impl ConversationOwner {
    /// The same value once more.
    pub fn copy(&self) -> (copy: ConversationOwner)
        ensures
            copy == *self,
    {
        match self {
            ConversationOwner::MainSession { session_id } => ConversationOwner::MainSession {
                session_id: session_id.clone(),
            },
            ConversationOwner::ChildTask { session_id, child_task_id } => {
                ConversationOwner::ChildTask {
                    session_id: session_id.clone(),
                    child_task_id: child_task_id.clone(),
                }
            },
        }
    }
}

/// A model request that is accounted for, with the message that reports its usage.
#[derive(Debug, PartialEq, Eq)]
pub struct ModelRequestRecord {
    pub owner: ConversationOwner,
    pub message_id: String,
    pub run_id: Option<String>,
    pub request_kind: RequestKind,
    pub provider: Option<String>,
    pub model_id: Option<String>,
    pub usage: TokenUsage,
    pub completed_at_ms: i64,
}

impl ModelRequestRecord {
    /// The same value once more.
    pub fn copy(&self) -> (copy: ModelRequestRecord)
        ensures
            copy == *self,
    {
        ModelRequestRecord {
            owner: self.owner.copy(),
            message_id: self.message_id.clone(),
            run_id: self.run_id.clone(),
            request_kind: self.request_kind,
            provider: self.provider.clone(),
            model_id: self.model_id.clone(),
            usage: self.usage,
            completed_at_ms: self.completed_at_ms,
        }
    }
}

/// What the model requests of a session consumed together.
#[derive(Clone, Copy, Debug, PartialEq, Eq, Structural)]
pub struct SessionUsage {
    pub request_count: u64,
    pub input_tokens: u64,
    pub output_tokens: u64,
    pub total_tokens: u64,
    pub cached_input_tokens: u64,
    pub cached_request_count: u64,
    pub reasoning_tokens: u64,
    pub reasoning_request_count: u64,
    pub latest: Option<TokenUsage>,
}

/// The usage of a session, and whether the requests made before it was kept are counted in.
#[derive(Debug, PartialEq, Eq)]
pub struct SessionUsageRow {
    pub session_id: String,
    pub usage: SessionUsage,
    pub backfilled: bool,
    pub updated_at_ms: i64,
}

impl SessionUsageRow {
    /// The same value once more.
    pub fn copy(&self) -> (copy: SessionUsageRow)
        ensures
            copy == *self,
    {
        SessionUsageRow {
            session_id: self.session_id.clone(),
            usage: self.usage,
            backfilled: self.backfilled,
            updated_at_ms: self.updated_at_ms,
        }
    }
}

/// The servers that an input was offered.
#[derive(Debug, PartialEq, Eq)]
pub struct McpSelectionRow {
    pub session_id: String,
    pub input_id: String,
    pub servers: String,
}

impl McpSelectionRow {
    /// The same value once more.
    pub fn copy(&self) -> (copy: McpSelectionRow)
        ensures
            copy == *self,
    {
        McpSelectionRow {
            session_id: self.session_id.clone(),
            input_id: self.input_id.clone(),
            servers: self.servers.clone(),
        }
    }
}

/// How much of a conversation is searchable: all of it, too little, or a rebuild is under way.
#[derive(Clone, Copy, Debug, PartialEq, Eq, Structural)]
pub enum RecallState {
    Ready,
    Dirty,
    Rebuilding,
}

/// How far the search index of a conversation has come.
#[derive(Debug, PartialEq, Eq)]
pub struct RecallHeadRow {
    pub owner: ConversationOwner,
    pub body_generation: u64,
    pub indexed_message_count: u64,
    pub state: RecallState,
}

} // verus!
