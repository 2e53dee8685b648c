#![allow(dead_code, unused_imports)]

use std::sync::Arc;

use runtime_storage::history_recovery::FoundFiles;
use runtime_storage::append_effect::{
    AppendPurpose, ConversationStorageTarget, GoalSettlementEffect, RunSettlementEffect,
};
use runtime_storage::clear_cleanup::{
    cleanup_cleared_session_files, ChildEntry, ChildrenListing, DirectoryEntry, EntryKind,
    ImageEntry, SessionListing,
};
use runtime_storage::conversation::{decode, encode_messages, reconcile_append, RecordedMessage};
use runtime_storage::engine::{body_place, write_body, StorageEngine};
use runtime_storage::error::{StorageResult, StoreError, StoreErrorKind};
use runtime_storage::exchange_commands::{
    ChildToolExecutionStart, CompletedChildToolExchange, CompletedToolExchange,
    PendingChildToolExchange, PendingToolExchange, ToolExecutionStart,
};
use runtime_storage::message::{
    message_id, AssistantMessage, AssistantPart, ConversationMessage, FileReference,
    FileReferencesPart, FinishReason, ImageMediaType, JsonField, JsonValue, ModelIdentity, TextPart,
    TokenUsage, ToolCall, ToolImageReference, ToolMessage, ToolResult, ToolResultContent,
    ToolResultPart, ToolResultStatus, TranscriptVisibility, UserMessage, UserMessageOrigin,
    UserPart,
};
use runtime_storage::recovery::{AppendRequest, AppendTable, ChildAppendRequest};
use runtime_storage::rows::{
    AgentVariant, ApprovalMode, AttachmentState, ChildTaskRow, ChildTaskStatus, ConversationOwner,
    CrossSessionBinding, Device, GoalBudget, GoalInputBinding, GoalObjective, GoalPauseReason,
    GoalState, HistoryKind, HistoryOperationRow, HistoryState, InputKind, InputOrigin, InputState,
    MessageFeedback, NewStoredInput, PendingState, RecallHeadRow, RecallState, RunError,
    RunMessageRef, RunRow, SessionLifecycle, SessionProxy, SessionResources, SessionRole,
    SessionRow, SessionTitleOrigin, SessionUsageRow, SkillActivationOwner, SkillActivationTrigger,
    SkillCatalog, SkillNameState, StoredAttachment, StoredGoal, StoredInput,
    StoredSkillActivation, Workspace, WorkspaceLifecycle,
};
use runtime_storage::run_projection::{
    error_code_value, parse_error_code, parse_run_status, run_status_value, RunStatus,
    RuntimeErrorCode,
};
use runtime_storage::run_state::{NewRunAttempt, RunSettlement, UserMessageCommit};
use runtime_storage::session_fork::{ForkAttachment, ForkResources, NewStoredSession, SessionFork};
use runtime_storage::session_history::{
    ClearProgress, CleanupStatus, CompactOutcome, CompactionFinish, CompactionFinishKind,
    CompactionPreparation, CompactionPreparationResult, SessionHistoryClear,
};
use runtime_storage::session_loading::LoadedSession;
use runtime_storage::session_management::{
    ApprovalModeChange, ArchiveChange, MessageFeedbackChange, ModelChange, ReasoningEffortChange,
    SessionPinnedChange, SessionProxyChange, SessionTitleChange, StoredMessageFeedback,
    VariantChange,
};
use runtime_storage::session_resources::SessionExecutionEnvironment;
use runtime_storage::session_rewrite::ConversationRewrite;
use runtime_storage::session_transfer::{SessionDeletion, StagedDeletion};
use runtime_storage::skill::SkillNameStateChange;
use runtime_storage::tool_exchange::{PendingExchange, PendingTable, ReadyExchange};
use runtime_storage::tool_images::ImageFile;
use runtime_storage::usage::empty_usage;
use runtime_storage::work_plan::{
    StoredWorkPlan, TodoItemStatus, WorkPlanClear, WorkPlanItem, WorkPlanMutation,
};

use runtime_storage::conversation::{split_records, validate_candidate};
use runtime_storage::engine::is_path_component;
use runtime_storage::numbers::{non_negative, positive, to_i64};
use runtime_storage::order::{ordered, SortKey};
use runtime_storage::path_rewrite::{rewrite_file_reference_paths, PathRewrite};
use runtime_storage::recovery::CommittedBatch;
use runtime_storage::paths::{components_of, is_in, is_same_path, join_path};
use runtime_storage::resource_reference::{
    current_recorded_resource_path, historical_attachment_path,
};
use runtime_storage::rows::SessionUsage;
use runtime_storage::run_loading::{decode_run, RunColumns};
use runtime_storage::run_state::{stored_millis, stored_time, system_time_ms};
use runtime_storage::session_management::{feedback_value, parse_feedback};
use runtime_storage::session_summaries::{
    contains_text, decode_session, SessionColumns, SessionListFilter, SessionSummaryQuery,
};
use runtime_storage::session_transfer::{path_text, runtime_path_text, DeleteSessionImpact};
use runtime_storage::skill::{
    decode_skill_activation, decode_skill_name_state, validate_activation, ActivationColumns,
};
use runtime_storage::stored_columns::{
    decode_pending_exchange, decode_staged_append, pending_state_value, role_value, AppendColumns,
    ExchangeColumns,
};
use runtime_storage::text::{
    add_in_order, decimal_text, extension, is_blank, parse_unsigned, precedes, strip,
};
use runtime_storage::tool_exchange::{
    validate_assistant_calls, validate_exchange, CompletedExchange, ExecutionStart, PendingTarget,
};
use runtime_storage::usage::{decode_session_usage, UsageColumns};
use runtime_storage::work_plan::parse_work_plan;
use runtime_storage::tool_images::{collect_tool_images, media_type_of, reference_from_file_name};
use runtime_storage::worker::{
    joined_worker, reply_of, shutdown_result, worker_step, worker_unavailable, QueuedCommand,
    ShutdownStep, StoreQueue, WorkerStep,
};

fn text(value: &str) -> String {
    value.to_owned()
}

fn encode(message: &ConversationMessage) -> Vec<u8> {
    format!("{message:?}").into_bytes()
}

fn record(message: ConversationMessage) -> Arc<RecordedMessage> {
    Arc::new(RecordedMessage {
        record: encode(&message),
        message: Arc::new(message),
    })
}

fn records(messages: Vec<ConversationMessage>) -> Vec<Arc<RecordedMessage>> {
    messages.into_iter().map(record).collect()
}

fn open_engine() -> StorageEngine {
    StorageEngine::new(text("/home/data/sessions"), text("/home/data/session-deletions"))
}

fn environment(engine: &StorageEngine, session: &str) -> SessionExecutionEnvironment {
    let directory = format!("{}/{session}", engine.sessions_directory);
    SessionExecutionEnvironment {
        workspace_id: None,
        working_directory: format!("{directory}/private"),
        workspace_private_directory: None,
        session_attachment_directory: format!("{directory}/attachments"),
        session_tool_image_directory: format!("{directory}/tool-images"),
        session_private_directory: format!("{directory}/private"),
    }
}

fn catalog() -> SkillCatalog {
    SkillCatalog {
        revision: text("legacy"),
        document: text("{}"),
    }
}

fn new_session(engine: &StorageEngine, session: &str) -> NewStoredSession {
    NewStoredSession {
        session_id: text(session),
        title: format!("Session {session}"),
        title_origin: SessionTitleOrigin::Generated,
        automatic_title_pending: false,
        model_key: text("fixture-model"),
        reasoning_effort: None,
        system_prompt: text("stable prompt"),
        skill_catalog: catalog(),
        environment: environment(engine, session),
        current_variant: AgentVariant::Build,
        approval_mode: ApprovalMode::Ask,
        role: SessionRole::Standard,
        materialization_key: None,
        created_at_ms: 1_000,
    }
}

fn session_row(session: &str, role: SessionRole, created_at_ms: i64) -> SessionRow {
    SessionRow {
        session_id: text(session),
        title: format!("Session {session}"),
        title_origin: SessionTitleOrigin::Generated,
        automatic_title_pending: false,
        model_key: text("fixture-model"),
        reasoning_effort: None,
        system_prompt: text("stable prompt"),
        skill_catalog: catalog(),
        current_variant: AgentVariant::Build,
        approval_mode: ApprovalMode::Ask,
        role,
        lifecycle: SessionLifecycle::Active,
        body_generation: 1,
        message_count: 0,
        created_at_ms,
        updated_at_ms: created_at_ms,
        archived_at_ms: None,
        is_pinned: false,
        materialization_key: None,
        proxy: None,
        pc_output_device_id: None,
    }
}

fn create_session_as(engine: &mut StorageEngine, session: &str, role: SessionRole, created: i64) {
    engine.sessions.push(session_row(session, role, created));
    let environment = environment(engine, session);
    engine.session_resources.push(SessionResources {
        session_id: text(session),
        workspace_id: None,
        working_directory: environment.working_directory,
        attachment_directory: environment.session_attachment_directory,
        private_directory: environment.session_private_directory,
        created_at_ms: created,
    });
    engine.session_usage.push(SessionUsageRow {
        session_id: text(session),
        usage: empty_usage(),
        backfilled: true,
        updated_at_ms: created,
    });
    let path = body_path(engine, session, 1);
    write_body(&mut engine.files, &path, Vec::new());
}

fn create_session(engine: &mut StorageEngine, session: &str) {
    create_session_as(engine, session, SessionRole::Standard, 1_000);
}

fn main_target(session: &str) -> ConversationStorageTarget {
    ConversationStorageTarget::Session {
        session_id: text(session),
        run_id: text("any-run"),
    }
}

fn child_target(session: &str, child: &str) -> ConversationStorageTarget {
    ConversationStorageTarget::ChildTask {
        session_id: text(session),
        child_task_id: text(child),
    }
}

fn body_path(engine: &StorageEngine, session: &str, generation: u64) -> String {
    engine
        .target_body_path(&main_target(session), generation)
        .expect("body path")
}

fn has_body(engine: &StorageEngine, path: &str) -> bool {
    body_place(&engine.files, &text(path)).is_some()
}

fn session<'a>(engine: &'a StorageEngine, session: &str) -> &'a SessionRow {
    let place = engine.session_place(&text(session)).expect("session");
    &engine.sessions[place]
}

fn run<'a>(engine: &'a StorageEngine, run: &str) -> &'a RunRow {
    engine
        .runs
        .iter()
        .find(|row| row.run_id == run)
        .expect("run")
}

fn try_load(engine: &StorageEngine, session: &str) -> StorageResult<Vec<Arc<ConversationMessage>>> {
    engine.load_target_conversation(&main_target(session))
}

fn conversation(engine: &StorageEngine, session: &str) -> Vec<Arc<ConversationMessage>> {
    try_load(engine, session).expect("conversation")
}

fn assert_messages(found: &[Arc<ConversationMessage>], expected: &[ConversationMessage]) {
    assert_eq!(found.len(), expected.len());
    for (left, right) in found.iter().zip(expected) {
        assert_eq!(**left, *right);
    }
}

fn user(value: &str, content: &str) -> UserMessage {
    UserMessage {
        id: text(value),
        origin: UserMessageOrigin::User,
        transcript_visibility: TranscriptVisibility::Visible,
        parts: vec![UserPart::Text(TextPart {
            id: format!("part-{value}"),
            text: text(content),
        })],
    }
}

fn user_message(value: &str, content: &str) -> ConversationMessage {
    ConversationMessage::User(user(value, content))
}

fn fixture_model() -> ModelIdentity {
    ModelIdentity {
        provider: text("fixture"),
        model: text("fixture-model"),
    }
}

fn assistant(value: &str, content: &str) -> AssistantMessage {
    AssistantMessage {
        id: text(value),
        model: fixture_model(),
        parts: vec![
            AssistantPart::Reasoning(TextPart {
                id: format!("reasoning-{value}"),
                text: text("private reasoning"),
            }),
            AssistantPart::Text(TextPart {
                id: format!("text-{value}"),
                text: text(content),
            }),
        ],
        finish_reason: FinishReason::Stop,
        usage: None,
    }
}

fn assistant_message(value: &str, content: &str) -> ConversationMessage {
    ConversationMessage::Assistant(assistant(value, content))
}

fn assistant_message_with_usage(
    value: &str,
    input_tokens: u64,
    cached_input_tokens: Option<u64>,
) -> ConversationMessage {
    let mut message = assistant(value, value);
    message.usage = Some(TokenUsage {
        input_tokens,
        output_tokens: 10,
        total_tokens: input_tokens + 10,
        cached_input_tokens,
        reasoning_tokens: Some(4),
    });
    ConversationMessage::Assistant(message)
}

fn tool_exchange() -> Vec<ConversationMessage> {
    vec![
        ConversationMessage::Assistant(AssistantMessage {
            id: text("assistant-tool"),
            model: fixture_model(),
            parts: vec![
                AssistantPart::ProviderState(br#"{"cursor":"opaque"}"#.to_vec()),
                AssistantPart::ToolCall(ToolCall {
                    id: text("call-1"),
                    name: text("echo_text"),
                    arguments: text(r#"{"text":"hello"}"#),
                }),
            ],
            finish_reason: FinishReason::ToolCalls,
            usage: None,
        }),
        ConversationMessage::Tool(ToolMessage {
            id: text("tool-result"),
            result: ToolResult {
                call_id: text("call-1"),
                status: ToolResultStatus::Success,
                content: ToolResultContent::Text(text("hello")),
            },
        }),
    ]
}

fn tool_image_exchange(file_name: &str) -> Vec<ConversationMessage> {
    vec![
        user_message("user-image", "inspect the image"),
        ConversationMessage::Assistant(AssistantMessage {
            id: text("assistant-image"),
            model: fixture_model(),
            parts: vec![AssistantPart::ToolCall(ToolCall {
                id: text("call-image"),
                name: text("read_image"),
                arguments: text(r#"{"path":"/outside/source.png"}"#),
            })],
            finish_reason: FinishReason::ToolCalls,
            usage: None,
        }),
        ConversationMessage::Tool(ToolMessage {
            id: text("tool-image"),
            result: ToolResult {
                call_id: text("call-image"),
                status: ToolResultStatus::Success,
                content: ToolResultContent::Parts(vec![ToolResultPart::Image(
                    ToolImageReference {
                        file_name: text(file_name),
                        media_type: ImageMediaType::Png,
                    },
                )]),
            },
        }),
    ]
}

fn pending_tool_exchange(session: &str, run: &str, receipt: &str) -> PendingToolExchange {
    PendingToolExchange {
        receipt_id: text(receipt),
        session_id: text(session),
        run_id: text(run),
        assistant: record(tool_exchange().remove(0)),
        step: Some(1),
        created_at_ms: 2_000,
    }
}

fn pending_delegate_exchange(session: &str, run: &str, receipt: &str) -> PendingToolExchange {
    PendingToolExchange {
        receipt_id: text(receipt),
        session_id: text(session),
        run_id: text(run),
        assistant: record(ConversationMessage::Assistant(AssistantMessage {
            id: format!("assistant-{receipt}"),
            model: fixture_model(),
            parts: vec![AssistantPart::ToolCall(ToolCall {
                id: text("call-1"),
                name: text("delegate_task"),
                arguments: text(r#"{"title":"recover child","task":"inspect"}"#),
            })],
            finish_reason: FinishReason::ToolCalls,
            usage: None,
        })),
        step: Some(1),
        created_at_ms: 2_000,
    }
}

fn ready_results() -> Arc<ReadyExchange> {
    Arc::new(ReadyExchange {
        results: vec![record(tool_exchange().remove(1))],
        activation_message: None,
        skill_activations: Arc::new(Vec::new()),
    })
}

fn start_tool(engine: &mut StorageEngine, session: &str, run: &str, receipt: &str) {
    engine
        .mark_tool_execution_started(ToolExecutionStart {
            receipt_id: text(receipt),
            session_id: text(session),
            run_id: text(run),
            call_id: text("call-1"),
            started_at_ms: 2_200,
        })
        .expect("record tool started");
}

fn new_input(session: &str, input: &str, run: &str, message: ConversationMessage, at: i64) -> NewStoredInput {
    NewStoredInput {
        input_id: text(input),
        run_id: text(run),
        session_id: text(session),
        idempotency_key: None,
        agent_variant: AgentVariant::Build,
        origin: InputOrigin::User,
        goal_binding: None,
        cross_session: None,
        channel_source: None,
        approval_mode: ApprovalMode::Ask,
        user_message_id: message_id(&message).clone(),
        message: record(message),
        accepted_at_ms: at,
    }
}

fn settlement(operation: &str, session: &str, run: &str, status: RunStatus, messages: Vec<ConversationMessage>, at: i64) -> RunSettlement {
    RunSettlement {
        operation_id: text(operation),
        run_id: text(run),
        session_id: text(session),
        effect: RunSettlementEffect {
            status,
            cancel_requested: false,
            error: None,
            goal_effect: None,
            proxy_report: None,
        },
        messages: records(messages),
        message_step: None,
        finished_at_ms: at,
    }
}

fn commit_completed_turn(engine: &mut StorageEngine, session: &str, suffix: &str, accepted_at_ms: i64) {
    let input = format!("input-{suffix}");
    let run = format!("run-{suffix}");
    let user_id = format!("user-{suffix}");
    engine
        .insert_input(&new_input(session, &input, &run, user_message(&user_id, suffix), accepted_at_ms))
        .expect("accept fixture input");
    engine
        .commit_user_message(UserMessageCommit {
            operation_id: format!("commit-{suffix}"),
            input_id: input,
            run_id: run.clone(),
            session_id: text(session),
            message: Some(record(user_message(&user_id, suffix))),
            reasoning_effort: None,
            created_at_ms: accepted_at_ms + 1,
        })
        .expect("commit fixture user message");
    engine
        .settle_run(settlement(
            &format!("settle-{suffix}"),
            session,
            &run,
            RunStatus::Completed,
            vec![assistant_message(&format!("assistant-{suffix}"), suffix)],
            accepted_at_ms + 2,
        ))
        .expect("settle fixture run");
}

fn seed_session_and_run(engine: &mut StorageEngine, session: &str, run: &str) {
    create_session(engine, session);
    let order = engine.inputs.len() as i64 + 1;
    engine.inputs.push(StoredInput {
        queue_order: order,
        kind: InputKind::Message,
        input_id: format!("input-{run}"),
        session_id: text(session),
        idempotency_key: None,
        agent_variant: AgentVariant::Build,
        origin: InputOrigin::User,
        goal_binding: None,
        cross_session: None,
        channel_source: None,
        user_message_id: format!("user-{run}"),
        state: InputState::Committed,
        queued_message: None,
        accepted_at_ms: 1_001,
    });
    engine.runs.push(RunRow {
        run_id: text(run),
        session_id: text(session),
        input_id: format!("input-{run}"),
        attempt: 1,
        status: RunStatus::Accepted,
        cancel_requested: false,
        approval_mode: ApprovalMode::Ask,
        reasoning_effort: None,
        error: None,
        created_at_ms: 1_001,
        started_at_ms: None,
        finished_at_ms: None,
    });
}

fn mark_running(engine: &mut StorageEngine, run: &str, at: i64) {
    let row = engine
        .runs
        .iter_mut()
        .find(|row| row.run_id == run)
        .expect("run");
    row.status = RunStatus::Running;
    row.started_at_ms = Some(at);
}

fn append_request(operation: &str, session: &str, run: &str) -> AppendRequest {
    AppendRequest {
        operation_id: text(operation),
        session_id: text(session),
        run_id: text(run),
        messages: records(vec![
            user_message(&format!("message-{operation}"), "hello"),
            assistant_message(&format!("assistant-{operation}"), "world"),
        ]),
        message_step: None,
        created_at_ms: 2_000,
    }
}

fn create_child_task(engine: &mut StorageEngine, session: &str, run: &str, child: &str) {
    engine.child_tasks.push(ChildTaskRow {
        child_task_id: text(child),
        session_id: text(session),
        parent_run_id: text(run),
        parent_tool_call_id: text("call-1"),
        status: ChildTaskStatus::Accepted,
        final_message_id: None,
        error_code: None,
        body_generation: 1,
        message_count: 0,
    });
    let path = engine
        .target_body_path(&child_target(session, child), 1)
        .expect("child body path");
    write_body(&mut engine.files, &path, Vec::new());
}

fn start_child_task(engine: &mut StorageEngine, session: &str, child: &str, operation: &str, message: ConversationMessage) {
    engine
        .append_child_messages(ChildAppendRequest {
            operation_id: text(operation),
            child_task_id: text(child),
            session_id: text(session),
            messages: vec![record(message)],
            message_step: None,
            created_at_ms: 2_200,
            purpose: AppendPurpose::Messages,
        })
        .expect("start child");
    let place = engine
        .child_place(&text(session), &text(child))
        .expect("child");
    engine.child_tasks[place].status = ChildTaskStatus::Running;
}

fn take_up(engine: &mut StorageEngine, session: &str) -> StorageResult<LoadedSession> {
    let id = text(session);
    let mended = engine.prepare_session_execution(&id, &FoundFiles::none(), &encode)?;
    engine.take_up_session(&id, &mended, false)
}

fn take_up_all(engine: &mut StorageEngine) -> Vec<LoadedSession> {
    let ids: Vec<String> = engine
        .sessions
        .iter()
        .map(|row| row.session_id.clone())
        .collect();
    ids.iter()
        .map(|id| take_up(engine, id).expect("take up session"))
        .collect()
}
fn refused<T: std::fmt::Debug>(result: StorageResult<T>, kind: StoreErrorKind, message: &str) {
    let error = result.expect_err(message);
    assert_eq!(error.kind(), kind);
    assert_eq!(error.message, message);
}

fn query() -> SessionSummaryQuery {
    SessionSummaryQuery {
        filter: SessionListFilter::All,
        session_id: None,
        role: None,
        query: None,
        offset: 0,
        limit: 50,
    }
}

fn listed(engine: &StorageEngine, query: &SessionSummaryQuery) -> Vec<String> {
    engine
        .query_session_summaries(query)
        .expect("summaries")
        .into_iter()
        .map(|summary| summary.session_id)
        .collect()
}

#[test]
fn sessions_are_listed_pinned_first_and_then_by_activity() {
    let mut engine = open_engine();
    create_session_as(&mut engine, "s-old", SessionRole::Standard, 10);
    create_session_as(&mut engine, "s-new-b", SessionRole::Standard, 30);
    create_session_as(&mut engine, "s-new-a", SessionRole::Standard, 30);
    create_session_as(&mut engine, "s-pinned", SessionRole::Controller, 5);
    engine.sessions[3].is_pinned = true;
    assert_eq!(
        listed(&engine, &query()),
        vec!["s-pinned", "s-new-a", "s-new-b", "s-old"]
    );
    let mut page = query();
    page.offset = 1;
    page.limit = 2;
    assert_eq!(listed(&engine, &page), vec!["s-new-a", "s-new-b"]);
    page.offset = 9;
    assert!(listed(&engine, &page).is_empty());
    page.offset = 0;
    page.limit = 0;
    assert_eq!(listed(&engine, &page), vec!["s-pinned"]);
    let mut controllers = query();
    controllers.role = Some(SessionRole::Controller);
    assert_eq!(listed(&engine, &controllers), vec!["s-pinned"]);
    engine.sessions[0].lifecycle = SessionLifecycle::Archived;
    let mut archived = query();
    archived.filter = SessionListFilter::Archived;
    assert_eq!(listed(&engine, &archived), vec!["s-old"]);
    archived.filter = SessionListFilter::Active;
    assert_eq!(listed(&engine, &archived).len(), 3);
    let mut titled = query();
    titled.query = Some(text("sEssION S-nEW"));
    assert_eq!(listed(&engine, &titled), vec!["s-new-a", "s-new-b"]);
    let mut one = query();
    one.session_id = Some(text("s-old"));
    assert_eq!(listed(&engine, &one), vec!["s-old"]);
}

#[test]
fn a_list_holds_at_most_two_hundred_and_one_sessions() {
    let mut engine = open_engine();
    for n in 0..205 {
        engine
            .sessions
            .push(session_row(&format!("s-{n}"), SessionRole::Standard, n));
    }
    let mut all = query();
    all.limit = 1_000;
    assert_eq!(listed(&engine, &all).len(), 201);
}

#[test]
fn summaries_tell_what_waits_and_where_output_goes() {
    let mut engine = open_engine();
    create_session(&mut engine, "s-summary");
    for (input, run) in [("i-one", "r-one"), ("i-two", "r-two")] {
        let message = user_message(&format!("m-{input}"), "waiting");
        engine
            .insert_input(&new_input("s-summary", input, run, message, 2_000))
            .expect("input");
    }
    engine.inputs[1].origin = InputOrigin::Runtime;
    engine.sessions[0].pc_output_device_id = Some(text("d-one"));
    refused(
        engine.query_session_summaries(&query()),
        StoreErrorKind::InvalidData,
        "incomplete hosting",
    );
    engine.devices.push(Device {
        device_id: text("d-one"),
        display_name: text("Desk"),
    });
    let summaries = engine.query_session_summaries(&query()).expect("summaries");
    assert_eq!(summaries[0].queued_input_count, 1);
    assert!(summaries[0].resume_required);
    assert_eq!(
        summaries[0].pc_output_hosting.as_ref().expect("hosting").device_name,
        "Desk"
    );
    engine.inputs[0].kind = InputKind::Command;
    let summaries = engine.query_session_summaries(&query()).expect("summaries");
    assert_eq!(summaries[0].queued_input_count, 0);
    assert!(summaries[0].resume_required);
}

#[test]
fn titles_are_searched_without_regard_to_case() {
    assert!(contains_text("Quarterly Report", "lY rEP"));
    assert!(contains_text("anything", ""));
    assert!(!contains_text("short", "shorter"));
    assert!(!contains_text("Über", "über"));
}

fn columns() -> SessionColumns {
    SessionColumns {
        session_id: text("s-columns"),
        title: text("Columns"),
        title_origin: text("user"),
        automatic_title_pending: false,
        model_key: text("fixture-model"),
        reasoning_effort: None,
        system_prompt: text("stable prompt"),
        skill_catalog: catalog(),
        current_variant: AgentVariant::Build,
        approval_mode: ApprovalMode::Ask,
        role: text("standard"),
        lifecycle: text("archived"),
        body_generation: 3,
        message_count: 7,
        created_at_ms: 1_000,
        updated_at_ms: 1_001,
        archived_at_ms: Some(1_001),
        is_pinned: true,
        materialization_key: None,
        proxy_controller_session_id: Some(text("s-controller")),
        proxy_changed_at_ms: Some(5),
        pc_output_device_id: None,
    }
}

#[test]
fn session_columns_are_read_strictly() {
    let row = decode_session(columns()).expect("session");
    assert_eq!(row.title_origin, SessionTitleOrigin::User);
    assert_eq!(row.lifecycle, SessionLifecycle::Archived);
    assert_eq!(row.role, SessionRole::Standard);
    assert_eq!((row.body_generation, row.message_count), (3, 7));
    assert_eq!(
        row.proxy,
        Some(SessionProxy {
            controller_session_id: text("s-controller"),
            changed_at_ms: 5
        })
    );
    let cases: Vec<(Box<dyn Fn(&mut SessionColumns)>, &str)> = vec![
        (Box::new(|c| c.lifecycle = text("gone")), "invalid session lifecycle"),
        (Box::new(|c| c.role = text("guest")), "invalid session role"),
        (Box::new(|c| c.proxy_changed_at_ms = None), "incomplete proxy"),
        (Box::new(|c| c.role = text("controller")), "controller session has a proxy"),
        (Box::new(|c| c.body_generation = 0), "stored body generation is invalid"),
        (Box::new(|c| c.message_count = -1), "invalid message count"),
        (Box::new(|c| c.title_origin = text("guess")), "invalid title origin"),
    ];
    for (change, message) in cases {
        let mut broken = columns();
        change(&mut broken);
        refused(decode_session(broken), StoreErrorKind::InvalidData, message);
    }
}

#[test]
fn append_and_exchange_columns_are_read_strictly() {
    let append = || AppendColumns {
        operation_id: text("operation"),
        target: main_target("s-columns"),
        body_generation: 2,
        base_byte_length: 0,
        payload: b"record\n".to_vec(),
        message_count_delta: 1,
        message_step: Some(4),
        created_at_ms: 9,
        purpose: Arc::new(AppendPurpose::Messages),
    };
    let staged = decode_staged_append(append()).expect("append");
    assert_eq!((staged.body_generation, staged.base_byte_length), (2, 0));
    assert_eq!((staged.message_count_delta, staged.message_step), (1, Some(4)));
    let mut broken = append();
    broken.body_generation = 0;
    refused(
        decode_staged_append(broken),
        StoreErrorKind::InvalidData,
        "staged append generation is invalid",
    );
    let mut broken = append();
    broken.base_byte_length = -1;
    refused(
        decode_staged_append(broken),
        StoreErrorKind::InvalidData,
        "staged append base length is invalid",
    );
    let mut broken = append();
    broken.message_count_delta = 0;
    refused(
        decode_staged_append(broken),
        StoreErrorKind::InvalidData,
        "staged append message count is invalid",
    );
    let exchange = |state: &str| ExchangeColumns {
        receipt_id: text("receipt"),
        target: PendingTarget::Run {
            session_id: text("s"),
            run_id: text("r"),
        },
        assistant: record(tool_exchange().remove(0)),
        ready: None,
        state: text(state),
        step: None,
        created_at_ms: 1,
    };
    for state in [PendingState::Begun, PendingState::Ready] {
        let row = decode_pending_exchange(exchange(pending_state_value(state))).expect("exchange");
        assert_eq!(row.state, state);
    }
    refused(
        decode_pending_exchange(exchange("lost")),
        StoreErrorKind::InvalidData,
        "pending tool exchange state is invalid",
    );
    assert_eq!(role_value(SessionRole::Controller), "controller");
    assert_eq!(role_value(SessionRole::Standard), "standard");
}

#[test]
fn recorded_paths_follow_the_data_into_the_home_of_the_user() {
    let environment = SessionExecutionEnvironment {
        workspace_id: None,
        working_directory: text("/srv/users/_personal/data/sessions/s/private"),
        workspace_private_directory: Some(text("/srv/users/_personal/data/workspaces/w")),
        session_attachment_directory: text("/srv/users/_personal/data/sessions/s/attachments"),
        session_tool_image_directory: text("/srv/users/_personal/data/sessions/s/tool-images"),
        session_private_directory: text("/srv/users/_personal/data/sessions/s/private"),
    };
    let home = "/srv/users/_personal";
    let now = |path: &str| current_recorded_resource_path(home, path, &environment);
    assert_eq!(
        now("/srv/data/sessions/s/private/note.txt"),
        "/srv/users/_personal/data/sessions/s/private/note.txt"
    );
    assert_eq!(
        now("/srv/data/workspaces/w"),
        "/srv/users/_personal/data/workspaces/w"
    );
    assert_eq!(now("/srv/data/sessions/other/x"), "/srv/data/sessions/other/x");
    assert_eq!(now("/srv/database/x"), "/srv/database/x");
    assert_eq!(
        current_recorded_resource_path("/srv/users/ann", "/srv/data/sessions/s/private/n", &environment),
        "/srv/data/sessions/s/private/n"
    );
    let path = "/srv/users/_personal/data/sessions/s/attachments/a/report.pdf";
    let attachment = StoredAttachment {
        attachment_id: text("a"),
        session_id: text("s"),
        original_name: text("report.pdf"),
        blob_hash: text("hash"),
        size_bytes: 1,
        media_type: text("application/pdf"),
        agent_readable_path: text(path),
        state: AttachmentState::Ready,
        created_at_ms: 1,
    };
    let before = historical_attachment_path(home, &attachment, path).expect("old path");
    assert_eq!(before, "/srv/data/sessions/s/attachments/a/report.pdf");
    assert_eq!(now(&before), path);
    assert!(historical_attachment_path(home, &attachment, "/elsewhere").is_none());
    assert!(historical_attachment_path("/srv/users/ann", &attachment, path).is_none());
    assert!(is_in("/a/b", "/a") && is_in("/a", "/a") && is_in("/a", "/"));
    assert!(!is_in("/ab", "/a"));
}

#[test]
fn no_rebuild_of_the_search_index_survives_a_start() {
    let head = |state: RecallState| RecallHeadRow {
        owner: ConversationOwner::MainSession {
            session_id: text("s-recall"),
        },
        body_generation: 1,
        indexed_message_count: 1,
        state,
    };
    let mut engine = open_engine();
    engine.recall_heads.push(head(RecallState::Rebuilding));
    engine.recall_heads.push(head(RecallState::Ready));
    engine.initialize_recall_heads(true);
    assert_eq!(engine.recall_heads[0], head(RecallState::Dirty));
    assert_eq!(engine.recall_heads[1], head(RecallState::Ready));
    engine.initialize_recall_heads(false);
    for row in &engine.recall_heads {
        assert_eq!(row.indexed_message_count, 0);
        assert_eq!(row.state, RecallState::Dirty);
    }
}

#[test]
fn worker_panic_is_observable_as_unavailable_and_shutdown_still_joins() {
    StoreQueue::check_capacity(4).expect("capacity");
    let mut queue = StoreQueue::open(Some(Ok(()))).expect("open");
    queue.enqueue().expect("a command may be sent");
    assert_eq!(
        reply_of::<()>(None)
            .expect_err("worker panic must close the reply")
            .kind(),
        StoreErrorKind::Unavailable
    );
    assert_eq!(queue.begin_shutdown(), ShutdownStep::Send);
    let ShutdownStep::JoinAndFail(error) = queue.shutdown_sent(false) else {
        panic!("shutdown must observe the failed worker")
    };
    assert_eq!(error.kind(), StoreErrorKind::Unavailable);
    assert!(queue.take_worker());
    assert!(!queue.take_worker());
}

#[test]
fn nothing_is_sent_behind_the_command_to_end() {
    refused(
        StoreQueue::check_capacity(0),
        StoreErrorKind::InvalidInput,
        "runtime storage queue capacity must be greater than zero",
    );
    refused(
        StoreQueue::open(None),
        StoreErrorKind::Unavailable,
        "runtime storage worker is unavailable",
    );
    let failure = StoreError::new(StoreErrorKind::Internal, "fixture failure");
    refused(
        StoreQueue::open(Some(Err(failure))),
        StoreErrorKind::Internal,
        "fixture failure",
    );
    let mut queue = StoreQueue::open(Some(Ok(()))).expect("open");
    assert_eq!(queue.shutdown_replied(None), ShutdownStep::Fail(worker_unavailable()));
    assert_eq!(queue.begin_shutdown(), ShutdownStep::Send);
    assert_eq!(queue.shutdown_sent(true), ShutdownStep::AwaitReply);
    refused(
        queue.enqueue(),
        StoreErrorKind::Unavailable,
        "runtime storage worker is unavailable",
    );
    assert_eq!(queue.begin_shutdown(), ShutdownStep::Join);
    assert_eq!(queue.shutdown_replied(None), ShutdownStep::Join);
    assert_eq!(queue.shutdown_replied(Some(Ok(()))), ShutdownStep::Join);
    assert_eq!(
        queue.shutdown_replied(Some(Err(failure))),
        ShutdownStep::Fail(failure)
    );
    assert_eq!(reply_of(Some(Ok(7))), Ok(7));
}

#[test]
fn the_clock_is_read_as_milliseconds() {
    let now = system_time_ms().expect("clock");
    assert!(now > 1_600_000_000_000);
    assert_eq!(stored_time(Some(1_700_000_000_123)), Ok(1_700_000_000_123));
    refused(
        stored_time(None),
        StoreErrorKind::Internal,
        "system clock is before the Unix epoch",
    );
    refused(
        stored_time(Some(i64::MAX as u128 + 1)),
        StoreErrorKind::Internal,
        "system clock exceeds SQLite range",
    );
    assert_eq!(stored_millis(42), Ok(42));
    assert_eq!(stored_millis(i64::MAX as u128), Ok(i64::MAX));
    refused(
        stored_millis(i64::MAX as u128 + 1),
        StoreErrorKind::Internal,
        "system clock exceeds SQLite range",
    );
}

#[test]
fn paths_are_texts() {
    assert_eq!(path_text("/home/ä".as_bytes().to_vec()), Ok(text("/home/ä")));
    refused(
        path_text(vec![b'/', 0xff]),
        StoreErrorKind::InvalidInput,
        "path must be UTF-8",
    );
    assert_eq!(runtime_path_text(b"/home".to_vec()), Ok(text("/home")));
    refused(
        runtime_path_text(vec![0xc3]),
        StoreErrorKind::InvalidData,
        "runtime path is not valid UTF-8",
    );
    assert!(is_path_component("s-one"));
    for name in ["", ".", "..", "a/b"] {
        assert!(!is_path_component(name));
    }
}

#[test]
fn stored_numbers_keep_their_ranges() {
    assert_eq!(non_negative(0, "count"), Ok(0));
    refused(non_negative(-1, "count"), StoreErrorKind::InvalidData, "count");
    assert_eq!(positive(1, "generation"), Ok(1));
    refused(positive(0, "generation"), StoreErrorKind::InvalidData, "generation");
    assert_eq!(to_i64(i64::MAX as u64, "range"), Ok(i64::MAX));
    refused(to_i64(i64::MAX as u64 + 1, "range"), StoreErrorKind::InvalidInput, "range");
}

#[test]
fn texts_are_cut_ordered_and_counted() {
    assert_eq!(decimal_text(0), "0");
    assert_eq!(decimal_text(18_446_744_073_709_551_615), "18446744073709551615");
    assert_eq!(parse_unsigned("18446744073709551615"), Some(u64::MAX));
    assert_eq!(parse_unsigned("18446744073709551616"), None);
    assert_eq!(parse_unsigned(""), None);
    assert_eq!(parse_unsigned("-1"), None);
    assert_eq!(extension("photo.png"), Some(text("png")));
    assert_eq!(strip("conversation.12.jsonl", "conversation.", ".jsonl"), Some(text("12")));
    assert_eq!(strip("conversation.jsonl", "conversation.", ".jsonl"), None);
    assert!(is_blank(" \t\n") && !is_blank(" a "));
    assert!(precedes("a", "ab") && precedes("Z", "a") && !precedes("a", "a"));
    let mut list = Vec::new();
    for word in ["b", "a", "c", "b"] {
        add_in_order(&mut list, &text(word));
    }
    assert_eq!(list, vec!["a", "b", "c"]);
    let key = |rank: u64, time: i64, id: &str| SortKey {
        rank,
        time,
        id: text(id),
    };
    let keys = vec![key(1, 0, "a"), key(0, 5, "b"), key(0, 5, "a"), key(0, 2, "z")];
    assert_eq!(ordered(&keys), vec![3, 2, 1, 0]);
}

#[test]
fn records_are_lines() {
    assert_eq!(
        split_records(&b"one\ntwo\n".to_vec()),
        Some(vec![b"one".to_vec(), b"two".to_vec()])
    );
    assert_eq!(split_records(&Vec::new()), Some(Vec::new()));
    assert_eq!(split_records(&b"one\ntwo".to_vec()), None);
    refused(
        decode(&Vec::new(), &b"unknown\n".to_vec()),
        StoreErrorKind::InvalidData,
        "conversation record is invalid",
    );
    refused(
        decode(&Vec::new(), &b"unfinished".to_vec()),
        StoreErrorKind::InvalidData,
        "conversation record is incomplete",
    );
    let broken = Arc::new(RecordedMessage {
        record: b"two\nlines".to_vec(),
        message: Arc::new(user_message("m", "text")),
    });
    refused(
        encode_messages(&vec![broken]),
        StoreErrorKind::InvalidInput,
        "conversation message could not be encoded",
    );
}

#[test]
fn candidates_keep_identifiers_apart_and_calls_paired() {
    let current = vec![Arc::new(user_message("m-one", "text"))];
    validate_candidate(&current, &records(vec![user_message("m-two", "more")])).expect("candidate");
    refused(
        validate_candidate(&current, &records(vec![user_message("m-one", "again")])),
        StoreErrorKind::InvalidInput,
        "conversation message id is duplicated",
    );
    refused(
        validate_candidate(&current, &records(vec![tool_exchange().remove(0)])),
        StoreErrorKind::InvalidInput,
        "conversation tool exchange is incomplete",
    );
}

#[test]
fn an_interrupted_append_is_completed_and_a_strange_tail_is_refused() {
    let base = b"one\n".to_vec();
    let payload = b"two\nthree\n".to_vec();
    let whole = b"one\ntwo\nthree\n".to_vec();
    assert_eq!(reconcile_append(&base, 4, &payload), Ok(whole.clone()));
    assert_eq!(reconcile_append(&b"one\ntw".to_vec(), 4, &payload), Ok(whole.clone()));
    assert_eq!(reconcile_append(&whole, 4, &payload), Ok(whole.clone()));
    for body in [b"on".to_vec(), b"one\nxx".to_vec(), b"one\ntwo\nthree\nfour\n".to_vec()] {
        refused(
            reconcile_append(&body, 4, &payload),
            StoreErrorKind::InvalidData,
            "conversation tail conflicts with staged append",
        );
    }
}

#[test]
fn appends_are_announced_under_names_of_their_own() {
    let mut engine = open_engine();
    seed_session_and_run(&mut engine, "s-append", "r-append");
    engine
        .stage_append(append_request("operation", "s-append", "r-append"))
        .expect("announce");
    refused(
        engine.stage_append(append_request("operation", "s-append", "r-append")),
        StoreErrorKind::Conflict,
        "conversation append could not be staged",
    );
    refused(
        engine.stage_append(append_request("operation-two", "s-none", "r-append")),
        StoreErrorKind::Conflict,
        "session does not exist",
    );
    let mut empty = append_request("operation-three", "s-append", "r-append");
    empty.messages.clear();
    refused(
        engine.stage_append(empty),
        StoreErrorKind::InvalidInput,
        "staged conversation append is invalid",
    );
    refused(
        engine.complete_staged_append(&text("operation-none")),
        StoreErrorKind::Conflict,
        "staged append does not exist",
    );
    engine.sessions[0].body_generation = 2;
    refused(
        engine.complete_staged_append(&text("operation")),
        StoreErrorKind::InvalidData,
        "staged append targets a non-authoritative generation",
    );
    engine.sessions[0].body_generation = 1;
    let batch = engine
        .complete_staged_append(&text("operation"))
        .expect("complete");
    assert_eq!(batch.base_message_ordinal, 0);
    assert_eq!(batch.body_generation, 1);
    assert_eq!(batch.messages.len(), 2);
    assert_eq!(engine.staged_append_count(), 0);
}

#[test]
fn recovery_of_one_session_leaves_the_others() {
    let mut engine = open_engine();
    for (id, run_id, operation) in [("s-a", "r-a", "o-a"), ("s-b", "r-b", "o-b")] {
        seed_session_and_run(&mut engine, id, run_id);
        engine
            .stage_append(append_request(operation, id, run_id))
            .expect("announce");
    }
    assert!(engine.recover_body_appends(&Some(text("s-a"))).is_empty());
    assert_eq!(conversation(&engine, "s-a").len(), 2);
    assert!(conversation(&engine, "s-b").is_empty());
    assert_eq!(engine.staged_append_count(), 1);
    assert!(engine.recover_body_appends(&None).is_empty());
    assert_eq!(engine.staged_append_count(), 0);
    assert_eq!(conversation(&engine, "s-b").len(), 2);
}

#[test]
fn a_call_starts_once_and_for_its_owner() {
    let mut engine = open_engine();
    seed_session_and_run(&mut engine, "s-start", "r-start");
    refused(
        engine.begin_tool_exchange(pending_tool_exchange("s-start", "r-start", "receipt")),
        StoreErrorKind::Conflict,
        "run cannot begin a tool exchange",
    );
    refused(
        engine.begin_tool_exchange(pending_tool_exchange("s-start", "r-none", "receipt")),
        StoreErrorKind::Conflict,
        "tool exchange run does not exist",
    );
    mark_running(&mut engine, "r-start", 1);
    let mut silent = pending_tool_exchange("s-start", "r-start", "receipt");
    silent.assistant = record(assistant_message("silent", "no calls"));
    refused(
        engine.begin_tool_exchange(silent),
        StoreErrorKind::InvalidInput,
        "pending assistant message has no tool calls",
    );
    engine
        .begin_tool_exchange(pending_tool_exchange("s-start", "r-start", "receipt"))
        .expect("begin");
    refused(
        engine.begin_tool_exchange(pending_tool_exchange("s-start", "r-start", "receipt")),
        StoreErrorKind::Conflict,
        "pending tool exchange could not be created",
    );
    let start = |run: &str, call: &str| ToolExecutionStart {
        receipt_id: text("receipt"),
        session_id: text("s-start"),
        run_id: text(run),
        call_id: text(call),
        started_at_ms: 3,
    };
    refused(
        engine.mark_tool_execution_started(start("r-other", "call-1")),
        StoreErrorKind::Conflict,
        "tool execution start ownership does not match",
    );
    refused(
        engine.mark_tool_execution_started(start("r-start", "call-9")),
        StoreErrorKind::Conflict,
        "tool execution start does not belong to pending exchange",
    );
    engine
        .mark_tool_execution_started(start("r-start", "call-1"))
        .expect("start");
    refused(
        engine.mark_tool_execution_started(start("r-start", "call-1")),
        StoreErrorKind::Conflict,
        "tool execution start is already recorded",
    );
    let completed = |run: &str, ready: Arc<ReadyExchange>| CompletedToolExchange {
        operation_id: text("operation"),
        receipt_id: text("receipt"),
        session_id: text("s-start"),
        run_id: text(run),
        ready,
        step: Some(1),
        completed_at_ms: 4,
    };
    refused(
        engine.complete_tool_exchange(completed("r-other", ready_results())),
        StoreErrorKind::Conflict,
        "pending tool exchange ownership does not match",
    );
    let nothing = Arc::new(ReadyExchange {
        results: Vec::new(),
        activation_message: None,
        skill_activations: Arc::new(Vec::new()),
    });
    refused(
        engine.complete_tool_exchange(completed("r-start", nothing)),
        StoreErrorKind::InvalidInput,
        "tool exchange batch is invalid",
    );
    engine
        .complete_tool_exchange(completed("r-start", ready_results()))
        .expect("complete");
    refused(
        engine.complete_tool_exchange(completed("r-start", ready_results())),
        StoreErrorKind::Conflict,
        "pending tool exchange does not exist",
    );
}

#[test]
fn calls_of_one_message_have_names_of_their_own() {
    let call = || {
        AssistantPart::ToolCall(ToolCall {
            id: text("call"),
            name: text("echo_text"),
            arguments: text("{}"),
        })
    };
    let mut message = assistant("twice", "text");
    message.parts = vec![call(), call()];
    refused(
        validate_assistant_calls(&ConversationMessage::Assistant(message)),
        StoreErrorKind::InvalidInput,
        "pending assistant message has duplicate tool calls",
    );
}

#[test]
fn only_the_latest_ended_run_is_tried_again() {
    let mut engine = open_engine();
    seed_session_and_run(&mut engine, "s-retry", "r-first");
    let attempt = |run: &str, source: &str| NewRunAttempt {
        run_id: text(run),
        session_id: text("s-retry"),
        source_run_id: text(source),
        approval_mode: ApprovalMode::Auto,
        created_at_ms: 9,
    };
    refused(
        engine.create_run_attempt(attempt("r-second", "r-none")),
        StoreErrorKind::Conflict,
        "source run does not exist",
    );
    refused(
        engine.create_run_attempt(attempt("r-second", "r-first")),
        StoreErrorKind::Conflict,
        "run is not retryable",
    );
    engine.runs[0].status = RunStatus::Failed;
    let second = engine
        .create_run_attempt(attempt("r-second", "r-first"))
        .expect("second attempt");
    assert_eq!(second.attempt, 2);
    assert_eq!(second.status, RunStatus::Accepted);
    assert_eq!(second.approval_mode, ApprovalMode::Auto);
    assert_eq!(second.input_id, "input-r-first");
    engine.runs[1].status = RunStatus::Failed;
    refused(
        engine.create_run_attempt(attempt("r-third", "r-first")),
        StoreErrorKind::Conflict,
        "only the latest run can be retried",
    );
}

#[test]
fn runs_settle_with_a_status_that_they_keep() {
    let mut engine = open_engine();
    seed_session_and_run(&mut engine, "s-settle", "r-settle");
    refused(
        engine.settle_run(settlement("o", "s-settle", "r-settle", RunStatus::Running, Vec::new(), 5)),
        StoreErrorKind::InvalidInput,
        "run settlement status is not terminal",
    );
    let mut failed = settlement("o", "s-settle", "r-settle", RunStatus::Failed, Vec::new(), 5);
    failed.effect.error = Some(RunError {
        code: RuntimeErrorCode::Timeout,
        message: text("too slow"),
    });
    engine.settle_run(failed).expect("settle");
    assert_eq!(run(&engine, "r-settle").status, RunStatus::Failed);
    assert_eq!(run(&engine, "r-settle").finished_at_ms, Some(5));
    assert_eq!(session(&engine, "s-settle").updated_at_ms, 5);
    refused(
        engine.settle_run(settlement("o2", "s-settle", "r-settle", RunStatus::Failed, Vec::new(), 6)),
        StoreErrorKind::Conflict,
        "run cannot be settled",
    );
}

#[test]
fn stored_runs_are_read_strictly() {
    let columns = || RunColumns {
        run_id: text("r"),
        session_id: text("s"),
        input_id: text("i"),
        attempt: 1,
        status: text("completed"),
        cancel_requested: 0,
        approval_mode: ApprovalMode::Ask,
        reasoning_effort: None,
        error_code: None,
        error_message: None,
        created_at_ms: 1,
        started_at_ms: None,
        finished_at_ms: None,
    };
    assert_eq!(decode_run(columns()).expect("run").status, RunStatus::Completed);
    let cases: Vec<(Box<dyn Fn(&mut RunColumns)>, &str)> = vec![
        (Box::new(|c| c.attempt = -1), "stored run attempt is invalid"),
        (Box::new(|c| c.status = text("lost")), "stored run status is invalid"),
        (Box::new(|c| c.cancel_requested = 2), "stored run cancellation flag is invalid"),
        (Box::new(|c| c.error_message = Some(text("why"))), "stored run error is incomplete"),
    ];
    for (change, message) in cases {
        let mut broken = columns();
        change(&mut broken);
        refused(decode_run(broken), StoreErrorKind::InvalidData, message);
    }
    let mut broken = columns();
    broken.error_code = Some(text("lost"));
    broken.error_message = Some(text("why"));
    refused(decode_run(broken), StoreErrorKind::InvalidData, "stored run error code is invalid");
    for status in [
        RunStatus::Accepted,
        RunStatus::Running,
        RunStatus::Cancelling,
        RunStatus::Completed,
        RunStatus::Failed,
        RunStatus::Cancelled,
        RunStatus::Interrupted,
    ] {
        assert_eq!(parse_run_status(run_status_value(status)), Ok(status));
    }
}

#[test]
fn feedback_is_read_back_from_its_text() {
    for feedback in [MessageFeedback::Positive, MessageFeedback::Negative] {
        assert_eq!(parse_feedback(feedback_value(feedback)), Ok(feedback));
    }
    refused(
        parse_feedback("shrug"),
        StoreErrorKind::InvalidData,
        "stored message feedback is invalid",
    );
}

#[test]
fn a_proxy_binds_a_standard_session_to_one_controller() {
    let mut engine = open_engine();
    create_session_as(&mut engine, "s-controller", SessionRole::Controller, 1);
    create_session_as(&mut engine, "s-second", SessionRole::Controller, 1);
    create_session(&mut engine, "s-target");
    let change = |target: &str, controller: &str, enabled: bool, at: i64| SessionProxyChange {
        target_session_id: text(target),
        controller_session_id: text(controller),
        enabled,
        changed_at_ms: at,
    };
    refused(
        engine.set_session_proxy(change("s-target", "s-none", true, 5)),
        StoreErrorKind::Conflict,
        "controller session is invalid",
    );
    refused(
        engine.set_session_proxy(change("s-none", "s-controller", true, 5)),
        StoreErrorKind::Conflict,
        "proxy target session does not exist",
    );
    refused(
        engine.set_session_proxy(change("s-second", "s-controller", true, 5)),
        StoreErrorKind::Conflict,
        "proxy target session is invalid",
    );
    engine
        .set_session_proxy(change("s-target", "s-controller", true, 5))
        .expect("bind");
    refused(
        engine.set_session_proxy(change("s-target", "s-second", true, 6)),
        StoreErrorKind::Conflict,
        "proxy target is bound to another controller",
    );
    engine
        .set_session_proxy(change("s-target", "s-controller", false, 7))
        .expect("release");
    assert_eq!(session(&engine, "s-target").proxy, None);
    engine
        .set_session_archive(ArchiveChange {
            session_id: text("s-target"),
            archived: true,
            changed_at_ms: 8,
        })
        .expect("archive");
    assert_eq!(session(&engine, "s-target").archived_at_ms, Some(8));
    engine
        .set_session_archive(ArchiveChange {
            session_id: text("s-target"),
            archived: false,
            changed_at_ms: 9,
        })
        .expect("restore");
    assert_eq!(session(&engine, "s-target").archived_at_ms, None);
}

#[test]
fn only_idle_sessions_are_handed_over() {
    let mut engine = open_engine();
    seed_session_and_run(&mut engine, "s-idle", "r-idle");
    refused(
        engine.ensure_session_idle_for_transfer(&text("s-idle")),
        StoreErrorKind::Conflict,
        "session is not idle",
    );
    refused(
        engine.ensure_session_history_idle(&text("s-idle")),
        StoreErrorKind::Conflict,
        "session history operation requires an idle session",
    );
    engine.runs[0].status = RunStatus::Completed;
    engine
        .ensure_session_idle_for_transfer(&text("s-idle"))
        .expect("idle");
    engine
        .ensure_session_history_idle(&text("s-idle"))
        .expect("idle");
    assert!(!engine.has_unfinished_writes(&text("s-idle")));
    engine
        .stage_append(append_request("operation", "s-idle", "r-idle"))
        .expect("announce");
    assert!(engine.has_unfinished_writes(&text("s-idle")));
    refused(
        engine.ensure_session_history_idle(&text("s-idle")),
        StoreErrorKind::Conflict,
        "session history operation requires an idle session",
    );
}

#[test]
fn a_deletion_is_refused_unless_its_user_was_told_what_goes() {
    let mut engine = open_engine();
    create_session(&mut engine, "s-delete");
    create_session_as(&mut engine, "s-controller", SessionRole::Controller, 1);
    let deletion = |id: &str, messages: u64| SessionDeletion {
        session_id: text(id),
        operation_id: text("operation"),
        expected_impact: DeleteSessionImpact {
            message_count: messages,
            run_count: 0,
            child_task_count: 0,
            attachment_count: 0,
        },
    };
    refused(
        engine.delete_session(&deletion("a/b", 0), false),
        StoreErrorKind::InvalidInput,
        "session id is not a directory name",
    );
    refused(
        engine.delete_session(&deletion("s-none", 0), false),
        StoreErrorKind::Conflict,
        "delete session does not exist",
    );
    refused(
        engine.delete_session(&deletion("s-controller", 0), false),
        StoreErrorKind::Conflict,
        "session role cannot be deleted",
    );
    refused(
        engine.delete_session(&deletion("s-delete", 1), false),
        StoreErrorKind::Conflict,
        "delete session impact changed",
    );
    refused(
        engine.delete_session(&deletion("s-delete", 0), true),
        StoreErrorKind::Conflict,
        "delete staging path already exists",
    );
    engine
        .delete_session(&deletion("s-delete", 0), false)
        .expect("delete");
    assert!(engine.session_place(&text("s-delete")).is_none());
    assert!(engine.session_place(&text("s-controller")).is_some());
    refused(
        engine.recover_session_deletion(&None, false),
        StoreErrorKind::InvalidData,
        "delete staging entry name is invalid",
    );
    refused(
        engine.recover_session_deletion(&Some(text("s-controller.operation")), true),
        StoreErrorKind::InvalidData,
        "delete recovery found duplicate session directories",
    );
}

fn fork_of(engine: &StorageEngine, source: &str, target: &str) -> SessionFork {
    SessionFork {
        source_session_id: text(source),
        source_generation: 1,
        session: new_session(engine, target),
        conversation: Vec::new(),
        attachments: Vec::new(),
        tool_images: Vec::new(),
        skill_activations: Vec::new(),
        work_plan: None,
        goal: None,
    }
}

fn ready_resources() -> ForkResources {
    ForkResources {
        workspace_available: true,
        tool_images_copied: true,
    }
}

#[test]
fn forks_are_refused_for_what_does_not_fit() {
    let mut engine = open_engine();
    create_session(&mut engine, "s-source");
    let cases: Vec<(Box<dyn Fn(&mut SessionFork)>, StoreErrorKind, &str)> = vec![
        (
            Box::new(|f| f.session.session_id = text("..")),
            StoreErrorKind::InvalidInput,
            "session id is not a directory name",
        ),
        (
            Box::new(|f| f.conversation = records(vec![tool_exchange().remove(0)])),
            StoreErrorKind::InvalidInput,
            "fork conversation splits a tool exchange",
        ),
        (
            Box::new(|f| f.source_session_id = text("s-none")),
            StoreErrorKind::Conflict,
            "fork source session does not exist",
        ),
        (
            Box::new(|f| f.source_generation = 2),
            StoreErrorKind::Conflict,
            "fork source generation changed",
        ),
        (
            Box::new(|f| f.session.role = SessionRole::Controller),
            StoreErrorKind::Conflict,
            "session role cannot be forked",
        ),
        (
            Box::new(|f| {
                f.attachments = vec![ForkAttachment {
                    attachment_id: text("a-new"),
                    source_attachment_id: text("a-none"),
                    readable_path: text("/path"),
                }]
            }),
            StoreErrorKind::Conflict,
            "fork attachment does not belong to source session",
        ),
    ];
    for (change, kind, message) in cases {
        let mut fork = fork_of(&engine, "s-source", "s-target");
        change(&mut fork);
        refused(engine.fork_session(&fork, ready_resources(), &encode), kind, message);
        assert_eq!(engine.sessions.len(), 1);
    }
    let fork = fork_of(&engine, "s-source", "s-target");
    refused(
        engine.fork_session(
            &fork,
            ForkResources {
                workspace_available: true,
                tool_images_copied: false,
            },
            &encode,
        ),
        StoreErrorKind::ResourceUnavailable,
        "fork tool image could not be copied",
    );
    let mut lost = fork_of(&engine, "s-source", "s-target");
    lost.conversation = records(vec![ConversationMessage::User(UserMessage {
        id: text("m"),
        origin: UserMessageOrigin::User,
        transcript_visibility: TranscriptVisibility::Visible,
        parts: vec![UserPart::FileReferences(FileReferencesPart {
            id: text("p"),
            files: vec![FileReference {
                original_name: text("lost.txt"),
                readable_path: text("/lost.txt"),
            }],
        })],
    })]);
    refused(
        engine.fork_session(&lost, ready_resources(), &encode),
        StoreErrorKind::Conflict,
        "fork conversation references an unmapped attachment",
    );
    let again = fork_of(&engine, "s-source", "s-source");
    refused(
        engine.fork_session(&again, ready_resources(), &encode),
        StoreErrorKind::Conflict,
        "fork session could not be created",
    );
}

#[test]
fn references_to_files_are_rewritten_and_other_messages_kept() {
    let named = |path: &str| {
        ConversationMessage::User(UserMessage {
            id: text("m-file"),
            origin: UserMessageOrigin::User,
            transcript_visibility: TranscriptVisibility::Visible,
            parts: vec![UserPart::FileReferences(FileReferencesPart {
                id: text("p-file"),
                files: vec![FileReference {
                    original_name: text("a.txt"),
                    readable_path: text(path),
                }],
            })],
        })
    };
    let batch = records(vec![named("/old/a.txt"), assistant_message("m-answer", "ok")]);
    let rewrites = vec![PathRewrite {
        from: text("/old/a.txt"),
        to: text("/new/a.txt"),
    }];
    let rewritten = rewrite_file_reference_paths(&batch, &rewrites, &encode).expect("rewritten");
    assert_eq!(*rewritten[0].message, named("/new/a.txt"));
    assert_eq!(rewritten[0].record, encode(&named("/new/a.txt")));
    assert_eq!(rewritten[1].record, batch[1].record);
    refused(
        rewrite_file_reference_paths(&batch, &Vec::new(), &encode),
        StoreErrorKind::Conflict,
        "fork conversation references an unmapped attachment",
    );
}

fn item(id: &str, status: TodoItemStatus) -> WorkPlanItem {
    WorkPlanItem {
        id: text(id),
        text: text("item"),
        status,
    }
}

#[test]
fn work_plans_are_refused_for_what_does_not_fit() {
    let mut engine = open_engine();
    create_session(&mut engine, "s-plan");
    let mutation = |session: &str, operation: &str, revision: u64, items: Vec<WorkPlanItem>| WorkPlanMutation {
        session_id: text(session),
        expected_revision: revision,
        operation_id: text(operation),
        objective: text("objective"),
        items,
        updated_at_ms: 1,
    };
    refused(
        engine.mutate_work_plan(mutation("s-none", "o", 0, Vec::new())),
        StoreErrorKind::Conflict,
        "work plan session does not exist",
    );
    let pending = || vec![item("a", TodoItemStatus::Pending)];
    let first = engine
        .mutate_work_plan(mutation("s-plan", "o-1", 0, pending()))
        .expect("first");
    assert_eq!(first.plan.revision, 1);
    let second = engine
        .mutate_work_plan(mutation("s-plan", "o-2", 1, pending()))
        .expect("second");
    assert_eq!(second.plan.revision, 2);
    refused(
        engine.mutate_work_plan(mutation("s-plan", "o-3", 1, pending())),
        StoreErrorKind::Conflict,
        "work plan revision changed",
    );
    refused(
        engine.clear_work_plan(WorkPlanClear {
            session_id: text("s-plan"),
            expected_revision: 1,
        }),
        StoreErrorKind::Conflict,
        "work plan revision changed",
    );
    engine.sessions[0].lifecycle = SessionLifecycle::Archived;
    refused(
        engine.mutate_work_plan(mutation("s-plan", "o-4", 2, pending())),
        StoreErrorKind::Conflict,
        "work plan session is archived",
    );
    engine.work_plans[0] = Arc::new(StoredWorkPlan {
        session_id: text("s-plan"),
        revision: 2,
        objective: text("objective"),
        items: vec![item("a", TodoItemStatus::Pending), item("a", TodoItemStatus::Completed)],
        last_operation_id: text("o-2"),
        updated_at_ms: 1,
    });
    refused(
        engine.load_work_plan(&text("s-plan")),
        StoreErrorKind::InvalidData,
        "stored work plan item ids are duplicated",
    );
    refused(
        engine.load_session_state(&text("s-plan")),
        StoreErrorKind::InvalidData,
        "stored work plan item ids are duplicated",
    );
}

#[test]
fn activations_are_read_strictly() {
    let columns = || ActivationColumns {
        activation_id: text("a"),
        session_id: text("s"),
        owner_kind: text("session"),
        owner_id: text("s"),
        run_id: None,
        input_id: None,
        message_id: text("m"),
        name: text("review"),
        name_is_valid: true,
        catalog_revision: text("rev"),
        definition_digest: text("digest"),
        trigger: text("model"),
        created_at_ms: 1,
    };
    let row = decode_skill_activation(columns()).expect("activation");
    assert_eq!(row.trigger, SkillActivationTrigger::Model);
    assert_eq!(row.owner, SkillActivationOwner::Session(text("s")));
    let cases: Vec<(Box<dyn Fn(&mut ActivationColumns)>, &str)> = vec![
        (Box::new(|c| c.owner_kind = text("guest")), "skill activation owner is invalid"),
        (Box::new(|c| c.name_is_valid = false), "skill activation name is invalid"),
        (Box::new(|c| c.trigger = text("chance")), "skill activation trigger is invalid"),
    ];
    for (change, message) in cases {
        let mut broken = columns();
        change(&mut broken);
        refused(decode_skill_activation(broken), StoreErrorKind::InvalidData, message);
    }
    let mut broken = row;
    broken.catalog_revision = String::new();
    refused(
        validate_activation(&broken),
        StoreErrorKind::InvalidData,
        "skill activation is invalid",
    );
    assert!(decode_skill_name_state(text("review"), true, 1, 5).expect("state").enabled);
    for (valid, enabled, at) in [(false, 1, 5), (true, 2, 5), (true, 1, -5)] {
        refused(
            decode_skill_name_state(text("review"), valid, enabled, at),
            StoreErrorKind::InvalidData,
            "skill name state is invalid",
        );
    }
}

#[test]
fn switching_one_name_leaves_the_others() {
    let mut engine = open_engine();
    let mut switch = |name: &str, enabled: bool, at: u64| {
        engine
            .set_skill_enabled(SkillNameStateChange {
                name: text(name),
                enabled,
                updated_at_ms: at,
            })
            .expect("switch")
    };
    switch("write", false, 1);
    switch("review", false, 2);
    switch("write", true, 3);
    let states: Vec<(String, bool, u64)> = engine
        .list_skill_name_states()
        .into_iter()
        .map(|state| (state.name, state.enabled, state.updated_at_ms))
        .collect();
    assert_eq!(states, vec![(text("review"), false, 2), (text("write"), true, 3)]);
}

#[test]
fn requests_are_counted_once() {
    let mut engine = open_engine();
    seed_session_and_run(&mut engine, "s-usage", "r-usage");
    engine
        .append_messages(AppendRequest {
            operation_id: text("operation"),
            session_id: text("s-usage"),
            run_id: text("r-usage"),
            messages: records(vec![assistant_message_with_usage("m-usage", 7, None)]),
            message_step: None,
            created_at_ms: 2,
        })
        .expect("append");
    engine.session_usage[0].backfilled = false;
    engine.backfill_session_usage(&None).expect("backfill");
    let usage = engine.get_session_usage(&text("s-usage"));
    assert_eq!(usage.request_count, 1);
    assert_eq!(usage.input_tokens, 7);
    assert_eq!(usage.output_tokens, 10);
    assert_eq!(usage.total_tokens, 17);
    assert_eq!((usage.cached_input_tokens, usage.cached_request_count), (0, 0));
    assert_eq!((usage.reasoning_tokens, usage.reasoning_request_count), (4, 1));
    assert!(engine.session_usage[0].backfilled);
}

#[test]
fn tool_images_are_known_by_their_names() {
    assert_eq!(media_type_of("a.png"), Some(ImageMediaType::Png));
    assert_eq!(media_type_of("a.gif"), Some(ImageMediaType::Gif));
    assert_eq!(media_type_of("a.txt"), None);
    assert!(reference_from_file_name(&text("a.png"), false).is_none());
    assert_eq!(
        reference_from_file_name(&text("a.png"), true).expect("reference").file_name,
        "a.png"
    );
    let mut found = Vec::new();
    let messages: Vec<Arc<ConversationMessage>> =
        tool_image_exchange("shown.png").into_iter().map(Arc::new).collect();
    collect_tool_images(&messages, &mut found);
    assert_eq!(found.len(), 1);
    assert_eq!(found[0].file_name, "shown.png");
}

#[test]
fn a_missing_image_makes_a_session_unavailable_unless_its_history_is_being_removed() {
    let mut engine = open_engine();
    create_session(&mut engine, "s-images");
    let mended = engine
        .prepare_session_execution(&text("s-images"), &FoundFiles::none(), &encode)
        .expect("mend");
    assert_eq!(mended.body_generation, Some(1));
    let loaded = engine
        .take_up_session(&text("s-images"), &mended, true)
        .expect("take up");
    assert!(loaded.conversation_unavailable);
    let mut mended = engine
        .prepare_session_execution(&text("s-images"), &FoundFiles::none(), &encode)
        .expect("mend again");
    mended.uncleaned = vec![text("s-images")];
    let loaded = engine
        .take_up_session(&text("s-images"), &mended, true)
        .expect("take up again");
    assert!(!loaded.conversation_unavailable);
}

#[test]
fn sessions_without_a_directory_name_are_not_taken_up() {
    let mut engine = open_engine();
    engine
        .sessions
        .push(session_row("..", SessionRole::Standard, 1));
    refused(
        engine.prepare_session_execution(&text(".."), &FoundFiles::none(), &encode),
        StoreErrorKind::InvalidInput,
        "session id is not a directory name",
    );
}

#[test]
fn controllers_are_named_in_order() {
    let mut engine = open_engine();
    for id in ["s-c", "s-a", "s-b"] {
        create_session_as(&mut engine, id, SessionRole::Controller, 1);
    }
    create_session(&mut engine, "s-target");
    engine
        .set_session_proxy(SessionProxyChange {
            target_session_id: text("s-target"),
            controller_session_id: text("s-b"),
            enabled: true,
            changed_at_ms: 2,
        })
        .expect("proxy");
    for (n, controller) in ["s-c", "s-a", "s-gone"].iter().enumerate() {
        let mut input = new_input(
            "s-target",
            &format!("i-{n}"),
            &format!("r-{n}"),
            user_message(&format!("m-{n}"), "task"),
            3,
        );
        input.cross_session = Some(CrossSessionBinding::ControllerDelivery {
            controller_session_id: text(controller),
        });
        engine.insert_input(&input).expect("deliver");
    }
    let loaded = engine
        .load_session_state(&text("s-target"))
        .expect("state");
    let names: Vec<&str> = loaded
        .identities
        .iter()
        .map(|identity| identity.session_id.as_str())
        .collect();
    assert_eq!(names, vec!["s-a", "s-b", "s-c"]);
    assert_eq!(loaded.inputs.len(), 3);
    assert_eq!(loaded.runs.len(), 3);
}

#[test]
fn compactions_end_in_one_way() {
    let mut engine = open_engine();
    create_session(&mut engine, "s-compact");
    let preparation = |operation: &str, generation: u64| CompactionPreparation {
        operation_id: text(operation),
        session_id: text("s-compact"),
        expected_generation: generation,
        created_at_ms: 1,
    };
    refused(
        engine.prepare_session_compaction(&preparation("o-1", 2)),
        StoreErrorKind::Conflict,
        "compact session snapshot changed",
    );
    engine
        .prepare_session_compaction(&preparation("o-1", 1))
        .expect("prepare");
    refused(
        engine.prepare_session_compaction(&preparation("o-1", 1)),
        StoreErrorKind::Conflict,
        "session compaction is already preparing",
    );
    let finish = |operation: &str, kind: CompactionFinishKind| CompactionFinish {
        operation_id: text(operation),
        session_id: text("s-compact"),
        expected_generation: 1,
        kind,
        finished_at_ms: 2,
    };
    refused(
        engine.finish_session_compaction(&finish("o-none", CompactionFinishKind::NoOp)),
        StoreErrorKind::Conflict,
        "compact receipt does not exist",
    );
    engine
        .finish_session_compaction(&finish("o-1", CompactionFinishKind::NoOp))
        .expect("finish");
    engine
        .finish_session_compaction(&finish("o-1", CompactionFinishKind::NoOp))
        .expect("finish again");
    refused(
        engine.finish_session_compaction(&finish("o-1", CompactionFinishKind::Cancelled)),
        StoreErrorKind::Conflict,
        "compact receipt already has a different outcome",
    );
    assert_eq!(
        engine
            .prepare_session_compaction(&preparation("o-1", 1))
            .expect("replay"),
        CompactionPreparationResult::Completed(CompactOutcome::NoOp)
    );
}

#[test]
fn clears_are_refused_for_what_changed() {
    let mut engine = open_engine();
    create_session(&mut engine, "s-clear");
    let request = |operation: &str| SessionHistoryClear {
        operation_id: text(operation),
        session_id: text("s-clear"),
        expected_generation: 1,
        expected_role: SessionRole::Standard,
        environment: environment(&open_engine(), "s-clear"),
        system_prompt: text("prompt"),
        skill_catalog: catalog(),
        skill_catalog_is_valid: true,
        changed_at_ms: 5,
    };
    let mut broken = request("o-1");
    broken.skill_catalog_is_valid = false;
    refused(
        engine.clear_session_history(&broken),
        StoreErrorKind::InvalidInput,
        "clear skill catalog is invalid",
    );
    let mut broken = request("o-2");
    broken.expected_generation = 9;
    refused(
        engine.clear_session_history(&broken),
        StoreErrorKind::Conflict,
        "clear session snapshot changed",
    );
    let mut broken = request("o-3");
    broken.environment.working_directory = text("/elsewhere");
    refused(
        engine.clear_session_history(&broken),
        StoreErrorKind::Conflict,
        "clear session environment changed",
    );
    engine
        .clear_session_history(&request("o-4"))
        .expect("clear");
    let mut reused = request("o-4");
    reused.session_id = text("s-other");
    refused(
        engine.clear_session_history(&reused),
        StoreErrorKind::Conflict,
        "session history operation identity was reused",
    );
}

fn entry(name: &str, kind: EntryKind) -> DirectoryEntry {
    DirectoryEntry {
        name: Some(text(name)),
        kind,
    }
}

#[test]
fn cleanup_removes_old_bodies_and_spares_the_current_one() {
    let listing = || SessionListing {
        entries: vec![
            entry("conversation.1.jsonl", EntryKind::File),
            entry("conversation.2.jsonl", EntryKind::File),
            entry("private", EntryKind::Directory),
        ],
        children: ChildrenListing::Entries(vec![ChildEntry {
            entry: entry("ct-1", EntryKind::Directory),
            bodies: vec![entry("body-1.jsonl", EntryKind::File)],
        }]),
        tool_images: vec![ImageEntry {
            entry: entry("a.png", EntryKind::File),
            accepted: true,
        }],
    };
    let plan = cleanup_cleared_session_files(&listing(), 2).expect("plan");
    assert_eq!(plan.old_bodies, vec![text("conversation.1.jsonl")]);
    assert_eq!(plan.children.len(), 1);
    assert_eq!(plan.children[0].name, "ct-1");
    assert_eq!(plan.children[0].bodies, vec![text("body-1.jsonl")]);
    assert_eq!(plan.tool_images, vec![text("a.png")]);
    refused(
        cleanup_cleared_session_files(&listing(), 3),
        StoreErrorKind::InvalidData,
        "clear authoritative conversation file is missing",
    );
    let cases: Vec<(Box<dyn Fn(&mut SessionListing)>, &str)> = vec![
        (
            Box::new(|l| l.entries[0].kind = EntryKind::Directory),
            "clear conversation path is not a regular file",
        ),
        (
            Box::new(|l| l.entries[0].name = Some(text("conversation.x.jsonl"))),
            "clear conversation file name is invalid",
        ),
        (Box::new(|l| l.entries[2].name = None), "clear session entry name is invalid"),
        (
            Box::new(|l| l.children = ChildrenListing::NotADirectory),
            "clear child path is not a directory",
        ),
        (
            Box::new(|l| l.tool_images[0].accepted = false),
            "clear tool image name is invalid",
        ),
        (
            Box::new(|l| l.tool_images[0].entry.kind = EntryKind::Other),
            "clear tool image is not a regular file",
        ),
    ];
    for (change, message) in cases {
        let mut broken = listing();
        change(&mut broken);
        refused(
            cleanup_cleared_session_files(&broken, 2),
            StoreErrorKind::InvalidData,
            message,
        );
    }
}

#[test]
fn goals_pause_once_and_only_in_scope() {
    let goal = |session: &str, id: &str| StoredGoal {
        goal_id: text(id),
        session_id: text(session),
        objective: GoalObjective {
            source_message_id: text("m"),
            payload: text("[]"),
            payload_hash: text("hash"),
        },
        state: GoalState::Running,
        pause_reason: None,
        generation: 1,
        turn: 1,
        budget: GoalBudget {
            max_runs: 1,
            max_total_tokens: 1,
            max_consecutive_failures: 1,
            used_runs: 0,
            used_total_tokens: 0,
            usage_complete: true,
        },
        consecutive_failures: 0,
        created_at_ms: 1,
        updated_at_ms: 1,
        completed_at_ms: None,
    };
    let mut engine = open_engine();
    engine.goals.push(goal("s-a", "g-a"));
    engine.goals.push(goal("s-b", "g-b"));
    for _ in 0..2 {
        engine
            .pause_running_goals_for_recovery(&Some(text("s-a")))
            .expect("pause");
        assert_eq!(engine.goals[0].state, GoalState::Paused);
        assert_eq!(engine.goals[0].generation, 2);
        assert_eq!(engine.goals[1], goal("s-b", "g-b"));
    }
    engine.goals[1].generation = u64::MAX;
    refused(
        engine.pause_running_goals_for_recovery(&None),
        StoreErrorKind::Conflict,
        "goal generation is exhausted",
    );
}

#[test]
fn rewrites_are_refused_for_what_does_not_fit() {
    let mut engine = open_engine();
    create_session(&mut engine, "s-rewrite");
    commit_completed_turn(&mut engine, "s-rewrite", "one", 1_000);
    let rewrite = |target: &str, message: &str| ConversationRewrite {
        session_id: text("s-rewrite"),
        target_user_message_id: text(target),
        conversation: records(vec![user_message("m-new", "new")]),
        input: new_input("s-rewrite", "i-new", "r-new", user_message(message, "new"), 2_000),
        goal_effect: None,
        changed_at_ms: 2_000,
    };
    refused(
        engine.rewrite_from_user(&rewrite("user-one", "m-other")),
        StoreErrorKind::InvalidInput,
        "replacement input does not match conversation",
    );
    refused(
        engine.rewrite_from_user(&rewrite("user-none", "m-new")),
        StoreErrorKind::Conflict,
        "target user message does not belong to an input",
    );
    assert_eq!(conversation(&engine, "s-rewrite").len(), 2);
    engine
        .rewrite_from_user(&rewrite("user-one", "m-new"))
        .expect("rewrite");
    assert_messages(&conversation(&engine, "s-rewrite"), &[user_message("m-new", "new")]);
}

#[test]
fn environments_are_checked_against_what_is_stored() {
    let mut engine = open_engine();
    create_session(&mut engine, "s-environment");
    let found = engine
        .load_session_environment(&text("s-environment"))
        .expect("environment");
    assert_eq!(found, environment(&engine, "s-environment"));
    refused(
        engine.load_session_environment(&text("s-none")),
        StoreErrorKind::InvalidData,
        "stored session environment is missing",
    );
    let mut bound = environment(&engine, "s-environment");
    bound.workspace_id = Some(text("w-none"));
    bound.workspace_private_directory = Some(text("/agent"));
    refused(
        engine.validate_new_session_environment(&text("s-environment"), &bound, true),
        StoreErrorKind::Conflict,
        "workspace does not exist",
    );
    engine.workspaces.push(Workspace {
        workspace_id: text("w-none"),
        user_directory: text("/user"),
        agent_directory: text("/agent"),
        lifecycle: WorkspaceLifecycle::Removed,
    });
    refused(
        engine.validate_new_session_environment(&text("s-environment"), &bound, true),
        StoreErrorKind::Conflict,
        "workspace cannot accept new sessions",
    );
}

#[test]
fn sessions_get_their_directories_where_the_data_is() {
    let mut engine = open_engine();
    create_session(&mut engine, "s-b");
    create_session(&mut engine, "s-a");
    engine.sessions_directory = text("/moved/sessions");
    let listed = engine.repair_session_resources(&None).expect("repair");
    assert_eq!(listed.len(), 2);
    assert_eq!(listed[0].session_directory, "/moved/sessions/s-a");
    assert_eq!(listed[0].attachment_directory, "/moved/sessions/s-a/attachments");
    assert_eq!(listed[0].private_directory, "/moved/sessions/s-a/private");
    assert_eq!(listed[0].tool_image_directory, "/moved/sessions/s-a/tool-images");
    assert_eq!(listed[1], engine.session_directories(&text("s-b")));
    engine.session_resources[0].workspace_id = Some(text("w-none"));
    refused(
        engine.repair_session_resources(&None),
        StoreErrorKind::InvalidData,
        "stored session workspace is invalid",
    );
    let one = engine
        .repair_session_resources(&Some(text("s-a")))
        .expect("repair one");
    assert_eq!(one.len(), 1);
}

#[test]
fn resources_of_a_new_session_are_recorded_once() {
    let mut engine = open_engine();
    let session = new_session(&engine, "s-new");
    engine.insert_session_resources(&session).expect("record");
    assert_eq!(engine.session_resources[0].session_id, "s-new");
    assert_eq!(
        engine.session_resources[0].private_directory,
        "/home/data/sessions/s-new/private"
    );
    refused(
        engine.insert_session_resources(&session),
        StoreErrorKind::Conflict,
        "session resources could not be created",
    );
}

#[test]
fn a_switched_body_is_indexed_anew() {
    let mut engine = open_engine();
    let main = ConversationOwner::MainSession {
        session_id: text("s"),
    };
    let child = ConversationOwner::ChildTask {
        session_id: text("s"),
        child_task_id: text("c"),
    };
    engine.mark_recall_owner_dirty(&main, 1);
    engine.mark_recall_owner_dirty(&child, 1);
    engine.recall_heads[0].state = RecallState::Ready;
    engine.recall_heads[0].indexed_message_count = 5;
    engine.recall_heads[1].state = RecallState::Ready;
    engine.mark_recall_owner_dirty(&main, 2);
    assert_eq!(engine.recall_heads.len(), 2);
    assert_eq!(engine.recall_heads[0].body_generation, 2);
    assert_eq!(engine.recall_heads[0].indexed_message_count, 0);
    assert_eq!(engine.recall_heads[0].state, RecallState::Dirty);
    assert_eq!(engine.recall_heads[1].state, RecallState::Ready);
}

#[test]
fn an_exchange_of_a_task_enters_the_task_alone() {
    let mut engine = open_engine();
    seed_session_and_run(&mut engine, "s-task", "r-task");
    create_child_task(&mut engine, "s-task", "r-task", "ct-task");
    start_child_task(
        &mut engine,
        "s-task",
        "ct-task",
        "start-task",
        user_message("task-user", "inspect"),
    );
    engine
        .begin_child_tool_exchange(PendingChildToolExchange {
            receipt_id: text("receipt"),
            session_id: text("s-task"),
            child_task_id: text("ct-task"),
            assistant: record(tool_exchange().remove(0)),
            step: Some(2),
            created_at_ms: 3,
        })
        .expect("begin");
    refused(
        engine.mark_child_tool_execution_started(ChildToolExecutionStart {
            receipt_id: text("receipt"),
            session_id: text("s-task"),
            child_task_id: text("ct-other"),
            call_id: text("call-1"),
            started_at_ms: 4,
        }),
        StoreErrorKind::Conflict,
        "tool execution start ownership does not match",
    );
    let batch = engine
        .complete_child_tool_exchange(CompletedChildToolExchange {
            operation_id: text("complete-task"),
            receipt_id: text("receipt"),
            session_id: text("s-task"),
            child_task_id: text("ct-task"),
            ready: ready_results(),
            step: Some(1),
            completed_at_ms: 5,
        })
        .expect("complete");
    assert_eq!(batch.base_message_ordinal, 1);
    assert_eq!(batch.messages.len(), 2);
    assert!(engine.child_pending_exchanges.is_empty());
    assert_eq!(engine.child_tasks[0].message_count, 3);
    assert!(conversation(&engine, "s-task").is_empty());
    assert!(engine.run_message_refs.is_empty());
}

#[test]
fn the_reasoning_effort_of_an_active_session_is_changed() {
    let mut engine = open_engine();
    create_session(&mut engine, "s-effort");
    engine
        .set_session_reasoning_effort(ReasoningEffortChange {
            session_id: text("s-effort"),
            reasoning_effort: Some(text("high")),
        })
        .expect("change");
    assert_eq!(
        session(&engine, "s-effort").reasoning_effort.as_deref(),
        Some("high")
    );
    assert_eq!(
        engine
            .set_session_reasoning_effort(ReasoningEffortChange {
                session_id: text("s-none"),
                reasoning_effort: None,
            })
            .expect_err("no such session")
            .kind(),
        StoreErrorKind::Conflict
    );
}

#[test]
fn stored_usage_and_plans_are_read_strictly() {
    let columns = || UsageColumns {
        request_count: 2,
        input_tokens_sum: 30,
        output_tokens_sum: 4,
        total_tokens_sum: 34,
        cached_input_tokens_sum: 5,
        cached_request_count: 1,
        reasoning_tokens_sum: 0,
        reasoning_request_count: 0,
        latest_input_tokens: Some(10),
        latest_output_tokens: Some(2),
        latest_total_tokens: Some(12),
        latest_cached_input_tokens: None,
        latest_reasoning_tokens: None,
    };
    let usage = decode_session_usage(&columns()).expect("usage");
    assert_eq!((usage.request_count, usage.input_tokens), (2, 30));
    assert_eq!(usage.latest.expect("latest").total_tokens, 12);
    let mut broken = columns();
    broken.request_count = -1;
    refused(
        decode_session_usage(&broken),
        StoreErrorKind::Internal,
        "session usage could not be read",
    );
    let plan = |revision: i64, operation: &str| {
        parse_work_plan(
            text("s"),
            revision,
            text("objective"),
            vec![item("a", TodoItemStatus::Pending)],
            text(operation),
            1,
        )
    };
    assert_eq!(plan(3, "o").expect("plan").revision, 3);
    refused(
        plan(0, "o"),
        StoreErrorKind::InvalidData,
        "stored work plan revision is invalid",
    );
    refused(
        plan(1, " "),
        StoreErrorKind::InvalidData,
        "stored work plan operation id is invalid",
    );
}

#[test]
fn messages_are_counted_and_other_sessions_left_alone() {
    let mut engine = open_engine();
    create_session(&mut engine, "s-one");
    create_session(&mut engine, "s-two");
    commit_completed_turn(&mut engine, "s-one", "one", 1_000);
    commit_completed_turn(&mut engine, "s-two", "two", 2_000);
    let other = conversation(&engine, "s-two");
    let exact = |engine: &StorageEngine, id: &str| {
        assert_eq!(
            session(engine, id).message_count,
            conversation(engine, id).len() as u64
        );
    };
    exact(&engine, "s-one");
    let plan = engine
        .begin_replacement(
            &text("s-one"),
            records(vec![user_message("replacement", "text")]),
            3_000,
        )
        .expect("write replacement");
    engine.commit_replacement(&plan).expect("switch");
    exact(&engine, "s-one");
    let path = body_path(&engine, "s-one", plan.new_generation);
    write_body(&mut engine.files, &path, b"broken".to_vec());
    take_up(&mut engine, "s-one").expect("take up");
    assert!(try_load(&engine, "s-one").is_err());
    assert_eq!(conversation(&engine, "s-two"), other);
    exact(&engine, "s-two");
}

#[test]
fn a_checked_ending_takes_effect_as_a_whole() {
    let mut engine = open_engine();
    create_session(&mut engine, "s-ending");
    commit_completed_turn(&mut engine, "s-ending", "ending", 1_000);
    assert_eq!(engine.staged_append_count(), 0);
    assert_eq!(run(&engine, "run-ending").status, RunStatus::Completed);
    assert_eq!(conversation(&engine, "s-ending").len(), 2);
    let before = session(&engine, "s-ending").updated_at_ms;
    refused(
        engine.settle_run(settlement(
            "again",
            "s-ending",
            "run-ending",
            RunStatus::Completed,
            vec![assistant_message("late", "late")],
            9_000,
        )),
        StoreErrorKind::Conflict,
        "run cannot be settled",
    );
    assert_eq!(engine.staged_append_count(), 0);
    assert_eq!(conversation(&engine, "s-ending").len(), 2);
    assert_eq!(session(&engine, "s-ending").updated_at_ms, before);
}

fn appended_and_indexed(session: &str, message: &str, content: &str) -> StorageEngine {
    let mut engine = open_engine();
    seed_session_and_run(&mut engine, session, &format!("r-{message}"));
    engine
        .append_messages(AppendRequest {
            operation_id: format!("append-{message}"),
            session_id: text(session),
            run_id: format!("r-{message}"),
            messages: vec![record(user_message(message, content))],
            message_step: None,
            created_at_ms: 2_000,
        })
        .expect("append fixture");
    let owner = ConversationOwner::MainSession { session_id: text(session) };
    engine.mark_recall_owner_dirty(&owner, 1);
    engine
}

#[test]
fn recall_index_recovers_interrupted_rebuild_without_scanning_at_startup() {
    let mut engine = appended_and_indexed(
        "s-recall-interrupted",
        "recall-interrupted",
        "interrupted-rebuild-token",
    );
    engine.recall_heads[0].indexed_message_count = 1;
    engine.recall_heads[0].state = RecallState::Rebuilding;
    engine.initialize_recall_heads(true);
    assert_eq!(engine.recall_heads.len(), 1);
    assert_eq!(engine.recall_heads[0].indexed_message_count, 1);
    assert_eq!(engine.recall_heads[0].state, RecallState::Dirty);
}

#[test]
fn missing_fts_is_recreated_as_dirty_without_eager_history_rebuild() {
    let mut engine = appended_and_indexed(
        "s-recall-missing-fts",
        "recall-missing-fts",
        "missing-fts-token",
    );
    engine.recall_heads[0].indexed_message_count = 1;
    engine.recall_heads[0].state = RecallState::Ready;
    engine.initialize_recall_heads(false);
    assert_eq!(engine.recall_heads.len(), 1);
    assert_eq!(engine.recall_heads[0].state, RecallState::Dirty);
    assert_eq!(engine.recall_heads[0].indexed_message_count, 0);
}

#[test]
fn paths_are_compared_by_their_parts() {
    assert!(is_same_path("/h/a//b/./c/", "/h/a/b/c"));
    assert!(!is_same_path("h/a", "/h/a"));
    assert!(!is_same_path("./a", "a"));
    assert!(!is_same_path("/h/a/../b", "/h/b"));
    assert!(is_in("/h/ab//c", "/h/ab/"));
    assert!(!is_in("/h/abc", "/h/ab"));
    assert_eq!(components_of("/h//a/./b/"), ["/", "h", "a", "b"]);
    assert_eq!(components_of("./a/."), [".", "a"]);
    assert_eq!(join_path("/h", "a"), "/h/a");
    assert_eq!(join_path("/h/", ""), "/h/");
}

#[test]
fn historical_attachments_are_found_by_the_parts_of_their_paths() {
    let attachment = StoredAttachment {
        attachment_id: text("a"),
        session_id: text("s"),
        original_name: text("a"),
        blob_hash: text("hash"),
        size_bytes: 1,
        media_type: text("application/pdf"),
        agent_readable_path: text("/h/users/_personal/data/sessions/s/attachments//a"),
        state: AttachmentState::Ready,
        created_at_ms: 1,
    };
    let expected = "/h/users/_personal/data/sessions/s/attachments/a";
    assert_eq!(
        historical_attachment_path("/h/users/_personal", &attachment, expected),
        Some(text("/h/data/sessions/s/attachments/a"))
    );
    assert_eq!(
        historical_attachment_path("/h/users/_personal/", &attachment, expected),
        Some(text("/h/data/sessions/s/attachments/a"))
    );
    assert_eq!(historical_attachment_path("/h/users/other", &attachment, expected), None);
    assert_eq!(
        historical_attachment_path("/h/users/_personal", &attachment, "/h/elsewhere/a"),
        None
    );
}

#[test]
fn pages_join_to_the_whole_list() {
    let mut engine = open_engine();
    for name in ["s-page-a", "s-page-b", "s-page-c", "s-page-d", "s-page-e"] {
        create_session(&mut engine, name);
    }
    engine.sessions[3].is_pinned = true;
    engine.sessions[1].updated_at_ms += 5;
    let ids = |offset: u64, limit: u64| -> Vec<String> {
        let question = SessionSummaryQuery { offset, limit, ..query() };
        engine
            .query_session_summaries(&question)
            .expect("page")
            .into_iter()
            .map(|summary| summary.session_id)
            .collect()
    };
    let whole = ids(0, 50);
    assert_eq!(whole, ["s-page-d", "s-page-b", "s-page-a", "s-page-c", "s-page-e"]);
    let mut joined = ids(0, 2);
    joined.extend(ids(2, 2));
    joined.extend(ids(4, 2));
    joined.extend(ids(6, 2));
    assert_eq!(joined, whole);
}

#[test]
fn sessions_are_loaded_with_where_they_work() {
    let mut engine = open_engine();
    create_session(&mut engine, "s-where");
    let loaded = engine.load_session_state(&text("s-where")).expect("load");
    let environment = loaded.environment.expect("environment");
    assert_eq!(
        environment.session_private_directory,
        format!("{}/s-where/private", engine.sessions_directory)
    );
    assert_eq!(environment.workspace_id, None);
    let missing = engine.load_session_state(&text("s-nowhere")).expect("load nothing");
    assert!(missing.sessions.is_empty());
    assert!(missing.environment.is_none());
}

#[test]
fn ended_worker_takes_no_commands() {
    let mut queue = StoreQueue { is_closing: false, has_worker: true };
    assert!(queue.enqueue().is_ok());
    assert!(matches!(queue.shutdown_sent(false), ShutdownStep::JoinAndFail(_)));
    assert!(queue.enqueue().is_ok());
    assert_eq!(queue.shutdown_sent(true), ShutdownStep::AwaitReply);
    assert!(queue.enqueue().is_err());
    assert_eq!(queue.begin_shutdown(), ShutdownStep::Join);
    assert!(queue.take_worker());
    assert!(!queue.take_worker());
    assert!(queue.enqueue().is_err());
}

#[test]
fn worker_carries_out_what_it_receives_until_it_is_to_end() {
    assert_eq!(worker_step(Some(QueuedCommand::Work)), WorkerStep::CarryOut);
    assert_eq!(worker_step(Some(QueuedCommand::End)), WorkerStep::ReplyAndEnd);
    assert_eq!(worker_step(None), WorkerStep::End);
}

#[test]
fn ending_tells_whether_the_worker_ended() {
    assert!(joined_worker(true, true).is_ok());
    assert!(joined_worker(false, false).is_ok());
    refused(
        joined_worker(true, false),
        StoreErrorKind::Unavailable,
        "runtime storage worker is unavailable",
    );
    assert!(shutdown_result(ShutdownStep::Join, Ok(())).is_ok());
    refused(
        shutdown_result(ShutdownStep::Join, Err(worker_unavailable())),
        StoreErrorKind::Unavailable,
        "runtime storage worker is unavailable",
    );
    refused(
        shutdown_result(ShutdownStep::JoinAndFail(worker_unavailable()), Ok(())),
        StoreErrorKind::Unavailable,
        "runtime storage worker is unavailable",
    );
    refused(
        shutdown_result(ShutdownStep::Send, Ok(())),
        StoreErrorKind::Unavailable,
        "runtime storage worker is unavailable",
    );
}

#[test]
fn set_aside_directories_tell_of_their_sessions() {
    let engine = open_engine();
    assert_eq!(
        engine.directory_of_staged(&Some(text("s-staged.operation.1"))),
        Some(format!("{}/s-staged", engine.sessions_directory))
    );
    assert_eq!(engine.directory_of_staged(&Some(text("s-staged"))), None);
    assert_eq!(engine.directory_of_staged(&Some(text("..x"))), None);
    assert_eq!(engine.directory_of_staged(&None), None);
}
