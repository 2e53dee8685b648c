#![allow(dead_code, unused_imports)]

use std::sync::Arc;

use runtime_storage::history_recovery::{BlockedBody, FoundFiles, Obstacle};
use runtime_storage::append_effect::{
    AppendPurpose, ConversationStorageTarget, GoalSettlementEffect, RunSettlementEffect,
};
use runtime_storage::clear_cleanup::{
    cleanup_cleared_session_files, ChildEntry, ChildrenListing, DirectoryEntry, EntryKind,
    ImageEntry, SessionListing,
};
use runtime_storage::conversation::{decode, encode_messages, reconcile_append, RecordedMessage};
use runtime_storage::engine::{body_place, write_body, StorageEngine};
use runtime_storage::error::{conflict, StorageResult, StoreError, StoreErrorKind};
use runtime_storage::exchange_commands::{
    ChildToolExecutionStart, CompletedChildToolExchange, CompletedToolExchange,
    PendingChildToolExchange, PendingToolExchange, ToolExecutionStart,
};
use runtime_storage::message::{
    message_id, AssistantMessage, AssistantPart, ConversationMessage, FileReference,
    FileReferencesPart, FinishReason, ImageMediaType, JsonField, JsonValue, ModelIdentity, TextPart,
    TokenUsage, ToolCall, ToolImageReference, ToolMessage, ToolResult, ToolResultContent,
    ToolResultPart, ToolResultStatus, TranscriptVisibility, UserMessage, UserMessageOrigin,
    UserPart,
};
use runtime_storage::recovery::{AppendRequest, AppendTable, ChildAppendRequest};
use runtime_storage::rows::{
    AgentVariant, ApprovalMode, AttachmentState, ChildTaskRow, ChildTaskStatus, ConversationOwner,
    CrossSessionBinding, Device, GoalBudget, GoalInputBinding, GoalObjective, GoalPauseReason,
    GoalState, HistoryKind, HistoryOperationRow, HistoryState, InputKind, InputOrigin, InputState,
    MessageFeedback, NewStoredInput, PendingState, RecallHeadRow, RecallState, RunError,
    RunMessageRef, RunRow, SessionLifecycle, SessionProxy, SessionResources, SessionRole,
    SessionRow, SessionTitleOrigin, SessionUsageRow, SkillActivationOwner, SkillActivationTrigger,
    SkillCatalog, SkillNameState, StoredAttachment, StoredGoal, StoredInput,
    StoredSkillActivation, Workspace, WorkspaceLifecycle,
};
use runtime_storage::run_projection::{
    error_code_value, parse_error_code, parse_run_status, run_status_value, RunStatus,
    RuntimeErrorCode,
};
use runtime_storage::run_state::{NewRunAttempt, RunSettlement, UserMessageCommit};
use runtime_storage::session_fork::{ForkAttachment, ForkResources, NewStoredSession, SessionFork};
use runtime_storage::session_history::{
    ClearProgress, CleanupStatus, CompactOutcome, CompactionFinish, CompactionFinishKind,
    CompactionPreparation, CompactionPreparationResult, SessionHistoryClear,
};
use runtime_storage::session_loading::LoadedSession;
use runtime_storage::session_management::{
    ApprovalModeChange, ArchiveChange, MessageFeedbackChange, ModelChange, ReasoningEffortChange,
    SessionPinnedChange, SessionProxyChange, SessionTitleChange, StoredMessageFeedback,
    VariantChange,
};
use runtime_storage::session_resources::SessionExecutionEnvironment;
use runtime_storage::session_rewrite::ConversationRewrite;
use runtime_storage::session_transfer::{SessionDeletion, StagedDeletion};
use runtime_storage::skill::SkillNameStateChange;
use runtime_storage::tool_exchange::{PendingExchange, PendingTable, ReadyExchange};
use runtime_storage::tool_images::ImageFile;
use runtime_storage::usage::empty_usage;
use runtime_storage::work_plan::{
    StoredWorkPlan, TodoItemStatus, WorkPlanClear, WorkPlanItem, WorkPlanMutation,
};

use runtime_storage::engine::remove_body;
use runtime_storage::session_history::SessionHistoryClearResult;

fn text(value: &str) -> String {
    value.to_owned()
}

fn encode(message: &ConversationMessage) -> Vec<u8> {
    format!("{message:?}").into_bytes()
}

fn record(message: ConversationMessage) -> Arc<RecordedMessage> {
    Arc::new(RecordedMessage {
        record: encode(&message),
        message: Arc::new(message),
    })
}

fn records(messages: Vec<ConversationMessage>) -> Vec<Arc<RecordedMessage>> {
    messages.into_iter().map(record).collect()
}

fn open_engine() -> StorageEngine {
    StorageEngine::new(text("/home/data/sessions"), text("/home/data/session-deletions"))
}

fn environment(engine: &StorageEngine, session: &str) -> SessionExecutionEnvironment {
    let directory = format!("{}/{session}", engine.sessions_directory);
    SessionExecutionEnvironment {
        workspace_id: None,
        working_directory: format!("{directory}/private"),
        workspace_private_directory: None,
        session_attachment_directory: format!("{directory}/attachments"),
        session_tool_image_directory: format!("{directory}/tool-images"),
        session_private_directory: format!("{directory}/private"),
    }
}

fn catalog() -> SkillCatalog {
    SkillCatalog {
        revision: text("legacy"),
        document: text("{}"),
    }
}

fn new_session(engine: &StorageEngine, session: &str) -> NewStoredSession {
    NewStoredSession {
        session_id: text(session),
        title: format!("Session {session}"),
        title_origin: SessionTitleOrigin::Generated,
        automatic_title_pending: false,
        model_key: text("fixture-model"),
        reasoning_effort: None,
        system_prompt: text("stable prompt"),
        skill_catalog: catalog(),
        environment: environment(engine, session),
        current_variant: AgentVariant::Build,
        approval_mode: ApprovalMode::Ask,
        role: SessionRole::Standard,
        materialization_key: None,
        created_at_ms: 1_000,
    }
}

fn session_row(session: &str, role: SessionRole, created_at_ms: i64) -> SessionRow {
    SessionRow {
        session_id: text(session),
        title: format!("Session {session}"),
        title_origin: SessionTitleOrigin::Generated,
        automatic_title_pending: false,
        model_key: text("fixture-model"),
        reasoning_effort: None,
        system_prompt: text("stable prompt"),
        skill_catalog: catalog(),
        current_variant: AgentVariant::Build,
        approval_mode: ApprovalMode::Ask,
        role,
        lifecycle: SessionLifecycle::Active,
        body_generation: 1,
        message_count: 0,
        created_at_ms,
        updated_at_ms: created_at_ms,
        archived_at_ms: None,
        is_pinned: false,
        materialization_key: None,
        proxy: None,
        pc_output_device_id: None,
    }
}

fn create_session_as(engine: &mut StorageEngine, session: &str, role: SessionRole, created: i64) {
    engine.sessions.push(session_row(session, role, created));
    let environment = environment(engine, session);
    engine.session_resources.push(SessionResources {
        session_id: text(session),
        workspace_id: None,
        working_directory: environment.working_directory,
        attachment_directory: environment.session_attachment_directory,
        private_directory: environment.session_private_directory,
        created_at_ms: created,
    });
    engine.session_usage.push(SessionUsageRow {
        session_id: text(session),
        usage: empty_usage(),
        backfilled: true,
        updated_at_ms: created,
    });
    let path = body_path(engine, session, 1);
    write_body(&mut engine.files, &path, Vec::new());
}

fn create_session(engine: &mut StorageEngine, session: &str) {
    create_session_as(engine, session, SessionRole::Standard, 1_000);
}

fn main_target(session: &str) -> ConversationStorageTarget {
    ConversationStorageTarget::Session {
        session_id: text(session),
        run_id: text("any-run"),
    }
}

fn child_target(session: &str, child: &str) -> ConversationStorageTarget {
    ConversationStorageTarget::ChildTask {
        session_id: text(session),
        child_task_id: text(child),
    }
}

fn body_path(engine: &StorageEngine, session: &str, generation: u64) -> String {
    engine
        .target_body_path(&main_target(session), generation)
        .expect("body path")
}

fn has_body(engine: &StorageEngine, path: &str) -> bool {
    body_place(&engine.files, &text(path)).is_some()
}

fn session<'a>(engine: &'a StorageEngine, session: &str) -> &'a SessionRow {
    let place = engine.session_place(&text(session)).expect("session");
    &engine.sessions[place]
}

fn run<'a>(engine: &'a StorageEngine, run: &str) -> &'a RunRow {
    engine
        .runs
        .iter()
        .find(|row| row.run_id == run)
        .expect("run")
}

fn try_load(engine: &StorageEngine, session: &str) -> StorageResult<Vec<Arc<ConversationMessage>>> {
    engine.load_target_conversation(&main_target(session))
}

fn conversation(engine: &StorageEngine, session: &str) -> Vec<Arc<ConversationMessage>> {
    try_load(engine, session).expect("conversation")
}

fn assert_messages(found: &[Arc<ConversationMessage>], expected: &[ConversationMessage]) {
    assert_eq!(found.len(), expected.len());
    for (left, right) in found.iter().zip(expected) {
        assert_eq!(**left, *right);
    }
}

fn user(value: &str, content: &str) -> UserMessage {
    UserMessage {
        id: text(value),
        origin: UserMessageOrigin::User,
        transcript_visibility: TranscriptVisibility::Visible,
        parts: vec![UserPart::Text(TextPart {
            id: format!("part-{value}"),
            text: text(content),
        })],
    }
}

fn user_message(value: &str, content: &str) -> ConversationMessage {
    ConversationMessage::User(user(value, content))
}

fn fixture_model() -> ModelIdentity {
    ModelIdentity {
        provider: text("fixture"),
        model: text("fixture-model"),
    }
}

fn assistant(value: &str, content: &str) -> AssistantMessage {
    AssistantMessage {
        id: text(value),
        model: fixture_model(),
        parts: vec![
            AssistantPart::Reasoning(TextPart {
                id: format!("reasoning-{value}"),
                text: text("private reasoning"),
            }),
            AssistantPart::Text(TextPart {
                id: format!("text-{value}"),
                text: text(content),
            }),
        ],
        finish_reason: FinishReason::Stop,
        usage: None,
    }
}

fn assistant_message(value: &str, content: &str) -> ConversationMessage {
    ConversationMessage::Assistant(assistant(value, content))
}

fn assistant_message_with_usage(
    value: &str,
    input_tokens: u64,
    cached_input_tokens: Option<u64>,
) -> ConversationMessage {
    let mut message = assistant(value, value);
    message.usage = Some(TokenUsage {
        input_tokens,
        output_tokens: 10,
        total_tokens: input_tokens + 10,
        cached_input_tokens,
        reasoning_tokens: Some(4),
    });
    ConversationMessage::Assistant(message)
}

fn tool_exchange() -> Vec<ConversationMessage> {
    vec![
        ConversationMessage::Assistant(AssistantMessage {
            id: text("assistant-tool"),
            model: fixture_model(),
            parts: vec![
                AssistantPart::ProviderState(br#"{"cursor":"opaque"}"#.to_vec()),
                AssistantPart::ToolCall(ToolCall {
                    id: text("call-1"),
                    name: text("echo_text"),
                    arguments: text(r#"{"text":"hello"}"#),
                }),
            ],
            finish_reason: FinishReason::ToolCalls,
            usage: None,
        }),
        ConversationMessage::Tool(ToolMessage {
            id: text("tool-result"),
            result: ToolResult {
                call_id: text("call-1"),
                status: ToolResultStatus::Success,
                content: ToolResultContent::Text(text("hello")),
            },
        }),
    ]
}

fn tool_image_exchange(file_name: &str) -> Vec<ConversationMessage> {
    vec![
        user_message("user-image", "inspect the image"),
        ConversationMessage::Assistant(AssistantMessage {
            id: text("assistant-image"),
            model: fixture_model(),
            parts: vec![AssistantPart::ToolCall(ToolCall {
                id: text("call-image"),
                name: text("read_image"),
                arguments: text(r#"{"path":"/outside/source.png"}"#),
            })],
            finish_reason: FinishReason::ToolCalls,
            usage: None,
        }),
        ConversationMessage::Tool(ToolMessage {
            id: text("tool-image"),
            result: ToolResult {
                call_id: text("call-image"),
                status: ToolResultStatus::Success,
                content: ToolResultContent::Parts(vec![ToolResultPart::Image(
                    ToolImageReference {
                        file_name: text(file_name),
                        media_type: ImageMediaType::Png,
                    },
                )]),
            },
        }),
    ]
}

fn pending_tool_exchange(session: &str, run: &str, receipt: &str) -> PendingToolExchange {
    PendingToolExchange {
        receipt_id: text(receipt),
        session_id: text(session),
        run_id: text(run),
        assistant: record(tool_exchange().remove(0)),
        step: Some(1),
        created_at_ms: 2_000,
    }
}

fn pending_delegate_exchange(session: &str, run: &str, receipt: &str) -> PendingToolExchange {
    PendingToolExchange {
        receipt_id: text(receipt),
        session_id: text(session),
        run_id: text(run),
        assistant: record(ConversationMessage::Assistant(AssistantMessage {
            id: format!("assistant-{receipt}"),
            model: fixture_model(),
            parts: vec![AssistantPart::ToolCall(ToolCall {
                id: text("call-1"),
                name: text("delegate_task"),
                arguments: text(r#"{"title":"recover child","task":"inspect"}"#),
            })],
            finish_reason: FinishReason::ToolCalls,
            usage: None,
        })),
        step: Some(1),
        created_at_ms: 2_000,
    }
}

fn ready_results() -> Arc<ReadyExchange> {
    Arc::new(ReadyExchange {
        results: vec![record(tool_exchange().remove(1))],
        activation_message: None,
        skill_activations: Arc::new(Vec::new()),
    })
}

fn start_tool(engine: &mut StorageEngine, session: &str, run: &str, receipt: &str) {
    engine
        .mark_tool_execution_started(ToolExecutionStart {
            receipt_id: text(receipt),
            session_id: text(session),
            run_id: text(run),
            call_id: text("call-1"),
            started_at_ms: 2_200,
        })
        .expect("record tool started");
}

fn new_input(session: &str, input: &str, run: &str, message: ConversationMessage, at: i64) -> NewStoredInput {
    NewStoredInput {
        input_id: text(input),
        run_id: text(run),
        session_id: text(session),
        idempotency_key: None,
        agent_variant: AgentVariant::Build,
        origin: InputOrigin::User,
        goal_binding: None,
        cross_session: None,
        channel_source: None,
        approval_mode: ApprovalMode::Ask,
        user_message_id: message_id(&message).clone(),
        message: record(message),
        accepted_at_ms: at,
    }
}

fn settlement(operation: &str, session: &str, run: &str, status: RunStatus, messages: Vec<ConversationMessage>, at: i64) -> RunSettlement {
    RunSettlement {
        operation_id: text(operation),
        run_id: text(run),
        session_id: text(session),
        effect: RunSettlementEffect {
            status,
            cancel_requested: false,
            error: None,
            goal_effect: None,
            proxy_report: None,
        },
        messages: records(messages),
        message_step: None,
        finished_at_ms: at,
    }
}

fn commit_completed_turn(engine: &mut StorageEngine, session: &str, suffix: &str, accepted_at_ms: i64) {
    let input = format!("input-{suffix}");
    let run = format!("run-{suffix}");
    let user_id = format!("user-{suffix}");
    engine
        .insert_input(&new_input(session, &input, &run, user_message(&user_id, suffix), accepted_at_ms))
        .expect("accept fixture input");
    engine
        .commit_user_message(UserMessageCommit {
            operation_id: format!("commit-{suffix}"),
            input_id: input,
            run_id: run.clone(),
            session_id: text(session),
            message: Some(record(user_message(&user_id, suffix))),
            reasoning_effort: None,
            created_at_ms: accepted_at_ms + 1,
        })
        .expect("commit fixture user message");
    engine
        .settle_run(settlement(
            &format!("settle-{suffix}"),
            session,
            &run,
            RunStatus::Completed,
            vec![assistant_message(&format!("assistant-{suffix}"), suffix)],
            accepted_at_ms + 2,
        ))
        .expect("settle fixture run");
}

fn seed_session_and_run(engine: &mut StorageEngine, session: &str, run: &str) {
    create_session(engine, session);
    let order = engine.inputs.len() as i64 + 1;
    engine.inputs.push(StoredInput {
        queue_order: order,
        kind: InputKind::Message,
        input_id: format!("input-{run}"),
        session_id: text(session),
        idempotency_key: None,
        agent_variant: AgentVariant::Build,
        origin: InputOrigin::User,
        goal_binding: None,
        cross_session: None,
        channel_source: None,
        user_message_id: format!("user-{run}"),
        state: InputState::Committed,
        queued_message: None,
        accepted_at_ms: 1_001,
    });
    engine.runs.push(RunRow {
        run_id: text(run),
        session_id: text(session),
        input_id: format!("input-{run}"),
        attempt: 1,
        status: RunStatus::Accepted,
        cancel_requested: false,
        approval_mode: ApprovalMode::Ask,
        reasoning_effort: None,
        error: None,
        created_at_ms: 1_001,
        started_at_ms: None,
        finished_at_ms: None,
    });
}

fn mark_running(engine: &mut StorageEngine, run: &str, at: i64) {
    let row = engine
        .runs
        .iter_mut()
        .find(|row| row.run_id == run)
        .expect("run");
    row.status = RunStatus::Running;
    row.started_at_ms = Some(at);
}

fn append_request(operation: &str, session: &str, run: &str) -> AppendRequest {
    AppendRequest {
        operation_id: text(operation),
        session_id: text(session),
        run_id: text(run),
        messages: records(vec![
            user_message(&format!("message-{operation}"), "hello"),
            assistant_message(&format!("assistant-{operation}"), "world"),
        ]),
        message_step: None,
        created_at_ms: 2_000,
    }
}

fn create_child_task(engine: &mut StorageEngine, session: &str, run: &str, child: &str) {
    engine.child_tasks.push(ChildTaskRow {
        child_task_id: text(child),
        session_id: text(session),
        parent_run_id: text(run),
        parent_tool_call_id: text("call-1"),
        status: ChildTaskStatus::Accepted,
        final_message_id: None,
        error_code: None,
        body_generation: 1,
        message_count: 0,
    });
    let path = engine
        .target_body_path(&child_target(session, child), 1)
        .expect("child body path");
    write_body(&mut engine.files, &path, Vec::new());
}

fn start_child_task(engine: &mut StorageEngine, session: &str, child: &str, operation: &str, message: ConversationMessage) {
    engine
        .append_child_messages(ChildAppendRequest {
            operation_id: text(operation),
            child_task_id: text(child),
            session_id: text(session),
            messages: vec![record(message)],
            message_step: None,
            created_at_ms: 2_200,
            purpose: AppendPurpose::Messages,
        })
        .expect("start child");
    let place = engine
        .child_place(&text(session), &text(child))
        .expect("child");
    engine.child_tasks[place].status = ChildTaskStatus::Running;
}

fn take_up(engine: &mut StorageEngine, session: &str) -> StorageResult<LoadedSession> {
    let id = text(session);
    let mended = engine.prepare_session_execution(&id, &FoundFiles::none(), &encode)?;
    engine.take_up_session(&id, &mended, false)
}

fn take_up_all(engine: &mut StorageEngine) -> Vec<LoadedSession> {
    let ids: Vec<String> = engine
        .sessions
        .iter()
        .map(|row| row.session_id.clone())
        .collect();
    ids.iter()
        .map(|id| take_up(engine, id).expect("take up session"))
        .collect()
}
fn file(name: &str) -> DirectoryEntry {
    DirectoryEntry {
        name: Some(text(name)),
        kind: EntryKind::File,
    }
}

fn directory(name: &str) -> DirectoryEntry {
    DirectoryEntry {
        name: Some(text(name)),
        kind: EntryKind::Directory,
    }
}

fn listing(engine: &StorageEngine, session: &str, images: Vec<ImageEntry>) -> SessionListing {
    let prefix = format!("{}/{session}/", engine.sessions_directory);
    let mut entries: Vec<DirectoryEntry> = engine
        .files
        .iter()
        .filter_map(|body| body.path.strip_prefix(&prefix))
        .filter(|name| !name.contains('/'))
        .map(file)
        .collect();
    entries.push(directory("private"));
    entries.push(directory("attachments"));
    entries.push(directory("tool-images"));
    SessionListing {
        entries,
        children: ChildrenListing::Absent,
        tool_images: images,
    }
}

fn clean(engine: &mut StorageEngine, session: &str, generation: u64, images: Vec<ImageEntry>) -> bool {
    let listing = listing(engine, session, images);
    let Ok(plan) = cleanup_cleared_session_files(&listing, generation) else {
        return false;
    };
    for name in &plan.old_bodies {
        let path = format!("{}/{session}/{name}", engine.sessions_directory);
        remove_body(&mut engine.files, &path);
    }
    true
}

fn clear_request(engine: &StorageEngine, session: &str, operation: &str, prompt: &str, at: i64) -> SessionHistoryClear {
    SessionHistoryClear {
        operation_id: text(operation),
        session_id: text(session),
        expected_generation: 1,
        expected_role: SessionRole::Standard,
        environment: environment(engine, session),
        system_prompt: text(prompt),
        skill_catalog: catalog(),
        skill_catalog_is_valid: true,
        changed_at_ms: at,
    }
}

fn clear(engine: &mut StorageEngine, request: &SessionHistoryClear, images: Vec<ImageEntry>) -> StorageResult<SessionHistoryClearResult> {
    match engine.clear_session_history(request)? {
        ClearProgress::Finished(result) => Ok(result),
        ClearProgress::AwaitsCleanup {
            source_generation,
            result_generation,
        } => {
            let cleaned = clean(engine, &request.session_id, result_generation, images);
            let status =
                engine.finish_clear_cleanup(&request.operation_id, cleaned, request.changed_at_ms);
            engine.clear_result(&request.session_id, source_generation, result_generation, status)
        }
    }
}

fn receipt(engine: &StorageEngine, operation: &str) -> HistoryState {
    engine
        .history_operation(&text(operation))
        .expect("receipt")
        .expect("receipt is there")
        .state
}

#[test]
fn clear_session_atomically_replaces_history_and_preserves_stable_resources() {
    let mut engine = open_engine();
    create_session_as(&mut engine, "s-clear-controller", SessionRole::Controller, 1_000);
    create_session(&mut engine, "s-clear-target");
    engine
        .insert_input(&new_input(
            "s-clear-target",
            "input-clear-target",
            "r-clear-target",
            user_message("user-clear-target", "clear target"),
            2_000,
        ))
        .expect("accept clear source input");
    engine
        .commit_user_message(UserMessageCommit {
            operation_id: text("commit-clear-target"),
            input_id: text("input-clear-target"),
            run_id: text("r-clear-target"),
            session_id: text("s-clear-target"),
            message: Some(record(user_message("user-clear-target", "clear target"))),
            reasoning_effort: None,
            created_at_ms: 2_001,
        })
        .expect("start clear source run");
    engine
        .set_session_proxy(SessionProxyChange {
            target_session_id: text("s-clear-target"),
            controller_session_id: text("s-clear-controller"),
            enabled: true,
            changed_at_ms: 2_001,
        })
        .expect("enable clear proxy");
    let binding = || CrossSessionBinding::ProxyReport {
        source_session_id: text("s-clear-target"),
        source_run_id: text("r-clear-target"),
    };
    let mut message = user("m-clear-cross-session-report", "report");
    message.origin = UserMessageOrigin::Runtime;
    message.parts.push(UserPart::InternalContext(TextPart {
        id: text("p-clear-cross-session-report"),
        text: text("stable source report"),
    }));
    let mut report = new_input(
        "s-clear-controller",
        "i-clear-cross-session-report",
        "r-clear-cross-session-report",
        ConversationMessage::User(message),
        2_002,
    );
    report.idempotency_key = Some(text("clear-cross-session-report"));
    report.origin = InputOrigin::Runtime;
    report.cross_session = Some(binding());
    let mut ending = settlement(
        "settle-clear-target",
        "s-clear-target",
        "r-clear-target",
        RunStatus::Completed,
        vec![assistant_message("assistant-clear-target", "done")],
        2_002,
    );
    ending.message_step = Some(1);
    ending.effect.proxy_report = Some(Arc::new(report));
    engine
        .settle_run(ending)
        .expect("settle source and accept cross-session report");
    let old_body = body_path(&engine, "s-clear-target", 1);
    assert!(has_body(&engine, &old_body));

    let request = clear_request(&engine, "s-clear-target", "clear-operation-1", "rebuilt prompt", 4_000);
    let result = clear(&mut engine, &request, Vec::new()).expect("clear target history");
    assert_eq!(result.source_generation, 1);
    assert_eq!(result.result_generation, 2);
    assert_eq!(result.cleanup_status, CleanupStatus::Completed);
    assert_eq!(result.session.title, "New Session");
    assert_eq!(result.session.message_count, 0);
    assert_eq!(result.session.body_generation, 2);
    assert_eq!(result.session.proxy, None);
    assert_eq!(result.session.system_prompt, "rebuilt prompt");
    assert!(conversation(&engine, "s-clear-target").is_empty());
    assert!(!has_body(&engine, &old_body));
    assert!(has_body(&engine, &body_path(&engine, "s-clear-target", 2)));
    assert!(engine
        .inputs
        .iter()
        .all(|input| input.session_id != "s-clear-target"));
    assert!(engine
        .inputs
        .iter()
        .any(|input| input.input_id == "i-clear-cross-session-report"
            && input.cross_session == Some(binding())));

    let again = clear_request(
        &engine,
        "s-clear-target",
        "clear-operation-1",
        "ignored retry prompt",
        5_000,
    );
    let replay = clear(&mut engine, &again, Vec::new()).expect("replay clear operation");
    assert_eq!(replay, result);
}

#[test]
fn clear_session_keeps_user_title_and_rejects_a_busy_snapshot() {
    let mut engine = open_engine();
    create_session(&mut engine, "s-clear-busy");
    engine
        .rename_session(SessionTitleChange {
            session_id: text("s-clear-busy"),
            title: text("Keep my title"),
            changed_at_ms: 1_100,
        })
        .expect("rename clear target");
    engine
        .insert_input(&new_input(
            "s-clear-busy",
            "i-clear-busy",
            "r-clear-busy",
            user_message("m-clear-busy", "queued"),
            2_000,
        ))
        .expect("accept queued clear input");
    let request = clear_request(&engine, "s-clear-busy", "clear-busy-operation", "new prompt", 3_000);
    let error = clear(&mut engine, &request, Vec::new()).expect_err("busy clear must fail");
    assert_eq!(error.kind(), StoreErrorKind::Conflict);
    assert_eq!(session(&engine, "s-clear-busy").body_generation, 1);
    assert_eq!(session(&engine, "s-clear-busy").title, "Keep my title");

    engine.remove_inputs(&vec![text("i-clear-busy")]);
    let request = clear_request(
        &engine,
        "s-clear-busy",
        "clear-user-title-operation",
        "new prompt",
        4_000,
    );
    let cleared = clear(&mut engine, &request, Vec::new()).expect("clear user titled session");
    assert_eq!(cleared.session.title, "Keep my title");
    assert_eq!(cleared.session.title_origin, SessionTitleOrigin::User);
}

#[test]
fn clear_cleanup_pending_keeps_new_history_authoritative_and_recovers() {
    let mut engine = open_engine();
    create_session(&mut engine, "s-clear-recovery");
    commit_completed_turn(&mut engine, "s-clear-recovery", "clear-recovery", 2_000);
    let unexpected = || {
        vec![ImageEntry {
            entry: file("unexpected.txt"),
            accepted: false,
        }]
    };
    let request = clear_request(
        &engine,
        "s-clear-recovery",
        "clear-recovery-operation",
        "recovered prompt",
        3_000,
    );
    let result = clear(&mut engine, &request, unexpected()).expect("clear with pending cleanup");
    assert_eq!(result.cleanup_status, CleanupStatus::Pending);
    assert_eq!(session(&engine, "s-clear-recovery").body_generation, 2);
    assert!(conversation(&engine, "s-clear-recovery").is_empty());
    assert!(has_body(&engine, &body_path(&engine, "s-clear-recovery", 1)));
    assert_eq!(
        receipt(&engine, "clear-recovery-operation"),
        HistoryState::CleanupPending
    );

    let recovered = take_up(&mut engine, "s-clear-recovery").expect("load pending clear runtime");
    assert_eq!(recovered.sessions[0].body_generation, 2);
    assert!(!recovered.conversation_unavailable);

    let pending = engine.pending_cleanups(&None);
    assert_eq!(pending.len(), 1);
    assert_eq!(pending[0].operation_id, "clear-recovery-operation");
    assert!(clean(
        &mut engine,
        "s-clear-recovery",
        pending[0].result_generation,
        Vec::new()
    ));
    engine
        .recover_session_history_operations(
            &None,
            &FoundFiles {
                cleaned: vec![text("clear-recovery-operation")],
                blocked: Vec::new(),
            },
        )
        .expect("recover pending cleanup");
    assert!(!has_body(&engine, &body_path(&engine, "s-clear-recovery", 1)));
    assert_eq!(
        receipt(&engine, "clear-recovery-operation"),
        HistoryState::Completed
    );
}

#[test]
fn interrupted_clear_preparation_removes_only_the_unpublished_generation() {
    let mut engine = open_engine();
    create_session(&mut engine, "s-clear-preparing-recovery");
    commit_completed_turn(
        &mut engine,
        "s-clear-preparing-recovery",
        "clear-preparing-recovery",
        2_000,
    );
    engine.history_operations.push(HistoryOperationRow {
        operation_id: text("clear-preparing-crash"),
        session_id: text("s-clear-preparing-recovery"),
        kind: HistoryKind::Clear,
        state: HistoryState::Preparing,
        source_generation: 1,
        result_generation: Some(2),
        compacted_message_count: None,
        retained_message_count: None,
        created_at_ms: 3_000,
        finished_at_ms: None,
    });
    let unpublished = body_path(&engine, "s-clear-preparing-recovery", 2);
    write_body(&mut engine.files, &unpublished, Vec::new());

    let recovered =
        take_up(&mut engine, "s-clear-preparing-recovery").expect("recover preparing clear");
    assert_eq!(recovered.sessions[0].body_generation, 1);
    assert_eq!(recovered.sessions[0].message_count, 2);
    assert!(!has_body(&engine, &unpublished));
    assert_eq!(conversation(&engine, "s-clear-preparing-recovery").len(), 2);
    assert_eq!(
        receipt(&engine, "clear-preparing-crash"),
        HistoryState::Interrupted
    );
}

#[test]
fn clear_switch_transaction_failure_keeps_old_history_and_removes_new_file() {
    let mut engine = open_engine();
    create_session(&mut engine, "s-clear-switch-failure");
    commit_completed_turn(
        &mut engine,
        "s-clear-switch-failure",
        "clear-switch-failure",
        2_000,
    );
    let request = clear_request(
        &engine,
        "s-clear-switch-failure",
        "clear-switch-failure",
        "must not commit",
        3_000,
    );
    engine.announce_clear(&request).expect("announce clear");
    assert!(has_body(&engine, &body_path(&engine, "s-clear-switch-failure", 2)));
    assert_eq!(receipt(&engine, "clear-switch-failure"), HistoryState::Preparing);
    let error = engine
        .settle_clear(&request, Err(conflict("injected clear switch failure")))
        .expect_err("clear switch transaction must fail");
    assert_eq!(error.kind(), StoreErrorKind::Conflict);
    assert_eq!(session(&engine, "s-clear-switch-failure").body_generation, 1);
    assert_eq!(conversation(&engine, "s-clear-switch-failure").len(), 2);
    assert!(!has_body(&engine, &body_path(&engine, "s-clear-switch-failure", 2)));
    assert!(engine
        .inputs
        .iter()
        .any(|input| input.session_id == "s-clear-switch-failure"));
    assert_eq!(receipt(&engine, "clear-switch-failure"), HistoryState::Interrupted);
}

#[test]
fn clear_that_no_longer_fits_is_given_up() {
    let mut engine = open_engine();
    create_session(&mut engine, "s-clear-late");
    commit_completed_turn(&mut engine, "s-clear-late", "clear-late", 2_000);
    let request = clear_request(&engine, "s-clear-late", "clear-late", "late", 3_000);
    engine.announce_clear(&request).expect("announce clear");
    engine.sessions[0].role = SessionRole::Controller;
    let error = engine
        .settle_clear(&request, Ok(()))
        .expect_err("changed session");
    assert_eq!(error.kind(), StoreErrorKind::Conflict);
    assert_eq!(error.message, "clear session snapshot changed");
    engine.sessions[0].role = SessionRole::Standard;
    assert!(!has_body(&engine, &body_path(&engine, "s-clear-late", 2)));
    assert_eq!(conversation(&engine, "s-clear-late").len(), 2);
    assert_eq!(receipt(&engine, "clear-late"), HistoryState::Interrupted);

    let progress = engine.clear_session_history(&request).expect("clear again");
    assert!(matches!(
        progress,
        ClearProgress::AwaitsCleanup { source_generation: 1, result_generation: 2 }
    ));
    assert_eq!(conversation(&engine, "s-clear-late").len(), 0);
}

#[test]
fn interrupted_clear_stops_at_what_cannot_be_taken_away() {
    for (obstacle, kind, message) in [
        (
            Obstacle::NotAFile,
            StoreErrorKind::InvalidData,
            "interrupted clear path is not a regular file",
        ),
        (
            Obstacle::NotInspected,
            StoreErrorKind::Internal,
            "interrupted clear file could not be inspected",
        ),
        (
            Obstacle::NotRemoved,
            StoreErrorKind::Internal,
            "interrupted clear file could not be removed",
        ),
    ] {
        let mut engine = open_engine();
        create_session(&mut engine, "s-clear-blocked");
        commit_completed_turn(&mut engine, "s-clear-blocked", "clear-blocked", 2_000);
        let request = clear_request(&engine, "s-clear-blocked", "clear-blocked", "late", 3_000);
        engine.announce_clear(&request).expect("announce clear");
        let listed = engine.interrupted_clears(&None);
        assert_eq!(listed.len(), 1);
        assert_eq!(listed[0].operation_id, "clear-blocked");
        assert_eq!(listed[0].path, body_path(&engine, "s-clear-blocked", 2));
        let blocked = |operation: &str| FoundFiles {
            cleaned: Vec::new(),
            blocked: vec![BlockedBody {
                operation_id: text(operation),
                obstacle,
            }],
        };
        let error = engine
            .recover_session_history_operations(&None, &blocked("clear-blocked"))
            .expect_err("obstacle");
        assert_eq!(error.kind(), kind);
        assert_eq!(error.message, message);
        assert_eq!(receipt(&engine, "clear-blocked"), HistoryState::Preparing);
        let error = engine
            .prepare_session_execution(&text("s-clear-blocked"), &blocked("clear-blocked"), &encode)
            .expect_err("obstacle");
        assert_eq!(error.message, message);

        engine
            .recover_session_history_operations(&None, &blocked("another"))
            .expect("nothing in the way");
        assert_eq!(receipt(&engine, "clear-blocked"), HistoryState::Interrupted);
        assert!(!has_body(&engine, &body_path(&engine, "s-clear-blocked", 2)));
        assert!(engine.interrupted_clears(&None).is_empty());
        assert_eq!(conversation(&engine, "s-clear-blocked").len(), 2);
    }
}
