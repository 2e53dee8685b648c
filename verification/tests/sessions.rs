#![allow(dead_code, unused_imports)]

use std::sync::Arc;

use runtime_storage::history_recovery::FoundFiles;
use runtime_storage::append_effect::{
    AppendPurpose, ConversationStorageTarget, GoalSettlementEffect, RunSettlementEffect,
};
use runtime_storage::clear_cleanup::{
    cleanup_cleared_session_files, ChildEntry, ChildrenListing, DirectoryEntry, EntryKind,
    ImageEntry, SessionListing,
};
use runtime_storage::conversation::{decode, encode_messages, reconcile_append, RecordedMessage};
use runtime_storage::engine::{body_place, write_body, StorageEngine};
use runtime_storage::error::{StorageResult, StoreError, StoreErrorKind};
use runtime_storage::exchange_commands::{
    ChildToolExecutionStart, CompletedChildToolExchange, CompletedToolExchange,
    PendingChildToolExchange, PendingToolExchange, ToolExecutionStart,
};
use runtime_storage::message::{
    message_id, AssistantMessage, AssistantPart, ConversationMessage, FileReference,
    FileReferencesPart, FinishReason, ImageMediaType, JsonField, JsonValue, ModelIdentity, TextPart,
    TokenUsage, ToolCall, ToolImageReference, ToolMessage, ToolResult, ToolResultContent,
    ToolResultPart, ToolResultStatus, TranscriptVisibility, UserMessage, UserMessageOrigin,
    UserPart,
};
use runtime_storage::recovery::{AppendRequest, AppendTable, ChildAppendRequest};
use runtime_storage::rows::{
    AgentVariant, ApprovalMode, AttachmentState, ChildTaskRow, ChildTaskStatus, ConversationOwner,
    CrossSessionBinding, Device, GoalBudget, GoalInputBinding, GoalObjective, GoalPauseReason,
    GoalState, HistoryKind, HistoryOperationRow, HistoryState, InputKind, InputOrigin, InputState,
    MessageFeedback, NewStoredInput, PendingState, RecallHeadRow, RecallState, RunError,
    RunMessageRef, RunRow, SessionLifecycle, SessionProxy, SessionResources, SessionRole,
    SessionRow, SessionTitleOrigin, SessionUsageRow, SkillActivationOwner, SkillActivationTrigger,
    SkillCatalog, SkillNameState, StoredAttachment, StoredGoal, StoredInput,
    StoredSkillActivation, Workspace, WorkspaceLifecycle,
};
use runtime_storage::run_projection::{
    error_code_value, parse_error_code, parse_run_status, run_status_value, RunStatus,
    RuntimeErrorCode,
};
use runtime_storage::run_state::{NewRunAttempt, RunSettlement, UserMessageCommit};
use runtime_storage::session_fork::{ForkAttachment, ForkResources, NewStoredSession, SessionFork};
use runtime_storage::session_history::{
    ClearProgress, CleanupStatus, CompactOutcome, CompactionFinish, CompactionFinishKind,
    CompactionPreparation, CompactionPreparationResult, SessionHistoryClear,
};
use runtime_storage::session_loading::LoadedSession;
use runtime_storage::session_management::{
    ApprovalModeChange, ArchiveChange, MessageFeedbackChange, ModelChange, ReasoningEffortChange,
    SessionPinnedChange, SessionProxyChange, SessionTitleChange, StoredMessageFeedback,
    VariantChange,
};
use runtime_storage::session_resources::SessionExecutionEnvironment;
use runtime_storage::session_rewrite::ConversationRewrite;
use runtime_storage::session_transfer::{SessionDeletion, StagedDeletion};
use runtime_storage::skill::SkillNameStateChange;
use runtime_storage::tool_exchange::{PendingExchange, PendingTable, ReadyExchange};
use runtime_storage::tool_images::ImageFile;
use runtime_storage::usage::empty_usage;
use runtime_storage::work_plan::{
    StoredWorkPlan, TodoItemStatus, WorkPlanClear, WorkPlanItem, WorkPlanMutation,
};

use runtime_storage::run_loading::{decode_run, RunColumns};
use runtime_storage::session_summaries::{decode_session, SessionColumns};
use runtime_storage::skill::{append_activations, check_activations};

fn text(value: &str) -> String {
    value.to_owned()
}

fn encode(message: &ConversationMessage) -> Vec<u8> {
    format!("{message:?}").into_bytes()
}

fn record(message: ConversationMessage) -> Arc<RecordedMessage> {
    Arc::new(RecordedMessage {
        record: encode(&message),
        message: Arc::new(message),
    })
}

fn records(messages: Vec<ConversationMessage>) -> Vec<Arc<RecordedMessage>> {
    messages.into_iter().map(record).collect()
}

fn open_engine() -> StorageEngine {
    StorageEngine::new(text("/home/data/sessions"), text("/home/data/session-deletions"))
}

fn environment(engine: &StorageEngine, session: &str) -> SessionExecutionEnvironment {
    let directory = format!("{}/{session}", engine.sessions_directory);
    SessionExecutionEnvironment {
        workspace_id: None,
        working_directory: format!("{directory}/private"),
        workspace_private_directory: None,
        session_attachment_directory: format!("{directory}/attachments"),
        session_tool_image_directory: format!("{directory}/tool-images"),
        session_private_directory: format!("{directory}/private"),
    }
}

fn catalog() -> SkillCatalog {
    SkillCatalog {
        revision: text("legacy"),
        document: text("{}"),
    }
}

fn new_session(engine: &StorageEngine, session: &str) -> NewStoredSession {
    NewStoredSession {
        session_id: text(session),
        title: format!("Session {session}"),
        title_origin: SessionTitleOrigin::Generated,
        automatic_title_pending: false,
        model_key: text("fixture-model"),
        reasoning_effort: None,
        system_prompt: text("stable prompt"),
        skill_catalog: catalog(),
        environment: environment(engine, session),
        current_variant: AgentVariant::Build,
        approval_mode: ApprovalMode::Ask,
        role: SessionRole::Standard,
        materialization_key: None,
        created_at_ms: 1_000,
    }
}

fn session_row(session: &str, role: SessionRole, created_at_ms: i64) -> SessionRow {
    SessionRow {
        session_id: text(session),
        title: format!("Session {session}"),
        title_origin: SessionTitleOrigin::Generated,
        automatic_title_pending: false,
        model_key: text("fixture-model"),
        reasoning_effort: None,
        system_prompt: text("stable prompt"),
        skill_catalog: catalog(),
        current_variant: AgentVariant::Build,
        approval_mode: ApprovalMode::Ask,
        role,
        lifecycle: SessionLifecycle::Active,
        body_generation: 1,
        message_count: 0,
        created_at_ms,
        updated_at_ms: created_at_ms,
        archived_at_ms: None,
        is_pinned: false,
        materialization_key: None,
        proxy: None,
        pc_output_device_id: None,
    }
}

fn create_session_as(engine: &mut StorageEngine, session: &str, role: SessionRole, created: i64) {
    engine.sessions.push(session_row(session, role, created));
    let environment = environment(engine, session);
    engine.session_resources.push(SessionResources {
        session_id: text(session),
        workspace_id: None,
        working_directory: environment.working_directory,
        attachment_directory: environment.session_attachment_directory,
        private_directory: environment.session_private_directory,
        created_at_ms: created,
    });
    engine.session_usage.push(SessionUsageRow {
        session_id: text(session),
        usage: empty_usage(),
        backfilled: true,
        updated_at_ms: created,
    });
    let path = body_path(engine, session, 1);
    write_body(&mut engine.files, &path, Vec::new());
}

fn create_session(engine: &mut StorageEngine, session: &str) {
    create_session_as(engine, session, SessionRole::Standard, 1_000);
}

fn main_target(session: &str) -> ConversationStorageTarget {
    ConversationStorageTarget::Session {
        session_id: text(session),
        run_id: text("any-run"),
    }
}

fn child_target(session: &str, child: &str) -> ConversationStorageTarget {
    ConversationStorageTarget::ChildTask {
        session_id: text(session),
        child_task_id: text(child),
    }
}

fn body_path(engine: &StorageEngine, session: &str, generation: u64) -> String {
    engine
        .target_body_path(&main_target(session), generation)
        .expect("body path")
}

fn has_body(engine: &StorageEngine, path: &str) -> bool {
    body_place(&engine.files, &text(path)).is_some()
}

fn session<'a>(engine: &'a StorageEngine, session: &str) -> &'a SessionRow {
    let place = engine.session_place(&text(session)).expect("session");
    &engine.sessions[place]
}

fn run<'a>(engine: &'a StorageEngine, run: &str) -> &'a RunRow {
    engine
        .runs
        .iter()
        .find(|row| row.run_id == run)
        .expect("run")
}

fn try_load(engine: &StorageEngine, session: &str) -> StorageResult<Vec<Arc<ConversationMessage>>> {
    engine.load_target_conversation(&main_target(session))
}

fn conversation(engine: &StorageEngine, session: &str) -> Vec<Arc<ConversationMessage>> {
    try_load(engine, session).expect("conversation")
}

fn assert_messages(found: &[Arc<ConversationMessage>], expected: &[ConversationMessage]) {
    assert_eq!(found.len(), expected.len());
    for (left, right) in found.iter().zip(expected) {
        assert_eq!(**left, *right);
    }
}

fn user(value: &str, content: &str) -> UserMessage {
    UserMessage {
        id: text(value),
        origin: UserMessageOrigin::User,
        transcript_visibility: TranscriptVisibility::Visible,
        parts: vec![UserPart::Text(TextPart {
            id: format!("part-{value}"),
            text: text(content),
        })],
    }
}

fn user_message(value: &str, content: &str) -> ConversationMessage {
    ConversationMessage::User(user(value, content))
}

fn fixture_model() -> ModelIdentity {
    ModelIdentity {
        provider: text("fixture"),
        model: text("fixture-model"),
    }
}

fn assistant(value: &str, content: &str) -> AssistantMessage {
    AssistantMessage {
        id: text(value),
        model: fixture_model(),
        parts: vec![
            AssistantPart::Reasoning(TextPart {
                id: format!("reasoning-{value}"),
                text: text("private reasoning"),
            }),
            AssistantPart::Text(TextPart {
                id: format!("text-{value}"),
                text: text(content),
            }),
        ],
        finish_reason: FinishReason::Stop,
        usage: None,
    }
}

fn assistant_message(value: &str, content: &str) -> ConversationMessage {
    ConversationMessage::Assistant(assistant(value, content))
}

fn assistant_message_with_usage(
    value: &str,
    input_tokens: u64,
    cached_input_tokens: Option<u64>,
) -> ConversationMessage {
    let mut message = assistant(value, value);
    message.usage = Some(TokenUsage {
        input_tokens,
        output_tokens: 10,
        total_tokens: input_tokens + 10,
        cached_input_tokens,
        reasoning_tokens: Some(4),
    });
    ConversationMessage::Assistant(message)
}

fn tool_exchange() -> Vec<ConversationMessage> {
    vec![
        ConversationMessage::Assistant(AssistantMessage {
            id: text("assistant-tool"),
            model: fixture_model(),
            parts: vec![
                AssistantPart::ProviderState(br#"{"cursor":"opaque"}"#.to_vec()),
                AssistantPart::ToolCall(ToolCall {
                    id: text("call-1"),
                    name: text("echo_text"),
                    arguments: text(r#"{"text":"hello"}"#),
                }),
            ],
            finish_reason: FinishReason::ToolCalls,
            usage: None,
        }),
        ConversationMessage::Tool(ToolMessage {
            id: text("tool-result"),
            result: ToolResult {
                call_id: text("call-1"),
                status: ToolResultStatus::Success,
                content: ToolResultContent::Text(text("hello")),
            },
        }),
    ]
}

fn tool_image_exchange(file_name: &str) -> Vec<ConversationMessage> {
    vec![
        user_message("user-image", "inspect the image"),
        ConversationMessage::Assistant(AssistantMessage {
            id: text("assistant-image"),
            model: fixture_model(),
            parts: vec![AssistantPart::ToolCall(ToolCall {
                id: text("call-image"),
                name: text("read_image"),
                arguments: text(r#"{"path":"/outside/source.png"}"#),
            })],
            finish_reason: FinishReason::ToolCalls,
            usage: None,
        }),
        ConversationMessage::Tool(ToolMessage {
            id: text("tool-image"),
            result: ToolResult {
                call_id: text("call-image"),
                status: ToolResultStatus::Success,
                content: ToolResultContent::Parts(vec![ToolResultPart::Image(
                    ToolImageReference {
                        file_name: text(file_name),
                        media_type: ImageMediaType::Png,
                    },
                )]),
            },
        }),
    ]
}

fn pending_tool_exchange(session: &str, run: &str, receipt: &str) -> PendingToolExchange {
    PendingToolExchange {
        receipt_id: text(receipt),
        session_id: text(session),
        run_id: text(run),
        assistant: record(tool_exchange().remove(0)),
        step: Some(1),
        created_at_ms: 2_000,
    }
}

fn pending_delegate_exchange(session: &str, run: &str, receipt: &str) -> PendingToolExchange {
    PendingToolExchange {
        receipt_id: text(receipt),
        session_id: text(session),
        run_id: text(run),
        assistant: record(ConversationMessage::Assistant(AssistantMessage {
            id: format!("assistant-{receipt}"),
            model: fixture_model(),
            parts: vec![AssistantPart::ToolCall(ToolCall {
                id: text("call-1"),
                name: text("delegate_task"),
                arguments: text(r#"{"title":"recover child","task":"inspect"}"#),
            })],
            finish_reason: FinishReason::ToolCalls,
            usage: None,
        })),
        step: Some(1),
        created_at_ms: 2_000,
    }
}

fn ready_results() -> Arc<ReadyExchange> {
    Arc::new(ReadyExchange {
        results: vec![record(tool_exchange().remove(1))],
        activation_message: None,
        skill_activations: Arc::new(Vec::new()),
    })
}

fn start_tool(engine: &mut StorageEngine, session: &str, run: &str, receipt: &str) {
    engine
        .mark_tool_execution_started(ToolExecutionStart {
            receipt_id: text(receipt),
            session_id: text(session),
            run_id: text(run),
            call_id: text("call-1"),
            started_at_ms: 2_200,
        })
        .expect("record tool started");
}

fn new_input(session: &str, input: &str, run: &str, message: ConversationMessage, at: i64) -> NewStoredInput {
    NewStoredInput {
        input_id: text(input),
        run_id: text(run),
        session_id: text(session),
        idempotency_key: None,
        agent_variant: AgentVariant::Build,
        origin: InputOrigin::User,
        goal_binding: None,
        cross_session: None,
        channel_source: None,
        approval_mode: ApprovalMode::Ask,
        user_message_id: message_id(&message).clone(),
        message: record(message),
        accepted_at_ms: at,
    }
}

fn settlement(operation: &str, session: &str, run: &str, status: RunStatus, messages: Vec<ConversationMessage>, at: i64) -> RunSettlement {
    RunSettlement {
        operation_id: text(operation),
        run_id: text(run),
        session_id: text(session),
        effect: RunSettlementEffect {
            status,
            cancel_requested: false,
            error: None,
            goal_effect: None,
            proxy_report: None,
        },
        messages: records(messages),
        message_step: None,
        finished_at_ms: at,
    }
}

fn commit_completed_turn(engine: &mut StorageEngine, session: &str, suffix: &str, accepted_at_ms: i64) {
    let input = format!("input-{suffix}");
    let run = format!("run-{suffix}");
    let user_id = format!("user-{suffix}");
    engine
        .insert_input(&new_input(session, &input, &run, user_message(&user_id, suffix), accepted_at_ms))
        .expect("accept fixture input");
    engine
        .commit_user_message(UserMessageCommit {
            operation_id: format!("commit-{suffix}"),
            input_id: input,
            run_id: run.clone(),
            session_id: text(session),
            message: Some(record(user_message(&user_id, suffix))),
            reasoning_effort: None,
            created_at_ms: accepted_at_ms + 1,
        })
        .expect("commit fixture user message");
    engine
        .settle_run(settlement(
            &format!("settle-{suffix}"),
            session,
            &run,
            RunStatus::Completed,
            vec![assistant_message(&format!("assistant-{suffix}"), suffix)],
            accepted_at_ms + 2,
        ))
        .expect("settle fixture run");
}

fn seed_session_and_run(engine: &mut StorageEngine, session: &str, run: &str) {
    create_session(engine, session);
    let order = engine.inputs.len() as i64 + 1;
    engine.inputs.push(StoredInput {
        queue_order: order,
        kind: InputKind::Message,
        input_id: format!("input-{run}"),
        session_id: text(session),
        idempotency_key: None,
        agent_variant: AgentVariant::Build,
        origin: InputOrigin::User,
        goal_binding: None,
        cross_session: None,
        channel_source: None,
        user_message_id: format!("user-{run}"),
        state: InputState::Committed,
        queued_message: None,
        accepted_at_ms: 1_001,
    });
    engine.runs.push(RunRow {
        run_id: text(run),
        session_id: text(session),
        input_id: format!("input-{run}"),
        attempt: 1,
        status: RunStatus::Accepted,
        cancel_requested: false,
        approval_mode: ApprovalMode::Ask,
        reasoning_effort: None,
        error: None,
        created_at_ms: 1_001,
        started_at_ms: None,
        finished_at_ms: None,
    });
}

fn mark_running(engine: &mut StorageEngine, run: &str, at: i64) {
    let row = engine
        .runs
        .iter_mut()
        .find(|row| row.run_id == run)
        .expect("run");
    row.status = RunStatus::Running;
    row.started_at_ms = Some(at);
}

fn append_request(operation: &str, session: &str, run: &str) -> AppendRequest {
    AppendRequest {
        operation_id: text(operation),
        session_id: text(session),
        run_id: text(run),
        messages: records(vec![
            user_message(&format!("message-{operation}"), "hello"),
            assistant_message(&format!("assistant-{operation}"), "world"),
        ]),
        message_step: None,
        created_at_ms: 2_000,
    }
}

fn create_child_task(engine: &mut StorageEngine, session: &str, run: &str, child: &str) {
    engine.child_tasks.push(ChildTaskRow {
        child_task_id: text(child),
        session_id: text(session),
        parent_run_id: text(run),
        parent_tool_call_id: text("call-1"),
        status: ChildTaskStatus::Accepted,
        final_message_id: None,
        error_code: None,
        body_generation: 1,
        message_count: 0,
    });
    let path = engine
        .target_body_path(&child_target(session, child), 1)
        .expect("child body path");
    write_body(&mut engine.files, &path, Vec::new());
}

fn start_child_task(engine: &mut StorageEngine, session: &str, child: &str, operation: &str, message: ConversationMessage) {
    engine
        .append_child_messages(ChildAppendRequest {
            operation_id: text(operation),
            child_task_id: text(child),
            session_id: text(session),
            messages: vec![record(message)],
            message_step: None,
            created_at_ms: 2_200,
            purpose: AppendPurpose::Messages,
        })
        .expect("start child");
    let place = engine
        .child_place(&text(session), &text(child))
        .expect("child");
    engine.child_tasks[place].status = ChildTaskStatus::Running;
}

fn take_up(engine: &mut StorageEngine, session: &str) -> StorageResult<LoadedSession> {
    let id = text(session);
    let mended = engine.prepare_session_execution(&id, &FoundFiles::none(), &encode)?;
    engine.take_up_session(&id, &mended, false)
}

fn take_up_all(engine: &mut StorageEngine) -> Vec<LoadedSession> {
    let ids: Vec<String> = engine
        .sessions
        .iter()
        .map(|row| row.session_id.clone())
        .collect();
    ids.iter()
        .map(|id| take_up(engine, id).expect("take up session"))
        .collect()
}
fn columns(session: &str, role: &str) -> SessionColumns {
    SessionColumns {
        session_id: text(session),
        title: format!("Session {session}"),
        title_origin: text("generated"),
        automatic_title_pending: false,
        model_key: text("fixture-model"),
        reasoning_effort: None,
        system_prompt: text("stable prompt"),
        skill_catalog: catalog(),
        current_variant: AgentVariant::Build,
        approval_mode: ApprovalMode::Ask,
        role: text(role),
        lifecycle: text("active"),
        body_generation: 1,
        message_count: 0,
        created_at_ms: 1_000,
        updated_at_ms: 1_000,
        archived_at_ms: None,
        is_pinned: false,
        materialization_key: None,
        proxy_controller_session_id: None,
        proxy_changed_at_ms: None,
        pc_output_device_id: None,
    }
}

#[test]
fn session_roles_and_proxy_bindings_persist_without_a_controller_unique_constraint() {
    let mut engine = open_engine();
    create_session_as(&mut engine, "s-controller-later", SessionRole::Controller, 20);
    create_session_as(&mut engine, "s-controller-first", SessionRole::Controller, 10);
    create_session(&mut engine, "s-standard");
    engine
        .set_session_proxy(SessionProxyChange {
            target_session_id: text("s-standard"),
            controller_session_id: text("s-controller-first"),
            enabled: true,
            changed_at_ms: 30,
        })
        .expect("enable proxy");

    let recovered = take_up_all(&mut engine);
    let controllers = recovered
        .iter()
        .filter(|loaded| loaded.sessions[0].role == SessionRole::Controller)
        .count();
    assert_eq!(controllers, 2);
    assert_eq!(
        recovered[2].sessions[0].proxy,
        Some(SessionProxy {
            controller_session_id: text("s-controller-first"),
            changed_at_ms: 30,
        })
    );
    assert_eq!(recovered[2].identities.len(), 1);
    assert_eq!(recovered[2].identities[0].session_id, "s-controller-first");
    assert_eq!(recovered[2].identities[0].role, SessionRole::Controller);

    let mut later = columns("s-controller-later", "controller");
    later.proxy_controller_session_id = Some(text("s-controller-first"));
    later.proxy_changed_at_ms = Some(40);
    assert_eq!(
        decode_session(later)
            .expect_err("controller proxy must fail closed")
            .kind(),
        StoreErrorKind::InvalidData
    );
}

fn report_message(id: &str, content: &str, part: &str) -> ConversationMessage {
    let mut message = user(id, content);
    message.origin = UserMessageOrigin::Runtime;
    message.parts.push(UserPart::InternalContext(TextPart {
        id: text(part),
        text: text("stable source report"),
    }));
    ConversationMessage::User(message)
}

#[test]
fn proxy_report_is_accepted_atomically_with_source_run_settlement() {
    let mut engine = open_engine();
    create_session_as(&mut engine, "s-report-controller", SessionRole::Controller, 1_000);
    create_session(&mut engine, "s-report-source");
    engine
        .insert_input(&new_input(
            "s-report-source",
            "i-report-source",
            "r-report-source",
            user_message("m-report-source", "managed work"),
            10,
        ))
        .expect("accept source input");
    engine
        .commit_user_message(UserMessageCommit {
            operation_id: text("commit-report-source"),
            input_id: text("i-report-source"),
            run_id: text("r-report-source"),
            session_id: text("s-report-source"),
            message: Some(record(user_message("m-report-source", "managed work"))),
            reasoning_effort: None,
            created_at_ms: 11,
        })
        .expect("start source run");
    engine
        .set_session_proxy(SessionProxyChange {
            target_session_id: text("s-report-source"),
            controller_session_id: text("s-report-controller"),
            enabled: true,
            changed_at_ms: 12,
        })
        .expect("enable proxy");

    let binding = || CrossSessionBinding::ProxyReport {
        source_session_id: text("s-report-source"),
        source_run_id: text("r-report-source"),
    };
    let mut report = new_input(
        "s-report-controller",
        "i-proxy-report",
        "r-proxy-report",
        report_message("m-proxy-report", "source completed", "p-proxy-report"),
        13,
    );
    report.idempotency_key = Some(text("proxy-report-key"));
    report.origin = InputOrigin::Runtime;
    report.cross_session = Some(binding());
    let mut ending = settlement(
        "settle-report-source",
        "s-report-source",
        "r-report-source",
        RunStatus::Completed,
        vec![assistant_message("m-report-result", "done")],
        13,
    );
    ending.message_step = Some(1);
    ending.effect.proxy_report = Some(Arc::new(report));
    let result = engine
        .settle_run(ending)
        .expect("settle source and accept report");
    let accepted = result.accepted_proxy_report.expect("accepted report");
    assert_eq!(accepted.input.input_id, "i-proxy-report");
    assert_eq!(accepted.run.run_id, "r-proxy-report");

    let recovered = take_up_all(&mut engine);
    let source = recovered[1]
        .runs
        .iter()
        .find(|run| run.run_id == "r-report-source")
        .expect("source run");
    assert_eq!(source.status, RunStatus::Completed);
    let report = recovered[0]
        .inputs
        .iter()
        .find(|input| input.input_id == "i-proxy-report")
        .expect("report input");
    assert_eq!(report.state, InputState::Queued);
    assert_eq!(report.cross_session, Some(binding()));
}

#[test]
fn skill_name_state_is_durable_and_uses_one_validated_name_key() {
    let mut engine = open_engine();
    assert!(engine.list_skill_name_states().is_empty());
    let disabled = || SkillNameState {
        name: text("review-pr"),
        enabled: false,
        updated_at_ms: 10,
    };
    assert_eq!(
        engine
            .set_skill_enabled(SkillNameStateChange {
                name: text("review-pr"),
                enabled: false,
                updated_at_ms: 10,
            })
            .expect("disable skill"),
        disabled()
    );
    assert_eq!(engine.list_skill_name_states(), vec![disabled()]);
}

#[test]
fn session_skill_catalog_is_recovered_and_forked_without_private_package_copies() {
    let mut engine = open_engine();
    create_session(&mut engine, "s-skill-source");
    let source_catalog = || SkillCatalog {
        revision: text("catalog-revision-1"),
        document: text("review: Review carefully."),
    };
    engine.sessions[0].skill_catalog = source_catalog();
    let mut target = new_session(&engine, "s-skill-fork");
    target.skill_catalog = source_catalog();
    let forked = engine
        .fork_session(
            &SessionFork {
                source_session_id: text("s-skill-source"),
                source_generation: 1,
                session: target,
                conversation: Vec::new(),
                attachments: Vec::new(),
                tool_images: Vec::new(),
                skill_activations: Vec::new(),
                work_plan: None,
                goal: None,
            },
            ready_resources(),
            &encode,
        )
        .expect("fork skill session");
    assert_eq!(forked.session.skill_catalog, source_catalog());
    let recovered = take_up_all(&mut engine);
    assert_eq!(recovered.len(), 2);
    assert!(recovered
        .iter()
        .all(|loaded| loaded.sessions[0].skill_catalog == source_catalog()));
}

fn ready_resources() -> ForkResources {
    ForkResources {
        workspace_available: true,
        tool_images_copied: true,
    }
}

fn conversation_records(engine: &StorageEngine, session: &str) -> Vec<Arc<RecordedMessage>> {
    conversation(engine, session)
        .into_iter()
        .map(|message| {
            Arc::new(RecordedMessage {
                record: encode(&message),
                message,
            })
        })
        .collect()
}

fn plain_fork(engine: &StorageEngine, source: &str, target: &str) -> SessionFork {
    SessionFork {
        source_session_id: text(source),
        source_generation: session(engine, source).body_generation,
        session: new_session(engine, target),
        conversation: conversation_records(engine, source),
        attachments: Vec::new(),
        tool_images: Vec::new(),
        skill_activations: Vec::new(),
        work_plan: None,
        goal: None,
    }
}

#[test]
fn user_skill_activation_is_atomic_recoverable_and_forked_as_ledger_fact() {
    let mut engine = open_engine();
    create_session(&mut engine, "s-skill-activation-source");
    let activation = || StoredSkillActivation {
        activation_id: text("activation-source"),
        session_id: text("s-skill-activation-source"),
        owner: SkillActivationOwner::Session(text("s-skill-activation-source")),
        run_id: Some(text("run-skill-activation")),
        input_id: Some(text("input-skill-activation")),
        message_id: text("user-skill-activation"),
        name: text("review"),
        catalog_revision: text("legacy"),
        definition_digest: format!("sha256-v1:{}", "2".repeat(64)),
        trigger: SkillActivationTrigger::User,
        created_at_ms: 10,
    };
    let message = || {
        let mut message = user("user-skill-activation", "review this");
        message.parts.push(UserPart::InternalContext(TextPart {
            id: text("part-skill-activation"),
            text: text("SKILL_ACTIVATION_V1\nReview carefully."),
        }));
        ConversationMessage::User(message)
    };
    engine
        .insert_input(&new_input(
            "s-skill-activation-source",
            "input-skill-activation",
            "run-skill-activation",
            message(),
            10,
        ))
        .expect("accept skill input");
    check_activations(&engine.skill_activations, &vec![activation()]).expect("activation");
    append_activations(&mut engine.skill_activations, &vec![activation()]);
    engine
        .commit_user_message(UserMessageCommit {
            operation_id: text("commit-skill-activation"),
            input_id: text("input-skill-activation"),
            run_id: text("run-skill-activation"),
            session_id: text("s-skill-activation-source"),
            message: Some(record(message())),
            reasoning_effort: None,
            created_at_ms: 11,
        })
        .expect("commit user message");
    engine
        .settle_run(settlement(
            "settle-skill-activation",
            "s-skill-activation-source",
            "run-skill-activation",
            RunStatus::Completed,
            vec![assistant_message("assistant-skill-activation", "done")],
            12,
        ))
        .expect("settle skill run");
    assert_eq!(
        engine.load_skill_activations(&None).expect("ledger"),
        vec![activation()]
    );

    let forked_activation = || StoredSkillActivation {
        activation_id: text("activation-fork"),
        session_id: text("s-skill-activation-fork"),
        owner: SkillActivationOwner::Session(text("s-skill-activation-fork")),
        run_id: None,
        input_id: None,
        ..activation()
    };
    let mut fork = plain_fork(
        &engine,
        "s-skill-activation-source",
        "s-skill-activation-fork",
    );
    fork.skill_activations = vec![forked_activation()];
    let stored = engine
        .fork_session(&fork, ready_resources(), &encode)
        .expect("fork with activation");
    assert_eq!(stored.skill_activations, vec![forked_activation()]);
    let forked = take_up(&mut engine, "s-skill-activation-fork").expect("recover fork");
    assert_eq!(forked.skill_activations, vec![forked_activation()]);
    assert_eq!(
        engine.load_skill_activations(&None).expect("ledger").len(),
        2
    );
}

#[test]
fn committed_model_requests_update_durable_usage_and_fork_starts_from_zero() {
    let mut engine = open_engine();
    seed_session_and_run(&mut engine, "s-usage-source", "r-usage");
    for (operation, message, input, cached, at) in [
        ("usage-one", "usage-a", 100, 60, 2_000),
        ("usage-two", "usage-b", 300, 240, 3_000),
    ] {
        engine
            .append_messages(AppendRequest {
                operation_id: text(operation),
                session_id: text("s-usage-source"),
                run_id: text("r-usage"),
                messages: records(vec![assistant_message_with_usage(message, input, Some(cached))]),
                message_step: None,
                created_at_ms: at,
            })
            .expect("append usage");
    }
    let usage = engine
        .get_session_usage(&text("s-usage-source"));
    assert_eq!(usage.request_count, 2);
    assert_eq!(usage.input_tokens, 400);
    assert_eq!(usage.cached_input_tokens, 300);
    assert_eq!(usage.cached_request_count, 2);
    assert_eq!(usage.latest.expect("latest usage").input_tokens, 300);
    assert_eq!(engine.request_records.len(), 2);

    engine.runs[0].status = RunStatus::Completed;
    let fork = plain_fork(&engine, "s-usage-source", "s-usage-fork");
    engine
        .fork_session(&fork, ready_resources(), &encode)
        .expect("fork session");
    assert_eq!(
        engine
            .get_session_usage(&text("s-usage-fork")),
        empty_usage()
    );
}

#[test]
fn pending_legacy_usage_is_backfilled_once_from_the_authoritative_conversation() {
    let mut engine = open_engine();
    seed_session_and_run(&mut engine, "s-usage-backfill", "r-usage-backfill");
    engine
        .append_messages(AppendRequest {
            operation_id: text("usage-backfill-append"),
            session_id: text("s-usage-backfill"),
            run_id: text("r-usage-backfill"),
            messages: records(vec![assistant_message_with_usage(
                "usage-backfill-message",
                200,
                Some(150),
            )]),
            message_step: None,
            created_at_ms: 2_000,
        })
        .expect("append usage");
    engine.request_records.clear();
    engine.session_usage[0].usage = empty_usage();
    engine.session_usage[0].backfilled = false;

    take_up(&mut engine, "s-usage-backfill").expect("backfill legacy usage");
    let first = engine
        .get_session_usage(&text("s-usage-backfill"));
    assert_eq!(first.request_count, 1);
    assert_eq!(first.input_tokens, 200);
    assert_eq!(first.cached_input_tokens, 150);

    take_up(&mut engine, "s-usage-backfill").expect("second recovery");
    assert_eq!(
        engine
            .get_session_usage(&text("s-usage-backfill")),
        first
    );
}

fn image(name: &str, accepted: bool) -> ImageFile {
    ImageFile {
        entry: DirectoryEntry {
            name: Some(text(name)),
            kind: EntryKind::File,
        },
        accepted,
        intact: true,
    }
}

fn put_conversation(engine: &mut StorageEngine, session: &str, messages: Vec<ConversationMessage>) {
    let batch = records(messages);
    let path = body_path(engine, session, 1);
    let bytes = encode_messages(&batch).expect("encode conversation");
    write_body(&mut engine.files, &path, bytes);
    let place = engine.session_place(&text(session)).expect("session");
    engine.sessions[place].message_count = batch.len() as u64;
    engine.known.extend(batch);
}

#[test]
fn startup_tool_image_scan_removes_parts_and_orphans_but_preserves_references() {
    let mut engine = open_engine();
    create_session(&mut engine, "s-tool-image-recovery");
    put_conversation(
        &mut engine,
        "s-tool-image-recovery",
        tool_image_exchange("retained.png"),
    );
    let files = vec![
        image("retained.png", true),
        image("orphan.png", true),
        image(".crash.part", false),
    ];
    let sweep = engine.recover_session_tool_images(&text("s-tool-image-recovery"), 1, &files);
    assert!(!sweep.diagnostic);
    assert_eq!(sweep.removed, vec![text("orphan.png"), text(".crash.part")]);
}

#[test]
fn startup_tool_image_scan_is_conservative_when_conversation_is_unreadable() {
    let mut engine = open_engine();
    create_session(&mut engine, "s-tool-image-conservative");
    let path = body_path(&engine, "s-tool-image-conservative", 1);
    write_body(&mut engine.files, &path, b"not-jsonl".to_vec());
    let files = vec![image("stable.png", true)];
    let sweep = engine.recover_session_tool_images(&text("s-tool-image-conservative"), 1, &files);
    assert!(sweep.diagnostic);
    assert!(sweep.removed.is_empty());
}

#[test]
fn copied_runtime_home_rebases_session_resources_and_preserves_tool_images() {
    let mut engine = open_engine();
    create_session(&mut engine, "s-tool-image-migrated");
    put_conversation(
        &mut engine,
        "s-tool-image-migrated",
        tool_image_exchange("migrated.png"),
    );
    let old_path = body_path(&engine, "s-tool-image-migrated", 1);
    engine.sessions_directory = text("/other/data/sessions");
    let new_path = body_path(&engine, "s-tool-image-migrated", 1);
    let place = body_place(&engine.files, &old_path).expect("body");
    engine.files[place].path = new_path;

    let recovered = take_up(&mut engine, "s-tool-image-migrated").expect("load migrated runtime");
    assert!(!recovered.conversation_unavailable);
    let found = engine
        .load_session_environment(&text("s-tool-image-migrated"))
        .expect("environment");
    let directory = "/other/data/sessions/s-tool-image-migrated";
    assert_eq!(found.session_private_directory, format!("{directory}/private"));
    assert_eq!(found.session_attachment_directory, format!("{directory}/attachments"));
    assert_eq!(found.session_tool_image_directory, format!("{directory}/tool-images"));
    assert_messages(
        &conversation(&engine, "s-tool-image-migrated"),
        &tool_image_exchange("migrated.png"),
    );
    let sweep = engine.recover_session_tool_images(
        &text("s-tool-image-migrated"),
        1,
        &vec![image("migrated.png", true)],
    );
    assert!(!sweep.diagnostic && sweep.removed.is_empty());
    assert_eq!(take_up_all(&mut engine).len(), 1);
}

#[test]
fn copied_runtime_home_rebases_workspace_private_resources_only() {
    let mut engine = open_engine();
    engine.workspaces.push(Workspace {
        workspace_id: text("w-runtime-migrated"),
        user_directory: text("/work/user"),
        agent_directory: text("/home/data/workspaces/w-runtime-migrated/agent"),
        lifecycle: WorkspaceLifecycle::Active,
    });
    create_session(&mut engine, "s-workspace-migrated");
    let row = engine.session_resources.last_mut().expect("resources");
    row.workspace_id = Some(text("w-runtime-migrated"));
    row.working_directory = text("/work/user");

    let old_path = body_path(&engine, "s-workspace-migrated", 1);
    engine.sessions_directory = text("/other/data/sessions");
    let new_path = body_path(&engine, "s-workspace-migrated", 1);
    let place = body_place(&engine.files, &old_path).expect("body");
    engine.files[place].path = new_path;
    engine.workspaces[0].agent_directory =
        text("/other/data/workspaces/w-runtime-migrated/agent");

    let recovered = take_up(&mut engine, "s-workspace-migrated").expect("load migrated runtime");
    let workspace = &recovered.globals.workspaces[0];
    assert_eq!(workspace.workspace_id, "w-runtime-migrated");
    assert_eq!(
        workspace.agent_directory,
        "/other/data/workspaces/w-runtime-migrated/agent"
    );
    assert_eq!(workspace.user_directory, "/work/user");
    assert_eq!(recovered.sessions[0].session_id, "s-workspace-migrated");
    let environment = recovered.environment.expect("environment");
    assert_eq!(environment.working_directory, "/work/user");
    assert_eq!(
        environment.workspace_private_directory.as_deref(),
        Some("/other/data/workspaces/w-runtime-migrated/agent")
    );
    let directory = "/other/data/sessions/s-workspace-migrated";
    assert_eq!(environment.session_private_directory, format!("{directory}/private"));
    assert_eq!(environment.session_attachment_directory, format!("{directory}/attachments"));
    assert_eq!(environment.session_tool_image_directory, format!("{directory}/tool-images"));
}

#[test]
fn session_navigation_metadata_and_feedback_survive_reopen() {
    let mut engine = open_engine();
    let id = || text("s-navigation-persistence");
    create_session(&mut engine, "s-navigation-persistence");
    engine
        .insert_input(&new_input(
            "s-navigation-persistence",
            "input-navigation-persistence",
            "run-navigation-persistence",
            user_message("user-navigation-persistence", "first input"),
            1_500,
        ))
        .expect("accept first input");
    engine.sessions[0].title = text("Generated first input");
    engine
        .rename_session(SessionTitleChange {
            session_id: id(),
            title: text("User title"),
            changed_at_ms: 2_000,
        })
        .expect("rename");
    engine
        .set_session_pinned(SessionPinnedChange {
            session_id: id(),
            is_pinned: true,
            changed_at_ms: 2_001,
        })
        .expect("pin");
    engine
        .set_message_feedback(MessageFeedbackChange {
            session_id: id(),
            message_id: text("assistant-feedback"),
            feedback: Some(MessageFeedback::Negative),
            changed_at_ms: 2_002,
        })
        .expect("feedback");

    let recovered = take_up(&mut engine, "s-navigation-persistence").expect("recover runtime");
    let stored = &recovered.sessions[0];
    assert_eq!(stored.title, "User title");
    assert_eq!(stored.title_origin, SessionTitleOrigin::User);
    assert!(stored.is_pinned);
    assert_eq!(stored.updated_at_ms, 1_000);
    assert_eq!(
        engine.load_message_feedback(&id())[0].feedback,
        MessageFeedback::Negative
    );
    engine
        .set_message_feedback(MessageFeedbackChange {
            session_id: id(),
            message_id: text("assistant-feedback"),
            feedback: None,
            changed_at_ms: 2_003,
        })
        .expect("clear feedback");
    assert!(engine.load_message_feedback(&id()).is_empty());
}

#[test]
fn session_activity_time_advances_only_when_a_run_settles() {
    let mut engine = open_engine();
    create_session(&mut engine, "s-activity-time");
    commit_completed_turn(&mut engine, "s-activity-time", "activity-time", 2_000);
    engine
        .rename_session(SessionTitleChange {
            session_id: text("s-activity-time"),
            title: text("Renamed after run"),
            changed_at_ms: 3_000,
        })
        .expect("rename");
    engine
        .set_session_pinned(SessionPinnedChange {
            session_id: text("s-activity-time"),
            is_pinned: true,
            changed_at_ms: 3_001,
        })
        .expect("pin");
    let recovered = take_up(&mut engine, "s-activity-time").expect("load runtime");
    assert_eq!(recovered.sessions[0].updated_at_ms, 2_002);
}

#[test]
fn fork_and_delete_commit_consistently_across_sqlite_and_session_directories() {
    let mut engine = open_engine();
    create_session(&mut engine, "s-transfer-source");
    commit_completed_turn(&mut engine, "s-transfer-source", "transfer", 2_000);
    let expected = conversation(&engine, "s-transfer-source");
    let fork = plain_fork(&engine, "s-transfer-source", "s-transfer-fork");
    let forked = engine
        .fork_session(&fork, ready_resources(), &encode)
        .expect("fork session");
    assert_eq!(forked.session.session_id, "s-transfer-fork");
    assert_eq!(forked.session.body_generation, 1);
    let copied: Vec<_> = forked
        .conversation
        .iter()
        .map(|entry| entry.message.clone())
        .collect();
    assert_eq!(copied, expected);
    assert_eq!(conversation(&engine, "s-transfer-fork"), expected);

    let impact = engine
        .inspect_session_deletion(&text("s-transfer-source"))
        .expect("delete impact");
    assert_eq!(impact.message_count, 2);
    assert_eq!(impact.run_count, 1);
    let source_body = body_path(&engine, "s-transfer-source", 1);
    engine
        .delete_session(
            &SessionDeletion {
                session_id: text("s-transfer-source"),
                operation_id: text("delete-transfer-source"),
                expected_impact: impact,
            },
            false,
        )
        .expect("delete source");
    assert!(!has_body(&engine, &source_body));
    assert!(has_body(&engine, &body_path(&engine, "s-transfer-fork", 1)));
    assert!(engine
        .inspect_session_deletion(&text("s-transfer-source"))
        .is_err());
    let recovered = take_up_all(&mut engine);
    assert_eq!(recovered.len(), 1);
    assert_eq!(recovered[0].sessions[0].session_id, "s-transfer-fork");
}

#[test]
fn fork_clones_attachment_references_without_coupling_source_lifecycle() {
    let mut engine = open_engine();
    create_session(&mut engine, "s-transfer-attachment-source");
    let source_path = "/home/data/sessions/s-transfer-attachment-source/attachments/fork-source.txt";
    let fork_path = "/home/data/sessions/s-transfer-attachment-fork/attachments/fork-source.txt";
    engine.attachments.push(StoredAttachment {
        attachment_id: text("a-transfer-source"),
        session_id: text("s-transfer-attachment-source"),
        original_name: text("fork-source.txt"),
        blob_hash: text("blob-hash"),
        size_bytes: 23,
        media_type: text("text/plain"),
        agent_readable_path: text(source_path),
        state: AttachmentState::Ready,
        created_at_ms: 2_000,
    });
    let mut fork = plain_fork(
        &engine,
        "s-transfer-attachment-source",
        "s-transfer-attachment-fork",
    );
    fork.conversation = records(vec![
        ConversationMessage::User(UserMessage {
            id: text("message-transfer-file"),
            origin: UserMessageOrigin::User,
            transcript_visibility: TranscriptVisibility::Visible,
            parts: vec![UserPart::FileReferences(FileReferencesPart {
                id: text("part-transfer-file"),
                files: vec![FileReference {
                    original_name: text("fork-source.txt"),
                    readable_path: text(source_path),
                }],
            })],
        }),
        assistant_message("assistant-transfer-file", "attachment received"),
    ]);
    fork.attachments = vec![ForkAttachment {
        attachment_id: text("a-transfer-fork"),
        source_attachment_id: text("a-transfer-source"),
        readable_path: text(fork_path),
    }];
    let forked = engine
        .fork_session(&fork, ready_resources(), &encode)
        .expect("fork attachment session");
    assert_eq!(forked.attachments.len(), 1);
    let attachment = &forked.attachments[0];
    assert_eq!(attachment.attachment_id, "a-transfer-fork");
    assert_eq!(attachment.session_id, "s-transfer-attachment-fork");
    assert_eq!(attachment.blob_hash, "blob-hash");
    assert_ne!(attachment.agent_readable_path, source_path);
    let ConversationMessage::User(message) = &*forked.conversation[0].message else {
        panic!("fork first message must be user")
    };
    let UserPart::FileReferences(part) = &message.parts[0] else {
        panic!("fork user message must keep file references")
    };
    assert_eq!(part.files[0].readable_path, attachment.agent_readable_path);
    assert_eq!(
        conversation(&engine, "s-transfer-attachment-fork")[0],
        forked.conversation[0].message
    );

    let impact = engine
        .inspect_session_deletion(&text("s-transfer-attachment-source"))
        .expect("source delete impact");
    assert_eq!(impact.attachment_count, 1);
    engine
        .delete_session(
            &SessionDeletion {
                session_id: text("s-transfer-attachment-source"),
                operation_id: text("delete-transfer-attachment-source"),
                expected_impact: impact,
            },
            false,
        )
        .expect("delete source");
    let left: Vec<&str> = engine
        .attachments
        .iter()
        .map(|row| row.attachment_id.as_str())
        .collect();
    assert_eq!(left, vec!["a-transfer-fork"]);
}

#[test]
fn deletion_staging_recovers_precommit_and_cleans_postcommit_interruptions() {
    let mut engine = open_engine();
    create_session(&mut engine, "s-delete-restore");
    create_session(&mut engine, "s-delete-remove");
    let place = engine
        .session_place(&text("s-delete-remove"))
        .expect("removed session");
    engine.sessions.remove(place);
    assert_eq!(
        engine
            .recover_session_deletion(&Some(text("s-delete-restore.interrupted")), false)
            .expect("restore"),
        StagedDeletion::Restore(text("s-delete-restore"))
    );
    assert_eq!(
        engine
            .recover_session_deletion(&Some(text("s-delete-remove.committed")), false)
            .expect("remove"),
        StagedDeletion::Remove
    );
    let recovered = take_up_all(&mut engine);
    assert_eq!(recovered.len(), 1);
    assert_eq!(recovered[0].sessions[0].session_id, "s-delete-restore");
}

#[test]
fn model_execution_failure_code_round_trips_without_schema_changes() {
    let message = "model execution failed before stream establishment (kind=service_unavailable, attempts=4, retries=3, output_observed=false)";
    let mut engine = open_engine();
    seed_session_and_run(&mut engine, "session-model-failure", "run-model-failure");
    engine.runs[0] = decode_run(RunColumns {
        run_id: text("run-model-failure"),
        session_id: text("session-model-failure"),
        input_id: text("input-run-model-failure"),
        attempt: 1,
        status: text("failed"),
        cancel_requested: 0,
        approval_mode: ApprovalMode::Ask,
        reasoning_effort: None,
        error_code: Some(text("model_execution_failed")),
        error_message: Some(text(message)),
        created_at_ms: 1_001,
        started_at_ms: None,
        finished_at_ms: Some(2_000),
    })
    .expect("stored run");
    let runs = engine.load_runs(&None);
    let error = runs[0].error.as_ref().expect("model failure");
    assert_eq!(error.code, RuntimeErrorCode::ModelExecutionFailed);
    assert_eq!(error.message, message);
}

#[test]
fn legacy_run_message_ref_without_step_remains_readable_and_uninferred() {
    let mut engine = open_engine();
    seed_session_and_run(&mut engine, "s-legacy-step", "r-legacy-step");
    engine.run_message_refs.push(RunMessageRef {
        run_id: text("r-legacy-step"),
        message_id: text("assistant-legacy-step"),
        step: None,
    });
    let runs = engine.load_runs(&None);
    assert_eq!(runs[0].message_ids[0], "assistant-legacy-step");
    assert!(runs[0].message_steps.is_empty());
    assert_eq!(engine.run_message_refs[0].step, None);
}

fn item(id: &str, content: &str, status: TodoItemStatus) -> WorkPlanItem {
    WorkPlanItem {
        id: text(id),
        text: text(content),
        status,
    }
}

fn mutation(session: &str, revision: u64, operation: &str, objective: &str, items: Vec<WorkPlanItem>, at: i64) -> WorkPlanMutation {
    WorkPlanMutation {
        session_id: text(session),
        expected_revision: revision,
        operation_id: text(operation),
        objective: text(objective),
        items,
        updated_at_ms: at,
    }
}

#[test]
fn work_plan_migration_cas_idempotency_restart_and_clear_are_durable() {
    let mut engine = open_engine();
    create_session(&mut engine, "s-work-plan-durable");
    let first_result = engine
        .mutate_work_plan(mutation(
            "s-work-plan-durable",
            0,
            "call-work-plan-1",
            "ship M1",
            vec![item("todo-work-plan-1", "persist plan", TodoItemStatus::InProgress)],
            2_000,
        ))
        .expect("create work plan");
    assert!(!first_result.cleared);
    let first = first_result.plan;
    assert_eq!(first.revision, 1);

    let duplicate = engine
        .mutate_work_plan(mutation(
            "s-work-plan-durable",
            0,
            "call-work-plan-1",
            "ignored duplicate payload",
            Vec::new(),
            3_000,
        ))
        .expect("duplicate operation returns first result");
    assert!(!duplicate.cleared);
    assert_eq!(duplicate.plan, first);
    let conflict = engine
        .mutate_work_plan(mutation(
            "s-work-plan-durable",
            0,
            "call-work-plan-2",
            "stale update",
            Vec::new(),
            3_000,
        ))
        .expect_err("stale revision must conflict");
    assert_eq!(conflict.kind(), StoreErrorKind::Conflict);

    let recovered = take_up(&mut engine, "s-work-plan-durable").expect("recover runtime");
    assert_eq!(recovered.work_plan, Some(first.clone()));
    assert_eq!(
        engine.load_all_work_plans(&None).expect("all plans"),
        vec![first]
    );
    engine
        .clear_work_plan(WorkPlanClear {
            session_id: text("s-work-plan-durable"),
            expected_revision: 1,
        })
        .expect("clear plan");
    assert!(engine
        .load_work_plan(&text("s-work-plan-durable"))
        .expect("load cleared plan")
        .is_none());
    engine
        .clear_work_plan(WorkPlanClear {
            session_id: text("s-work-plan-durable"),
            expected_revision: 0,
        })
        .expect("empty clear is idempotent");
}

#[test]
fn completed_or_empty_work_plan_is_atomically_cleared_with_a_durable_operation_receipt() {
    let mut engine = open_engine();
    let id = "s-work-plan-completed";
    create_session(&mut engine, id);
    let initial = engine
        .mutate_work_plan(mutation(
            id,
            0,
            "call-work-plan-start",
            "ship completion",
            vec![item("todo-work-plan-complete", "finish verification", TodoItemStatus::InProgress)],
            2_000,
        ))
        .expect("create work plan");
    let revision = initial.plan.revision;
    let completed_mutation = || {
        mutation(
            id,
            revision,
            "call-work-plan-complete",
            "ship completion",
            vec![item("todo-work-plan-complete", "finish verification", TodoItemStatus::Completed)],
            3_000,
        )
    };
    let completed = engine
        .mutate_work_plan(completed_mutation())
        .expect("complete work plan");
    assert!(completed.cleared);
    assert_eq!(completed.plan.revision, 2);
    assert!(engine.load_work_plan(&text(id)).expect("load plan").is_none());

    let recovered = take_up(&mut engine, id).expect("recover runtime");
    assert!(recovered.work_plan.is_none());
    let duplicate = engine
        .mutate_work_plan(completed_mutation())
        .expect("replay completed operation");
    assert_eq!(duplicate, completed);
    let replacement = engine
        .mutate_work_plan(mutation(
            id,
            0,
            "call-work-plan-restart",
            "next plan",
            vec![item("todo-work-plan-next", "start next task", TodoItemStatus::Pending)],
            4_000,
        ))
        .expect("create next work plan");
    assert!(!replacement.cleared);
    assert_eq!(replacement.plan.revision, 1);
    let empty = engine
        .mutate_work_plan(mutation(
            id,
            replacement.plan.revision,
            "call-work-plan-empty",
            "next plan",
            Vec::new(),
            5_000,
        ))
        .expect("clear work plan with an empty item list");
    assert!(empty.cleared);
    assert!(engine
        .load_work_plan(&text(id))
        .expect("load empty-cleared plan")
        .is_none());
}

#[test]
fn legacy_empty_work_plan_is_removed_on_reopen() {
    let mut engine = open_engine();
    create_session(&mut engine, "s-work-plan-legacy-empty");
    engine.work_plans.push(Arc::new(StoredWorkPlan {
        session_id: text("s-work-plan-legacy-empty"),
        revision: 1,
        objective: text("legacy empty plan"),
        items: Vec::new(),
        last_operation_id: text("legacy-empty-call"),
        updated_at_ms: 1,
    }));
    engine.remove_empty_work_plans();
    assert!(engine
        .load_work_plan(&text("s-work-plan-legacy-empty"))
        .expect("load migrated work plan")
        .is_none());
}

#[test]
fn work_plan_fork_is_independent_and_session_delete_cascades() {
    let mut engine = open_engine();
    create_session(&mut engine, "s-work-plan-source");
    let source_plan = engine
        .mutate_work_plan(mutation(
            "s-work-plan-source",
            0,
            "call-source-plan",
            "source objective",
            vec![item("todo-fork-1", "source item", TodoItemStatus::Pending)],
            2_000,
        ))
        .expect("create source plan")
        .plan;
    let mut fork = plain_fork(&engine, "s-work-plan-source", "s-work-plan-target");
    fork.work_plan = Some(source_plan.clone());
    let forked = engine
        .fork_session(&fork, ready_resources(), &encode)
        .expect("fork with plan");
    let target_plan = forked.work_plan.expect("forked plan");
    assert_eq!(target_plan.revision, 1);
    assert_eq!(target_plan.objective, source_plan.objective);
    engine
        .mutate_work_plan(mutation(
            "s-work-plan-target",
            1,
            "call-target-plan",
            "target objective",
            vec![item("todo-fork-1", "source item", TodoItemStatus::Pending)],
            3_000,
        ))
        .expect("update target plan");
    assert_eq!(
        engine
            .load_work_plan(&text("s-work-plan-source"))
            .expect("source plan")
            .expect("source exists")
            .objective,
        "source objective"
    );
    let impact = engine
        .inspect_session_deletion(&text("s-work-plan-target"))
        .expect("inspect target deletion");
    engine
        .delete_session(
            &SessionDeletion {
                session_id: text("s-work-plan-target"),
                operation_id: text("delete-work-plan-target"),
                expected_impact: impact,
            },
            false,
        )
        .expect("delete target");
    assert!(engine
        .load_work_plan(&text("s-work-plan-target"))
        .expect("query deleted plan")
        .is_none());
}

fn goal(session: &str, id: &str, source_message: &str) -> StoredGoal {
    StoredGoal {
        goal_id: text(id),
        session_id: text(session),
        objective: GoalObjective {
            source_message_id: text(source_message),
            payload: text("[\"finish release\"]"),
            payload_hash: text("sha256-v1:0"),
        },
        state: GoalState::Running,
        pause_reason: None,
        generation: 1,
        turn: 1,
        budget: GoalBudget {
            max_runs: 20,
            max_total_tokens: 500_000,
            max_consecutive_failures: 3,
            used_runs: 0,
            used_total_tokens: 0,
            usage_complete: true,
        },
        consecutive_failures: 0,
        created_at_ms: 2_000,
        updated_at_ms: 2_000,
        completed_at_ms: None,
    }
}

fn injected(id: &str, part: &str, content: &str) -> ConversationMessage {
    ConversationMessage::User(UserMessage {
        id: text(id),
        origin: UserMessageOrigin::Runtime,
        transcript_visibility: TranscriptVisibility::Hidden,
        parts: vec![UserPart::Injected(TextPart {
            id: text(part),
            text: text(content),
        })],
    })
}

#[test]
fn goal_run_settlement_updates_budget_and_creates_continuation_atomically() {
    let id = "s-goal-settlement";
    let mut engine = open_engine();
    create_session(&mut engine, id);
    let first_goal = || goal(id, "goal-settlement", "goal-settlement-user");
    let updated_goal = || {
        let mut goal = first_goal();
        goal.turn = 2;
        goal.budget.used_runs = 1;
        goal.budget.used_total_tokens = 50;
        goal.updated_at_ms = 3_000;
        goal
    };
    engine.goals.push(first_goal());
    let mut first = new_input(
        id,
        "input-goal-settlement",
        "run-goal-settlement",
        user_message("goal-settlement-user", "finish release"),
        2_000,
    );
    first.goal_binding = Some(GoalInputBinding {
        goal_id: text("goal-settlement"),
        generation: 1,
        turn: 1,
    });
    engine.insert_input(&first).expect("accept first goal input");
    engine
        .commit_user_message(UserMessageCommit {
            operation_id: text("start-goal-settlement"),
            input_id: text("input-goal-settlement"),
            run_id: text("run-goal-settlement"),
            session_id: text(id),
            message: Some(record(user_message("goal-settlement-user", "finish release"))),
            reasoning_effort: None,
            created_at_ms: 2_100,
        })
        .expect("start first goal run");
    let continuation = |generation: u64| {
        let mut input = new_input(
            id,
            "input-goal-continuation",
            "run-goal-continuation",
            injected(
                "goal-continuation-message",
                "goal-continuation-context",
                "GOAL_CONTINUATION_V1",
            ),
            3_000,
        );
        input.origin = InputOrigin::Runtime;
        input.goal_binding = Some(GoalInputBinding {
            goal_id: text("goal-settlement"),
            generation,
            turn: 2,
        });
        input
    };
    let ending = |operation: &str, answer: &str, content: &str, generation: u64| {
        let mut ending = settlement(
            operation,
            id,
            "run-goal-settlement",
            RunStatus::Completed,
            vec![assistant_message(answer, content)],
            3_000,
        );
        ending.effect.goal_effect = Some(Arc::new(GoalSettlementEffect::Continue {
            expected_goal_id: text("goal-settlement"),
            expected_generation: 1,
            goal: updated_goal(),
            next_input: Arc::new(continuation(generation)),
        }));
        ending
    };
    assert!(engine
        .settle_run(ending(
            "reject-invalid-goal-continuation",
            "invalid-goal-answer",
            "must roll back",
            2,
        ))
        .is_err());
    assert_eq!(engine.load_runs(&None)[0].status, RunStatus::Running);
    assert_eq!(engine.goals, vec![first_goal()]);
    assert_eq!(engine.inputs.len(), 1);
    assert_eq!(conversation(&engine, id).len(), 1);

    let result = engine
        .settle_run(ending(
            "settle-goal-and-continue",
            "goal-settlement-answer",
            "progress",
            1,
        ))
        .expect("settle goal and create continuation");
    assert_eq!(result.goal, Some(updated_goal()));
    let accepted = result.continuation.expect("continuation result");
    assert_eq!(accepted.input.input_id, "input-goal-continuation");
    assert_eq!(accepted.run.run_id, "run-goal-continuation");
    assert_eq!(accepted.input.origin, InputOrigin::Runtime);
    assert_eq!(engine.goals, vec![updated_goal()]);
    assert_eq!(engine.inputs.len(), 2);
    assert_eq!(engine.load_runs(&None).len(), 2);

    engine.remove_inputs(&vec![text("input-goal-continuation")]);
    let mut held = new_input(
        id,
        "input-goal-resume",
        "run-goal-resume",
        user_message("goal-resume-user", "use stable channel"),
        3_500,
    );
    held.goal_binding = Some(GoalInputBinding {
        goal_id: text("goal-settlement"),
        generation: 3,
        turn: 3,
    });
    engine.insert_input(&held).expect("hold user guidance");
    engine.goals[0].generation = 3;
    engine.goals[0].turn = 3;
    engine.goals[0].updated_at_ms = 5_000;
    engine
        .commit_user_message(UserMessageCommit {
            operation_id: text("start-goal-resume"),
            input_id: text("input-goal-resume"),
            run_id: text("run-goal-resume"),
            session_id: text(id),
            message: Some(record(user_message("goal-resume-user", "use stable channel"))),
            reasoning_effort: None,
            created_at_ms: 5_100,
        })
        .expect("start resumed goal run");
    let completed_goal = || {
        let mut goal = updated_goal();
        goal.state = GoalState::Completed;
        goal.generation = 4;
        goal.turn = 3;
        goal.budget.used_runs = 2;
        goal.updated_at_ms = 6_000;
        goal.completed_at_ms = Some(6_000);
        goal
    };
    let mut ending = settlement(
        "complete-resumed-goal",
        id,
        "run-goal-resume",
        RunStatus::Completed,
        vec![assistant_message("goal-resume-answer", "done")],
        6_000,
    );
    ending.effect.goal_effect = Some(Arc::new(GoalSettlementEffect::Transition {
        expected_goal_id: text("goal-settlement"),
        expected_generation: 3,
        goal: completed_goal(),
        resume_required: false,
    }));
    let completed = engine.settle_run(ending).expect("complete resumed goal");
    assert_eq!(completed.goal, Some(completed_goal()));
    assert!(engine.goals.is_empty());
    assert_eq!(engine.inputs.len(), 2);
}

#[test]
fn running_goal_is_durably_paused_once_during_recovery() {
    let mut engine = open_engine();
    create_session(&mut engine, "s-goal-recovery");
    engine
        .goals
        .push(goal("s-goal-recovery", "goal-recovery", "goal-source-message"));
    let mut continuation = new_input(
        "s-goal-recovery",
        "input-recovery-continuation",
        "run-recovery-continuation",
        injected(
            "recovery-continuation-message",
            "recovery-continuation-context",
            "GOAL_CONTINUATION_V1",
        ),
        2_500,
    );
    continuation.origin = InputOrigin::Runtime;
    continuation.goal_binding = Some(GoalInputBinding {
        goal_id: text("goal-recovery"),
        generation: 1,
        turn: 2,
    });
    engine
        .insert_input(&continuation)
        .expect("seed accepted continuation");

    let first = take_up(&mut engine, "s-goal-recovery").expect("first recovery");
    assert_eq!(first.goals.len(), 1);
    assert_eq!(first.goals[0].state, GoalState::Paused);
    assert_eq!(
        first.goals[0].pause_reason,
        Some(GoalPauseReason::RecoveryRequired)
    );
    assert_eq!(first.goals[0].generation, 2);
    assert!(first.inputs.is_empty());
    assert!(first.runs.is_empty());

    let second = take_up(&mut engine, "s-goal-recovery").expect("second recovery");
    assert_eq!(second.goals[0].generation, 2);
    assert_eq!(engine.goals[0].state, GoalState::Paused);
    assert_eq!(
        engine.goals[0].pause_reason,
        Some(GoalPauseReason::RecoveryRequired)
    );
}

#[test]
fn session_workspace_binding_and_legacy_unbound_repair_are_persisted_without_prompt_rewrite() {
    let mut engine = open_engine();
    engine.workspaces.push(Workspace {
        workspace_id: text("w-bound"),
        user_directory: text("/work/user"),
        agent_directory: text("/home/data/workspaces/w-bound"),
        lifecycle: WorkspaceLifecycle::Active,
    });
    for id in ["s-bound", "s-bound-two"] {
        create_session(&mut engine, id);
        let row = engine.session_resources.last_mut().expect("resources");
        row.workspace_id = Some(text("w-bound"));
        row.working_directory = text("/work/user");
    }
    create_session(&mut engine, "s-legacy");
    engine
        .session_resources
        .retain(|row| row.session_id != "s-legacy");
    let body = body_path(&engine, "s-legacy", 1);
    assert!(has_body(&engine, &body));

    take_up_all(&mut engine);
    let bound = engine
        .load_session_environment(&text("s-bound"))
        .expect("bound environment");
    assert_eq!(bound.workspace_id, Some(text("w-bound")));
    let second = engine
        .load_session_environment(&text("s-bound-two"))
        .expect("second environment");
    assert_eq!(
        bound.workspace_private_directory,
        second.workspace_private_directory
    );
    let repaired = engine
        .load_session_environment(&text("s-legacy"))
        .expect("legacy environment");
    assert_eq!(repaired.workspace_id, None);
    assert_eq!(repaired.working_directory, repaired.session_private_directory);
    assert_eq!(session(&engine, "s-legacy").system_prompt, "stable prompt");
    assert!(has_body(&engine, &body));
}

#[test]
fn idle_session_compaction_commits_generation_and_receipt_atomically() {
    let id = "s-idle-compact";
    let mut engine = open_engine();
    create_session(&mut engine, id);
    let preparation = CompactionPreparation {
        operation_id: text("idle-compact-operation"),
        session_id: text(id),
        expected_generation: 1,
        created_at_ms: 2_000,
    };
    assert_eq!(
        engine
            .prepare_session_compaction(&preparation)
            .expect("prepare compact"),
        CompactionPreparationResult::Prepared
    );
    let replacement = || vec![user_message("idle-compact-message", "retained context")];
    let plan = engine
        .begin_replacement(&text(id), records(replacement()), 3_000)
        .expect("write compacted conversation");
    engine.commit_replacement(&plan).expect("commit idle compact");
    let receipt = &mut engine.history_operations[0];
    receipt.state = HistoryState::Completed;
    receipt.result_generation = Some(plan.new_generation as i64);
    receipt.compacted_message_count = Some(4);
    receipt.retained_message_count = Some(1);
    assert_eq!(plan.previous_generation, 1);
    assert_eq!(plan.new_generation, 2);
    assert_messages(&conversation(&engine, id), &replacement());
    assert_eq!(
        engine
            .prepare_session_compaction(&preparation)
            .expect("idempotent compact result"),
        CompactionPreparationResult::Completed(CompactOutcome::Compacted {
            source_generation: 1,
            result_generation: 2,
            compacted_message_count: 4,
            retained_message_count: 1,
        })
    );
    let receipt = &engine.history_operations[0];
    assert_eq!(receipt.operation_id, "idle-compact-operation");
    assert_eq!(receipt.state, HistoryState::Completed);
    assert_eq!(receipt.result_generation, Some(2));
    assert_eq!(receipt.compacted_message_count, Some(4));
    assert_eq!(receipt.retained_message_count, Some(1));
    assert_eq!(engine.history_operations.len(), 1);
    assert_eq!(engine.recall_heads.len(), 1);
    assert_eq!(engine.recall_heads[0].body_generation, 2);
}

#[test]
fn preparing_manual_compaction_recovers_as_interrupted_without_switching_generation() {
    let mut engine = open_engine();
    create_session(&mut engine, "s-compact-recovery");
    engine
        .prepare_session_compaction(&CompactionPreparation {
            operation_id: text("compact-recovery"),
            session_id: text("s-compact-recovery"),
            expected_generation: 1,
            created_at_ms: 2_000,
        })
        .expect("prepare compact");
    take_up(&mut engine, "s-compact-recovery").expect("recover runtime");
    let receipt = engine
        .history_operation(&text("compact-recovery"))
        .expect("receipt")
        .expect("recovered compact receipt");
    assert_eq!(receipt.state, HistoryState::Interrupted);
    assert_eq!(session(&engine, "s-compact-recovery").body_generation, 1);
}

#[test]
fn history_rewrite_switches_generation_and_removes_tail_relations_atomically() {
    let mut engine = open_engine();
    create_session(&mut engine, "s-rewrite");
    for (input, run, user_id, assistant_id, at) in [
        ("input-one", "run-one", "user-one", "assistant-one", 1_100),
        ("input-two", "run-two", "user-two", "assistant-two", 1_200),
    ] {
        engine
            .insert_input(&new_input("s-rewrite", input, run, user_message(user_id, user_id), at))
            .expect("accept input");
        engine
            .commit_user_message(UserMessageCommit {
                operation_id: format!("start-{run}"),
                input_id: text(input),
                run_id: text(run),
                session_id: text("s-rewrite"),
                message: Some(record(user_message(user_id, user_id))),
                reasoning_effort: None,
                created_at_ms: at + 1,
            })
            .expect("commit user");
        engine
            .settle_run(settlement(
                &format!("settle-{run}"),
                "s-rewrite",
                run,
                RunStatus::Completed,
                vec![assistant_message(assistant_id, assistant_id)],
                at + 2,
            ))
            .expect("settle run");
    }
    create_child_task(&mut engine, "s-rewrite", "run-two", "ct-rewrite-tail");
    engine.child_tasks[0].status = ChildTaskStatus::Completed;
    let removed_directory =
        format!("{}/s-rewrite/child-tasks/ct-rewrite-tail/", engine.sessions_directory);
    assert!(engine
        .files
        .iter()
        .any(|file| file.path.starts_with(removed_directory.as_str())));

    let mut input = new_input(
        "s-rewrite",
        "input-replacement",
        "run-replacement",
        user_message("user-replacement", "replacement"),
        2_000,
    );
    input.idempotency_key = Some(text("rewrite-1"));
    let result = engine
        .rewrite_from_user(&ConversationRewrite {
            session_id: text("s-rewrite"),
            target_user_message_id: text("user-one"),
            conversation: records(vec![user_message("user-replacement", "replacement")]),
            input,
            goal_effect: None,
            changed_at_ms: 2_000,
        })
        .expect("rewrite history");
    assert_eq!(result.input.state, InputState::Committed);
    assert_eq!(result.run.status, RunStatus::Accepted);
    assert_eq!(result.removed_child_task_ids, vec![text("ct-rewrite-tail")]);
    assert_eq!(session(&engine, "s-rewrite").body_generation, 2);
    assert_messages(
        &conversation(&engine, "s-rewrite"),
        &[user_message("user-replacement", "replacement")],
    );
    let recovered = take_up(&mut engine, "s-rewrite").expect("restart recovery");
    assert_eq!(recovered.inputs.len(), 1);
    assert_eq!(recovered.inputs[0].input_id, "input-replacement");
    assert_eq!(recovered.runs.len(), 1);
    assert_eq!(recovered.runs[0].run_id, "run-replacement");
    assert_eq!(recovered.runs[0].status, RunStatus::Accepted);
    assert!(!has_body(&engine, &body_path(&engine, "s-rewrite", 1)));
    assert!(engine.child_tasks.is_empty());
    assert!(!engine
        .files
        .iter()
        .any(|file| file.path.starts_with(removed_directory.as_str())));
    assert!(has_body(&engine, &body_path(&engine, "s-rewrite", 2)));
}

#[test]
fn archive_and_model_changes_are_persisted_and_recheck_idle_state() {
    let mut engine = open_engine();
    let id = || text("s-lifecycle");
    create_session(&mut engine, "s-lifecycle");
    let archive = |archived: bool, changed_at_ms: i64| ArchiveChange {
        session_id: id(),
        archived,
        changed_at_ms,
    };
    let model = || ModelChange {
        session_id: id(),
        model_key: text("other-model"),
        reasoning_effort: None,
    };
    engine.set_session_archive(archive(true, 2_000)).expect("archive");
    assert!(matches!(
        engine.set_session_model(model()),
        Err(error) if error.kind() == StoreErrorKind::Conflict
    ));
    engine.set_session_archive(archive(false, 2_002)).expect("restore");
    engine.set_session_model(model()).expect("model change");
    engine
        .insert_input(&new_input(
            "s-lifecycle",
            "queued-input",
            "queued-run",
            user_message("queued-user", "queued"),
            2_004,
        ))
        .expect("queued input");
    engine
        .set_session_variant(VariantChange {
            session_id: id(),
            variant: AgentVariant::Plan,
        })
        .expect("variant change while run is active");
    engine
        .set_session_approval_mode(ApprovalModeChange {
            session_id: id(),
            approval_mode: ApprovalMode::Auto,
        })
        .expect("approval mode change while run is active");
    assert!(matches!(
        engine.set_session_archive(archive(true, 2_007)),
        Err(error) if error.kind() == StoreErrorKind::Conflict
    ));
    let recovered = take_up(&mut engine, "s-lifecycle").expect("load runtime");
    assert_eq!(recovered.sessions[0].lifecycle, SessionLifecycle::Active);
    assert_eq!(recovered.sessions[0].model_key, "other-model");
    assert_eq!(recovered.sessions[0].current_variant, AgentVariant::Plan);
    assert_eq!(recovered.sessions[0].approval_mode, ApprovalMode::Auto);
    assert_eq!(recovered.runs[0].agent_variant, AgentVariant::Build);
    assert_eq!(recovered.runs[0].approval_mode, ApprovalMode::Ask);
}

#[test]
fn every_runtime_error_code_round_trips_through_sqlite_text() {
    let codes = [
        RuntimeErrorCode::InvalidRequest,
        RuntimeErrorCode::SessionNotFound,
        RuntimeErrorCode::SessionBusy,
        RuntimeErrorCode::SessionArchived,
        RuntimeErrorCode::SessionNotIdle,
        RuntimeErrorCode::RunNotFound,
        RuntimeErrorCode::ChildTaskNotFound,
        RuntimeErrorCode::InputNotFound,
        RuntimeErrorCode::RunNotRetryable,
        RuntimeErrorCode::StorageUnavailable,
        RuntimeErrorCode::RuntimeShuttingDown,
        RuntimeErrorCode::AgentBuildFailed,
        RuntimeErrorCode::ConfigurationUnavailable,
        RuntimeErrorCode::ModelNotFound,
        RuntimeErrorCode::ModelUnavailable,
        RuntimeErrorCode::ModelBuildFailed,
        RuntimeErrorCode::ModelExecutionFailed,
        RuntimeErrorCode::ContextCompactionFailed,
        RuntimeErrorCode::Timeout,
        RuntimeErrorCode::Cancelled,
        RuntimeErrorCode::WorkspaceNotFound,
        RuntimeErrorCode::WorkspaceRemoved,
        RuntimeErrorCode::WorkspaceUnavailable,
        RuntimeErrorCode::AttachmentNotFound,
        RuntimeErrorCode::AttachmentUnavailable,
        RuntimeErrorCode::AttachmentTooLarge,
        RuntimeErrorCode::AttachmentUploadInvalid,
        RuntimeErrorCode::PermissionFileInvalid,
        RuntimeErrorCode::PermissionFileConflict,
        RuntimeErrorCode::PermissionReloadFailed,
        RuntimeErrorCode::PermissionPersistenceFailed,
        RuntimeErrorCode::ApprovalNotFound,
        RuntimeErrorCode::ApprovalExpired,
        RuntimeErrorCode::ApprovalNotHead,
        RuntimeErrorCode::ApprovalAlreadyResolved,
        RuntimeErrorCode::PermissionScopeUnavailable,
        RuntimeErrorCode::Conflict,
        RuntimeErrorCode::ConfigurationConflict,
        RuntimeErrorCode::QueueConflict,
        RuntimeErrorCode::SnapshotStale,
        RuntimeErrorCode::SnapshotBusy,
        RuntimeErrorCode::OperationNotAllowed,
        RuntimeErrorCode::ResourceNotPreviewable,
        RuntimeErrorCode::ResourceTooLarge,
        RuntimeErrorCode::Internal,
    ];
    for code in codes {
        assert_eq!(
            parse_error_code(error_code_value(code)).expect("stored error code"),
            code
        );
    }
}
