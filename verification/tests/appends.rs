#![allow(dead_code, unused_imports)]

use std::sync::Arc;

use runtime_storage::history_recovery::FoundFiles;
use runtime_storage::append_effect::{
    AppendPurpose, ConversationStorageTarget, GoalSettlementEffect, RunSettlementEffect,
};
use runtime_storage::clear_cleanup::{
    cleanup_cleared_session_files, ChildEntry, ChildrenListing, DirectoryEntry, EntryKind,
    ImageEntry, SessionListing,
};
use runtime_storage::conversation::{decode, encode_messages, reconcile_append, RecordedMessage};
use runtime_storage::engine::{body_place, write_body, StorageEngine};
use runtime_storage::error::{StorageResult, StoreError, StoreErrorKind};
use runtime_storage::exchange_commands::{
    ChildToolExecutionStart, CompletedChildToolExchange, CompletedToolExchange,
    PendingChildToolExchange, PendingToolExchange, ToolExecutionStart,
};
use runtime_storage::message::{
    message_id, AssistantMessage, AssistantPart, ConversationMessage, FileReference,
    FileReferencesPart, FinishReason, ImageMediaType, JsonField, JsonValue, ModelIdentity, TextPart,
    TokenUsage, ToolCall, ToolImageReference, ToolMessage, ToolResult, ToolResultContent,
    ToolResultPart, ToolResultStatus, TranscriptVisibility, UserMessage, UserMessageOrigin,
    UserPart,
};
use runtime_storage::recovery::{AppendRequest, AppendTable, ChildAppendRequest};
use runtime_storage::rows::{
    AgentVariant, ApprovalMode, AttachmentState, ChildTaskRow, ChildTaskStatus, ConversationOwner,
    CrossSessionBinding, Device, GoalBudget, GoalInputBinding, GoalObjective, GoalPauseReason,
    GoalState, HistoryKind, HistoryOperationRow, HistoryState, InputKind, InputOrigin, InputState,
    MessageFeedback, NewStoredInput, PendingState, RecallHeadRow, RecallState, RunError,
    RunMessageRef, RunRow, SessionLifecycle, SessionProxy, SessionResources, SessionRole,
    SessionRow, SessionTitleOrigin, SessionUsageRow, SkillActivationOwner, SkillActivationTrigger,
    SkillCatalog, SkillNameState, StoredAttachment, StoredGoal, StoredInput,
    StoredSkillActivation, Workspace, WorkspaceLifecycle,
};
use runtime_storage::run_projection::{
    error_code_value, parse_error_code, parse_run_status, run_status_value, RunStatus,
    RuntimeErrorCode,
};
use runtime_storage::run_state::{NewRunAttempt, RunSettlement, UserMessageCommit};
use runtime_storage::session_fork::{ForkAttachment, ForkResources, NewStoredSession, SessionFork};
use runtime_storage::session_history::{
    ClearProgress, CleanupStatus, CompactOutcome, CompactionFinish, CompactionFinishKind,
    CompactionPreparation, CompactionPreparationResult, SessionHistoryClear,
};
use runtime_storage::session_loading::LoadedSession;
use runtime_storage::session_management::{
    ApprovalModeChange, ArchiveChange, MessageFeedbackChange, ModelChange, ReasoningEffortChange,
    SessionPinnedChange, SessionProxyChange, SessionTitleChange, StoredMessageFeedback,
    VariantChange,
};
use runtime_storage::session_resources::SessionExecutionEnvironment;
use runtime_storage::session_rewrite::ConversationRewrite;
use runtime_storage::session_transfer::{SessionDeletion, StagedDeletion};
use runtime_storage::skill::SkillNameStateChange;
use runtime_storage::tool_exchange::{PendingExchange, PendingTable, ReadyExchange};
use runtime_storage::tool_images::ImageFile;
use runtime_storage::usage::empty_usage;
use runtime_storage::work_plan::{
    StoredWorkPlan, TodoItemStatus, WorkPlanClear, WorkPlanItem, WorkPlanMutation,
};

fn text(value: &str) -> String {
    value.to_owned()
}

fn encode(message: &ConversationMessage) -> Vec<u8> {
    format!("{message:?}").into_bytes()
}

fn record(message: ConversationMessage) -> Arc<RecordedMessage> {
    Arc::new(RecordedMessage {
        record: encode(&message),
        message: Arc::new(message),
    })
}

fn records(messages: Vec<ConversationMessage>) -> Vec<Arc<RecordedMessage>> {
    messages.into_iter().map(record).collect()
}

fn open_engine() -> StorageEngine {
    StorageEngine::new(text("/home/data/sessions"), text("/home/data/session-deletions"))
}

fn environment(engine: &StorageEngine, session: &str) -> SessionExecutionEnvironment {
    let directory = format!("{}/{session}", engine.sessions_directory);
    SessionExecutionEnvironment {
        workspace_id: None,
        working_directory: format!("{directory}/private"),
        workspace_private_directory: None,
        session_attachment_directory: format!("{directory}/attachments"),
        session_tool_image_directory: format!("{directory}/tool-images"),
        session_private_directory: format!("{directory}/private"),
    }
}

fn catalog() -> SkillCatalog {
    SkillCatalog {
        revision: text("legacy"),
        document: text("{}"),
    }
}

fn new_session(engine: &StorageEngine, session: &str) -> NewStoredSession {
    NewStoredSession {
        session_id: text(session),
        title: format!("Session {session}"),
        title_origin: SessionTitleOrigin::Generated,
        automatic_title_pending: false,
        model_key: text("fixture-model"),
        reasoning_effort: None,
        system_prompt: text("stable prompt"),
        skill_catalog: catalog(),
        environment: environment(engine, session),
        current_variant: AgentVariant::Build,
        approval_mode: ApprovalMode::Ask,
        role: SessionRole::Standard,
        materialization_key: None,
        created_at_ms: 1_000,
    }
}

fn session_row(session: &str, role: SessionRole, created_at_ms: i64) -> SessionRow {
    SessionRow {
        session_id: text(session),
        title: format!("Session {session}"),
        title_origin: SessionTitleOrigin::Generated,
        automatic_title_pending: false,
        model_key: text("fixture-model"),
        reasoning_effort: None,
        system_prompt: text("stable prompt"),
        skill_catalog: catalog(),
        current_variant: AgentVariant::Build,
        approval_mode: ApprovalMode::Ask,
        role,
        lifecycle: SessionLifecycle::Active,
        body_generation: 1,
        message_count: 0,
        created_at_ms,
        updated_at_ms: created_at_ms,
        archived_at_ms: None,
        is_pinned: false,
        materialization_key: None,
        proxy: None,
        pc_output_device_id: None,
    }
}

fn create_session_as(engine: &mut StorageEngine, session: &str, role: SessionRole, created: i64) {
    engine.sessions.push(session_row(session, role, created));
    let environment = environment(engine, session);
    engine.session_resources.push(SessionResources {
        session_id: text(session),
        workspace_id: None,
        working_directory: environment.working_directory,
        attachment_directory: environment.session_attachment_directory,
        private_directory: environment.session_private_directory,
        created_at_ms: created,
    });
    engine.session_usage.push(SessionUsageRow {
        session_id: text(session),
        usage: empty_usage(),
        backfilled: true,
        updated_at_ms: created,
    });
    let path = body_path(engine, session, 1);
    write_body(&mut engine.files, &path, Vec::new());
}

fn create_session(engine: &mut StorageEngine, session: &str) {
    create_session_as(engine, session, SessionRole::Standard, 1_000);
}

fn main_target(session: &str) -> ConversationStorageTarget {
    ConversationStorageTarget::Session {
        session_id: text(session),
        run_id: text("any-run"),
    }
}

fn child_target(session: &str, child: &str) -> ConversationStorageTarget {
    ConversationStorageTarget::ChildTask {
        session_id: text(session),
        child_task_id: text(child),
    }
}

fn body_path(engine: &StorageEngine, session: &str, generation: u64) -> String {
    engine
        .target_body_path(&main_target(session), generation)
        .expect("body path")
}

fn has_body(engine: &StorageEngine, path: &str) -> bool {
    body_place(&engine.files, &text(path)).is_some()
}

fn session<'a>(engine: &'a StorageEngine, session: &str) -> &'a SessionRow {
    let place = engine.session_place(&text(session)).expect("session");
    &engine.sessions[place]
}

fn run<'a>(engine: &'a StorageEngine, run: &str) -> &'a RunRow {
    engine
        .runs
        .iter()
        .find(|row| row.run_id == run)
        .expect("run")
}

fn try_load(engine: &StorageEngine, session: &str) -> StorageResult<Vec<Arc<ConversationMessage>>> {
    engine.load_target_conversation(&main_target(session))
}

fn conversation(engine: &StorageEngine, session: &str) -> Vec<Arc<ConversationMessage>> {
    try_load(engine, session).expect("conversation")
}

fn assert_messages(found: &[Arc<ConversationMessage>], expected: &[ConversationMessage]) {
    assert_eq!(found.len(), expected.len());
    for (left, right) in found.iter().zip(expected) {
        assert_eq!(**left, *right);
    }
}

fn user(value: &str, content: &str) -> UserMessage {
    UserMessage {
        id: text(value),
        origin: UserMessageOrigin::User,
        transcript_visibility: TranscriptVisibility::Visible,
        parts: vec![UserPart::Text(TextPart {
            id: format!("part-{value}"),
            text: text(content),
        })],
    }
}

fn user_message(value: &str, content: &str) -> ConversationMessage {
    ConversationMessage::User(user(value, content))
}

fn fixture_model() -> ModelIdentity {
    ModelIdentity {
        provider: text("fixture"),
        model: text("fixture-model"),
    }
}

fn assistant(value: &str, content: &str) -> AssistantMessage {
    AssistantMessage {
        id: text(value),
        model: fixture_model(),
        parts: vec![
            AssistantPart::Reasoning(TextPart {
                id: format!("reasoning-{value}"),
                text: text("private reasoning"),
            }),
            AssistantPart::Text(TextPart {
                id: format!("text-{value}"),
                text: text(content),
            }),
        ],
        finish_reason: FinishReason::Stop,
        usage: None,
    }
}

fn assistant_message(value: &str, content: &str) -> ConversationMessage {
    ConversationMessage::Assistant(assistant(value, content))
}

fn assistant_message_with_usage(
    value: &str,
    input_tokens: u64,
    cached_input_tokens: Option<u64>,
) -> ConversationMessage {
    let mut message = assistant(value, value);
    message.usage = Some(TokenUsage {
        input_tokens,
        output_tokens: 10,
        total_tokens: input_tokens + 10,
        cached_input_tokens,
        reasoning_tokens: Some(4),
    });
    ConversationMessage::Assistant(message)
}

fn tool_exchange() -> Vec<ConversationMessage> {
    vec![
        ConversationMessage::Assistant(AssistantMessage {
            id: text("assistant-tool"),
            model: fixture_model(),
            parts: vec![
                AssistantPart::ProviderState(br#"{"cursor":"opaque"}"#.to_vec()),
                AssistantPart::ToolCall(ToolCall {
                    id: text("call-1"),
                    name: text("echo_text"),
                    arguments: text(r#"{"text":"hello"}"#),
                }),
            ],
            finish_reason: FinishReason::ToolCalls,
            usage: None,
        }),
        ConversationMessage::Tool(ToolMessage {
            id: text("tool-result"),
            result: ToolResult {
                call_id: text("call-1"),
                status: ToolResultStatus::Success,
                content: ToolResultContent::Text(text("hello")),
            },
        }),
    ]
}

fn tool_image_exchange(file_name: &str) -> Vec<ConversationMessage> {
    vec![
        user_message("user-image", "inspect the image"),
        ConversationMessage::Assistant(AssistantMessage {
            id: text("assistant-image"),
            model: fixture_model(),
            parts: vec![AssistantPart::ToolCall(ToolCall {
                id: text("call-image"),
                name: text("read_image"),
                arguments: text(r#"{"path":"/outside/source.png"}"#),
            })],
            finish_reason: FinishReason::ToolCalls,
            usage: None,
        }),
        ConversationMessage::Tool(ToolMessage {
            id: text("tool-image"),
            result: ToolResult {
                call_id: text("call-image"),
                status: ToolResultStatus::Success,
                content: ToolResultContent::Parts(vec![ToolResultPart::Image(
                    ToolImageReference {
                        file_name: text(file_name),
                        media_type: ImageMediaType::Png,
                    },
                )]),
            },
        }),
    ]
}

fn pending_tool_exchange(session: &str, run: &str, receipt: &str) -> PendingToolExchange {
    PendingToolExchange {
        receipt_id: text(receipt),
        session_id: text(session),
        run_id: text(run),
        assistant: record(tool_exchange().remove(0)),
        step: Some(1),
        created_at_ms: 2_000,
    }
}

fn pending_delegate_exchange(session: &str, run: &str, receipt: &str) -> PendingToolExchange {
    PendingToolExchange {
        receipt_id: text(receipt),
        session_id: text(session),
        run_id: text(run),
        assistant: record(ConversationMessage::Assistant(AssistantMessage {
            id: format!("assistant-{receipt}"),
            model: fixture_model(),
            parts: vec![AssistantPart::ToolCall(ToolCall {
                id: text("call-1"),
                name: text("delegate_task"),
                arguments: text(r#"{"title":"recover child","task":"inspect"}"#),
            })],
            finish_reason: FinishReason::ToolCalls,
            usage: None,
        })),
        step: Some(1),
        created_at_ms: 2_000,
    }
}

fn ready_results() -> Arc<ReadyExchange> {
    Arc::new(ReadyExchange {
        results: vec![record(tool_exchange().remove(1))],
        activation_message: None,
        skill_activations: Arc::new(Vec::new()),
    })
}

fn start_tool(engine: &mut StorageEngine, session: &str, run: &str, receipt: &str) {
    engine
        .mark_tool_execution_started(ToolExecutionStart {
            receipt_id: text(receipt),
            session_id: text(session),
            run_id: text(run),
            call_id: text("call-1"),
            started_at_ms: 2_200,
        })
        .expect("record tool started");
}

fn new_input(session: &str, input: &str, run: &str, message: ConversationMessage, at: i64) -> NewStoredInput {
    NewStoredInput {
        input_id: text(input),
        run_id: text(run),
        session_id: text(session),
        idempotency_key: None,
        agent_variant: AgentVariant::Build,
        origin: InputOrigin::User,
        goal_binding: None,
        cross_session: None,
        channel_source: None,
        approval_mode: ApprovalMode::Ask,
        user_message_id: message_id(&message).clone(),
        message: record(message),
        accepted_at_ms: at,
    }
}

fn settlement(operation: &str, session: &str, run: &str, status: RunStatus, messages: Vec<ConversationMessage>, at: i64) -> RunSettlement {
    RunSettlement {
        operation_id: text(operation),
        run_id: text(run),
        session_id: text(session),
        effect: RunSettlementEffect {
            status,
            cancel_requested: false,
            error: None,
            goal_effect: None,
            proxy_report: None,
        },
        messages: records(messages),
        message_step: None,
        finished_at_ms: at,
    }
}

fn commit_completed_turn(engine: &mut StorageEngine, session: &str, suffix: &str, accepted_at_ms: i64) {
    let input = format!("input-{suffix}");
    let run = format!("run-{suffix}");
    let user_id = format!("user-{suffix}");
    engine
        .insert_input(&new_input(session, &input, &run, user_message(&user_id, suffix), accepted_at_ms))
        .expect("accept fixture input");
    engine
        .commit_user_message(UserMessageCommit {
            operation_id: format!("commit-{suffix}"),
            input_id: input,
            run_id: run.clone(),
            session_id: text(session),
            message: Some(record(user_message(&user_id, suffix))),
            reasoning_effort: None,
            created_at_ms: accepted_at_ms + 1,
        })
        .expect("commit fixture user message");
    engine
        .settle_run(settlement(
            &format!("settle-{suffix}"),
            session,
            &run,
            RunStatus::Completed,
            vec![assistant_message(&format!("assistant-{suffix}"), suffix)],
            accepted_at_ms + 2,
        ))
        .expect("settle fixture run");
}

fn seed_session_and_run(engine: &mut StorageEngine, session: &str, run: &str) {
    create_session(engine, session);
    let order = engine.inputs.len() as i64 + 1;
    engine.inputs.push(StoredInput {
        queue_order: order,
        kind: InputKind::Message,
        input_id: format!("input-{run}"),
        session_id: text(session),
        idempotency_key: None,
        agent_variant: AgentVariant::Build,
        origin: InputOrigin::User,
        goal_binding: None,
        cross_session: None,
        channel_source: None,
        user_message_id: format!("user-{run}"),
        state: InputState::Committed,
        queued_message: None,
        accepted_at_ms: 1_001,
    });
    engine.runs.push(RunRow {
        run_id: text(run),
        session_id: text(session),
        input_id: format!("input-{run}"),
        attempt: 1,
        status: RunStatus::Accepted,
        cancel_requested: false,
        approval_mode: ApprovalMode::Ask,
        reasoning_effort: None,
        error: None,
        created_at_ms: 1_001,
        started_at_ms: None,
        finished_at_ms: None,
    });
}

fn mark_running(engine: &mut StorageEngine, run: &str, at: i64) {
    let row = engine
        .runs
        .iter_mut()
        .find(|row| row.run_id == run)
        .expect("run");
    row.status = RunStatus::Running;
    row.started_at_ms = Some(at);
}

fn append_request(operation: &str, session: &str, run: &str) -> AppendRequest {
    AppendRequest {
        operation_id: text(operation),
        session_id: text(session),
        run_id: text(run),
        messages: records(vec![
            user_message(&format!("message-{operation}"), "hello"),
            assistant_message(&format!("assistant-{operation}"), "world"),
        ]),
        message_step: None,
        created_at_ms: 2_000,
    }
}

fn create_child_task(engine: &mut StorageEngine, session: &str, run: &str, child: &str) {
    engine.child_tasks.push(ChildTaskRow {
        child_task_id: text(child),
        session_id: text(session),
        parent_run_id: text(run),
        parent_tool_call_id: text("call-1"),
        status: ChildTaskStatus::Accepted,
        final_message_id: None,
        error_code: None,
        body_generation: 1,
        message_count: 0,
    });
    let path = engine
        .target_body_path(&child_target(session, child), 1)
        .expect("child body path");
    write_body(&mut engine.files, &path, Vec::new());
}

fn start_child_task(engine: &mut StorageEngine, session: &str, child: &str, operation: &str, message: ConversationMessage) {
    engine
        .append_child_messages(ChildAppendRequest {
            operation_id: text(operation),
            child_task_id: text(child),
            session_id: text(session),
            messages: vec![record(message)],
            message_step: None,
            created_at_ms: 2_200,
            purpose: AppendPurpose::Messages,
        })
        .expect("start child");
    let place = engine
        .child_place(&text(session), &text(child))
        .expect("child");
    engine.child_tasks[place].status = ChildTaskStatus::Running;
}

fn take_up(engine: &mut StorageEngine, session: &str) -> StorageResult<LoadedSession> {
    let id = text(session);
    let mended = engine.prepare_session_execution(&id, &FoundFiles::none(), &encode)?;
    engine.take_up_session(&id, &mended, false)
}

fn take_up_all(engine: &mut StorageEngine) -> Vec<LoadedSession> {
    let ids: Vec<String> = engine
        .sessions
        .iter()
        .map(|row| row.session_id.clone())
        .collect();
    ids.iter()
        .map(|id| take_up(engine, id).expect("take up session"))
        .collect()
}
#[test]
fn jsonl_requires_complete_records_unique_ids_and_valid_tool_pairs() {
    let expected = || {
        let mut messages = vec![
            user_message("message-1", "hello"),
            assistant_message("message-2", "world"),
        ];
        messages.extend(tool_exchange());
        messages
    };
    let batch = records(expected());
    let valid = encode_messages(&batch).expect("encode");
    assert_messages(&decode(&batch, &valid).expect("decode"), &expected());

    let without_newline = valid[..valid.len() - 1].to_vec();
    assert_eq!(
        decode(&batch, &without_newline)
            .expect_err("incomplete record")
            .kind(),
        StoreErrorKind::InvalidData
    );

    let duplicates = records(vec![
        user_message("message-1", "one"),
        user_message("message-1", "two"),
    ]);
    let mut duplicate = Vec::new();
    for entry in &duplicates {
        duplicate.extend_from_slice(&entry.record);
        duplicate.push(b'\n');
    }
    assert_eq!(
        decode(&duplicates, &duplicate)
            .expect_err("duplicate id")
            .kind(),
        StoreErrorKind::InvalidData
    );

    let unpaired = records(vec![tool_exchange().remove(0), user_message("message-3", "next")]);
    let mut bytes = Vec::new();
    for entry in &unpaired {
        bytes.extend_from_slice(&entry.record);
        bytes.push(b'\n');
    }
    assert_eq!(
        decode(&unpaired, &bytes).expect_err("open call").kind(),
        StoreErrorKind::InvalidData
    );
}

#[test]
fn staged_append_recovers_from_each_durable_interruption_point() {
    for phase in ["staged", "partial", "written", "finalized"] {
        let mut engine = open_engine();
        seed_session_and_run(&mut engine, "s-recovery", "r-recovery");
        let request = append_request("operation-recovery", "s-recovery", "r-recovery");
        match phase {
            "staged" => engine.stage_append(request).expect("stage append"),
            "partial" => {
                engine.stage_append(request).expect("stage append");
                let staged = engine
                    .staged_append(&text("operation-recovery"), AppendTable::Session)
                    .expect("read staged payload");
                assert_eq!(staged.base_byte_length, 0);
                let half = staged.payload[..staged.payload.len() / 2].to_vec();
                let path = body_path(&engine, "s-recovery", 1);
                write_body(&mut engine.files, &path, half);
            }
            "written" => {
                engine.stage_append(request).expect("stage append");
                engine
                    .write_staged_append(&text("operation-recovery"))
                    .expect("write staged append");
            }
            "finalized" => {
                engine.append_messages(request).expect("append messages");
            }
            _ => unreachable!("known phase"),
        }

        let recovered = take_up_all(&mut engine);
        assert_eq!(recovered.len(), 1);
        assert_eq!(recovered[0].sessions[0].message_count, 2);
        assert!(!recovered[0].conversation_unavailable);
        assert_eq!(conversation(&engine, "s-recovery").len(), 2);
        assert_eq!(engine.staged_append_count(), 0);
        assert_eq!(engine.run_message_refs.len(), 2);
    }
}

#[test]
fn completed_tool_exchange_enters_body_as_one_batch_and_clears_pending() {
    let mut engine = open_engine();
    seed_session_and_run(&mut engine, "s-tool", "r-tool");
    mark_running(&mut engine, "r-tool", 1_500);
    engine
        .begin_tool_exchange(pending_tool_exchange("s-tool", "r-tool", "receipt-tool"))
        .expect("begin tool exchange");
    start_tool(&mut engine, "s-tool", "r-tool", "receipt-tool");
    assert_eq!(engine.pending_exchanges[0].state, PendingState::Begun);

    engine
        .complete_tool_exchange(CompletedToolExchange {
            operation_id: text("append-tool"),
            receipt_id: text("receipt-tool"),
            session_id: text("s-tool"),
            run_id: text("r-tool"),
            ready: ready_results(),
            step: Some(1),
            completed_at_ms: 2_500,
        })
        .expect("complete tool exchange");

    assert_eq!(engine.pending_exchanges.len(), 0);
    assert_eq!(engine.pending_starts.len(), 0);
    assert_messages(&conversation(&engine, "s-tool"), &tool_exchange());
    assert_eq!(engine.run_message_refs.len(), 2);
    let steps: Vec<Option<u32>> = engine.run_message_refs.iter().map(|row| row.step).collect();
    assert_eq!(steps, vec![Some(1), Some(1)]);
}

#[test]
fn model_skill_activation_commits_with_tool_results_and_recovers_as_one_fact() {
    let mut engine = open_engine();
    seed_session_and_run(&mut engine, "s-model-skill", "r-model-skill");
    mark_running(&mut engine, "r-model-skill", 1_500);
    engine
        .begin_tool_exchange(pending_tool_exchange(
            "s-model-skill",
            "r-model-skill",
            "receipt-model-skill",
        ))
        .expect("begin tool exchange");
    start_tool(&mut engine, "s-model-skill", "r-model-skill", "receipt-model-skill");
    let activation_message = || {
        ConversationMessage::User(UserMessage {
            id: text("message-model-skill"),
            origin: UserMessageOrigin::Runtime,
            transcript_visibility: TranscriptVisibility::Hidden,
            parts: vec![UserPart::InternalContext(TextPart {
                id: text("part-model-skill"),
                text: text("SKILL_ACTIVATION_V1\ntrigger: model"),
            })],
        })
    };
    let activation = || StoredSkillActivation {
        activation_id: text("activation-model-skill"),
        session_id: text("s-model-skill"),
        owner: SkillActivationOwner::Session(text("s-model-skill")),
        run_id: Some(text("r-model-skill")),
        input_id: None,
        message_id: text("message-model-skill"),
        name: text("review"),
        catalog_revision: text("catalog-revision"),
        definition_digest: format!("sha256-v1:{}", "1".repeat(64)),
        trigger: SkillActivationTrigger::Model,
        created_at_ms: 2_500,
    };
    engine
        .complete_tool_exchange(CompletedToolExchange {
            operation_id: text("append-model-skill"),
            receipt_id: text("receipt-model-skill"),
            session_id: text("s-model-skill"),
            run_id: text("r-model-skill"),
            ready: Arc::new(ReadyExchange {
                results: vec![record(tool_exchange().remove(1))],
                activation_message: Some(record(activation_message())),
                skill_activations: Arc::new(vec![activation()]),
            }),
            step: Some(1),
            completed_at_ms: 2_500,
        })
        .expect("complete model activation exchange");

    let messages = conversation(&engine, "s-model-skill");
    assert_eq!(messages.len(), 3);
    assert_eq!(*messages[2], activation_message());
    assert_eq!(engine.skill_activations.len(), 1);
    let recovered = take_up(&mut engine, "s-model-skill").expect("recover runtime");
    assert_eq!(recovered.skill_activations, vec![activation()]);
}

#[test]
fn startup_repairs_unstarted_tool_as_not_executed() {
    let mut engine = open_engine();
    seed_session_and_run(&mut engine, "s-unstarted", "r-unstarted");
    mark_running(&mut engine, "r-unstarted", 1_500);
    engine
        .begin_tool_exchange(pending_tool_exchange(
            "s-unstarted",
            "r-unstarted",
            "receipt-unstarted",
        ))
        .expect("begin tool exchange");

    take_up(&mut engine, "s-unstarted").expect("recover unstarted exchange");
    let messages = conversation(&engine, "s-unstarted");
    let ConversationMessage::Tool(result) = &*messages[1] else {
        panic!("repaired batch must end with a tool result")
    };
    assert_eq!(result.result.status, ToolResultStatus::Error);
    assert_eq!(
        result.result.content,
        ToolResultContent::Text(text("runtime restarted before tool execution started"))
    );
}

#[test]
fn pending_tool_exchange_prevents_run_terminal_settlement() {
    let mut engine = open_engine();
    seed_session_and_run(&mut engine, "s-pending", "r-pending");
    mark_running(&mut engine, "r-pending", 1_500);
    engine
        .begin_tool_exchange(pending_tool_exchange("s-pending", "r-pending", "receipt-pending"))
        .expect("begin tool exchange");

    let error = engine
        .settle_run(settlement(
            "settle-pending",
            "s-pending",
            "r-pending",
            RunStatus::Failed,
            Vec::new(),
            3_000,
        ))
        .expect_err("pending exchange must block terminal settlement");
    assert_eq!(error.kind(), StoreErrorKind::Conflict);
    assert_eq!(run(&engine, "r-pending").status, RunStatus::Running);
}

#[test]
fn startup_repairs_begun_tool_exchange_with_unknown_results_without_reexecution() {
    let mut engine = open_engine();
    seed_session_and_run(&mut engine, "s-begun", "r-begun");
    mark_running(&mut engine, "r-begun", 1_500);
    engine
        .begin_tool_exchange(pending_tool_exchange("s-begun", "r-begun", "receipt-begun"))
        .expect("begin tool exchange");
    start_tool(&mut engine, "s-begun", "r-begun", "receipt-begun");

    let recovered = take_up(&mut engine, "s-begun").expect("recover begun exchange");
    assert_eq!(recovered.runs[0].status, RunStatus::Running);
    let messages = conversation(&engine, "s-begun");
    assert_eq!(messages.len(), 2);
    let ConversationMessage::Tool(result) = &*messages[1] else {
        panic!("repaired batch must end with a tool result")
    };
    assert_eq!(result.result.status, ToolResultStatus::Error);
    assert_eq!(
        result.result.content,
        ToolResultContent::Text(text("runtime restarted; tool execution outcome is unknown"))
    );
    assert_eq!(engine.pending_exchanges.len(), 0);
    assert_eq!(engine.pending_starts.len(), 0);
}

fn field<'a>(value: &'a JsonValue, name: &str) -> &'a JsonValue {
    let JsonValue::Object(fields) = value else {
        panic!("an object holds {name}")
    };
    &fields
        .iter()
        .find(|field| field.name == name)
        .expect("field")
        .value
}

#[test]
fn startup_rebuilds_parent_delegate_result_from_completed_child() {
    let mut engine = open_engine();
    seed_session_and_run(&mut engine, "s-delegate-complete", "r-delegate-complete");
    mark_running(&mut engine, "r-delegate-complete", 1_500);
    engine
        .begin_tool_exchange(pending_delegate_exchange(
            "s-delegate-complete",
            "r-delegate-complete",
            "receipt-delegate-complete",
        ))
        .expect("begin delegate exchange");
    start_tool(
        &mut engine,
        "s-delegate-complete",
        "r-delegate-complete",
        "receipt-delegate-complete",
    );
    create_child_task(
        &mut engine,
        "s-delegate-complete",
        "r-delegate-complete",
        "ct-delegate-complete",
    );
    start_child_task(
        &mut engine,
        "s-delegate-complete",
        "ct-delegate-complete",
        "start-delegate-child",
        user_message("delegate-child-user", "inspect"),
    );
    engine
        .append_child_messages(ChildAppendRequest {
            operation_id: text("settle-delegate-child"),
            child_task_id: text("ct-delegate-complete"),
            session_id: text("s-delegate-complete"),
            messages: records(vec![assistant_message("delegate-child-final", "recovered answer")]),
            message_step: None,
            created_at_ms: 2_300,
            purpose: AppendPurpose::Messages,
        })
        .expect("settle child");
    engine.child_tasks[0].status = ChildTaskStatus::Completed;
    engine.child_tasks[0].final_message_id = Some(text("delegate-child-final"));

    let recovered = take_up(&mut engine, "s-delegate-complete").expect("recover runtime");
    assert_eq!(recovered.child_tasks[0].status, ChildTaskStatus::Completed);
    assert_eq!(recovered.runs[0].status, RunStatus::Running);
    let messages = conversation(&engine, "s-delegate-complete");
    let ConversationMessage::Tool(tool) = &*messages[1] else {
        panic!("delegate recovery must append one tool result")
    };
    assert_eq!(tool.result.status, ToolResultStatus::Success);
    let ToolResultContent::Json(content) = &tool.result.content else {
        panic!("completed child result must remain structured")
    };
    assert_eq!(*field(content, "task_id"), JsonValue::Text(text("ct-delegate-complete")));
    assert_eq!(*field(content, "result"), JsonValue::Text(text("recovered answer")));
}

#[test]
fn startup_interrupts_running_child_before_rebuilding_parent_result() {
    let mut engine = open_engine();
    seed_session_and_run(&mut engine, "s-delegate-running", "r-delegate-running");
    mark_running(&mut engine, "r-delegate-running", 1_500);
    engine
        .begin_tool_exchange(pending_delegate_exchange(
            "s-delegate-running",
            "r-delegate-running",
            "receipt-delegate-running",
        ))
        .expect("begin delegate exchange");
    start_tool(
        &mut engine,
        "s-delegate-running",
        "r-delegate-running",
        "receipt-delegate-running",
    );
    create_child_task(
        &mut engine,
        "s-delegate-running",
        "r-delegate-running",
        "ct-delegate-running",
    );
    start_child_task(
        &mut engine,
        "s-delegate-running",
        "ct-delegate-running",
        "start-running-child",
        user_message("running-child-user", "inspect"),
    );

    let recovered = take_up(&mut engine, "s-delegate-running").expect("recover runtime");
    assert_eq!(recovered.child_tasks[0].status, ChildTaskStatus::Interrupted);
    assert_eq!(recovered.runs[0].status, RunStatus::Running);
    let messages = conversation(&engine, "s-delegate-running");
    let ConversationMessage::Tool(tool) = &*messages[1] else {
        panic!("delegate recovery must append one tool result")
    };
    let ToolResultContent::Json(content) = &tool.result.content else {
        panic!("interrupted child result must remain structured")
    };
    let details = field(field(content, "error"), "details");
    assert_eq!(*field(details, "task_id"), JsonValue::Text(text("ct-delegate-running")));
    assert_eq!(*field(details, "code"), JsonValue::Text(text("interrupted")));
}

#[test]
fn startup_commits_ready_tool_exchange_with_its_recorded_results() {
    let mut engine = open_engine();
    seed_session_and_run(&mut engine, "s-ready", "r-ready");
    mark_running(&mut engine, "r-ready", 1_500);
    engine
        .begin_tool_exchange(pending_tool_exchange("s-ready", "r-ready", "receipt-ready"))
        .expect("begin tool exchange");
    start_tool(&mut engine, "s-ready", "r-ready", "receipt-ready");
    let begun = pending_tool_exchange("s-ready", "r-ready", "receipt-ready");
    let target = engine.pending_exchanges[0].target.copy();
    engine.pending_exchanges[0] = Arc::new(PendingExchange {
        receipt_id: begun.receipt_id,
        target,
        assistant: begun.assistant,
        ready: Some(ready_results()),
        state: PendingState::Ready,
        step: begun.step,
        created_at_ms: begun.created_at_ms,
    });

    let recovered = take_up(&mut engine, "s-ready").expect("recover ready exchange");
    assert_eq!(recovered.runs[0].status, RunStatus::Running);
    assert_messages(&conversation(&engine, "s-ready"), &tool_exchange());
    assert_eq!(engine.pending_exchanges.len(), 0);
    assert_eq!(engine.pending_starts.len(), 0);
}

#[test]
fn host_recovery_returns_nonterminal_run_for_runtime_settlement() {
    let mut engine = open_engine();
    seed_session_and_run(&mut engine, "s-interrupted", "r-interrupted");
    mark_running(&mut engine, "r-interrupted", 1_002);
    let recovered = take_up(&mut engine, "s-interrupted").expect("recover runtime");
    assert_eq!(recovered.runs.len(), 1);
    assert_eq!(recovered.runs[0].status, RunStatus::Running);
    assert!(recovered.runs[0].finished_at_ms.is_none());
}

#[test]
fn startup_finishes_staged_run_start_before_runtime_settlement() {
    let mut engine = open_engine();
    seed_session_and_run(&mut engine, "s-start", "r-start");
    engine.inputs[0].state = InputState::Queued;
    engine.inputs[0].queued_message = Some(record(user_message("user-r-start", "hello")));
    engine
        .stage_append_for(
            AppendRequest {
                operation_id: text("operation-start"),
                session_id: text("s-start"),
                run_id: text("r-start"),
                messages: records(vec![user_message("user-r-start", "hello")]),
                message_step: None,
                created_at_ms: 2_000,
            },
            AppendPurpose::UserMessage {
                reasoning_effort: None,
            },
        )
        .expect("stage run start");

    let recovered = take_up(&mut engine, "s-start").expect("recover staged run start");
    assert_eq!(recovered.runs[0].status, RunStatus::Running);
    assert_eq!(engine.inputs[0].state, InputState::Committed);
    assert_eq!(recovered.sessions[0].message_count, 1);
    assert_eq!(recovered.runs[0].message_ids.len(), 1);
}

#[test]
fn startup_finishes_staged_terminal_message_and_run_status_together() {
    let mut engine = open_engine();
    seed_session_and_run(&mut engine, "s-settle", "r-settle");
    engine
        .append_messages(AppendRequest {
            operation_id: text("operation-user"),
            session_id: text("s-settle"),
            run_id: text("r-settle"),
            messages: records(vec![user_message("user-r-settle", "hello")]),
            message_step: None,
            created_at_ms: 2_000,
        })
        .expect("append user fixture");
    mark_running(&mut engine, "r-settle", 2_000);
    engine
        .stage_append_for(
            AppendRequest {
                operation_id: text("operation-settle"),
                session_id: text("s-settle"),
                run_id: text("r-settle"),
                messages: records(vec![assistant_message("assistant-r-settle", "done")]),
                message_step: None,
                created_at_ms: 3_000,
            },
            AppendPurpose::RunSettlement(RunSettlementEffect {
                status: RunStatus::Completed,
                cancel_requested: false,
                error: None,
                goal_effect: None,
                proxy_report: None,
            }),
        )
        .expect("stage run settlement");

    let recovered = take_up(&mut engine, "s-settle").expect("recover staged settlement");
    assert_eq!(recovered.runs[0].status, RunStatus::Completed);
    assert_eq!(recovered.sessions[0].message_count, 2);
    assert_eq!(recovered.runs[0].message_ids.len(), 2);
    assert_eq!(conversation(&engine, "s-settle").len(), 2);
}

#[test]
fn conflicting_append_tail_isolated_to_its_session() {
    let mut engine = open_engine();
    seed_session_and_run(&mut engine, "s-broken", "r-broken");
    create_session(&mut engine, "s-healthy");
    engine
        .stage_append(append_request("operation-broken", "s-broken", "r-broken"))
        .expect("stage append");
    let path = body_path(&engine, "s-broken", 1);
    write_body(&mut engine.files, &path, b"conflicting bytes".to_vec());

    let recovered = take_up_all(&mut engine);
    assert_eq!(recovered[0].sessions[0].session_id, "s-broken");
    assert!(recovered[0].conversation_unavailable);
    assert_eq!(recovered[1].sessions[0].session_id, "s-healthy");
    assert!(!recovered[1].conversation_unavailable);
    assert_eq!(
        try_load(&engine, "s-broken")
            .expect_err("broken body remains unavailable")
            .kind(),
        StoreErrorKind::InvalidData
    );
    assert!(conversation(&engine, "s-healthy").is_empty());
    assert_eq!(engine.staged_append_count(), 1);
}

#[test]
fn generation_switch_keeps_old_authority_until_sqlite_commit() {
    let mut engine = open_engine();
    seed_session_and_run(&mut engine, "s-rewrite", "r-rewrite");
    engine
        .append_messages(append_request("operation-original", "s-rewrite", "r-rewrite"))
        .expect("append original");
    let replacement = || vec![user_message("message-new", "replacement")];
    let plan = engine
        .begin_replacement(&text("s-rewrite"), records(replacement()), 2)
        .expect("write replacement generation");
    assert_eq!(conversation(&engine, "s-rewrite").len(), 2);

    engine.sessions[0].body_generation = plan.new_generation;
    engine.sessions[0].message_count = plan.message_count;
    assert_messages(&conversation(&engine, "s-rewrite"), &replacement());
}

#[test]
fn committed_generation_replaces_message_count_and_removes_old_body() {
    let mut engine = open_engine();
    seed_session_and_run(&mut engine, "s-commit", "r-commit");
    engine
        .append_messages(append_request("operation-old", "s-commit", "r-commit"))
        .expect("append original");
    let replacement = || vec![user_message("message-only", "replacement")];
    let plan = engine
        .begin_replacement(&text("s-commit"), records(replacement()), 2)
        .expect("begin replacement");
    let old_path = body_path(&engine, "s-commit", plan.previous_generation);
    engine.commit_replacement(&plan).expect("commit replacement");
    assert!(!has_body(&engine, &old_path));
    let recovered = take_up(&mut engine, "s-commit").expect("load runtime");
    assert_eq!(recovered.sessions[0].body_generation, plan.new_generation);
    assert_eq!(recovered.sessions[0].message_count, 1);
    assert_messages(&conversation(&engine, "s-commit"), &replacement());
}

#[test]
fn file_references_survive_queued_json_and_conversation_restart_round_trip() {
    let mut engine = open_engine();
    create_session(&mut engine, "s-file-references");
    let message = || {
        ConversationMessage::User(UserMessage {
            id: text("message-files"),
            origin: UserMessageOrigin::User,
            transcript_visibility: TranscriptVisibility::Visible,
            parts: vec![
                UserPart::Text(TextPart {
                    id: text("text-files"),
                    text: text("compare"),
                }),
                UserPart::FileReferences(FileReferencesPart {
                    id: text("references-files"),
                    files: vec![
                        FileReference {
                            original_name: text("first.pdf"),
                            readable_path: text("/stable/first.pdf"),
                        },
                        FileReference {
                            original_name: text("second.xlsx"),
                            readable_path: text("/stable/second.xlsx"),
                        },
                    ],
                }),
            ],
        })
    };
    engine
        .insert_input(&new_input(
            "s-file-references",
            "input-files",
            "run-files",
            message(),
            2_000,
        ))
        .expect("accept input");
    let queued = engine.inputs[0].queued_message.as_ref().expect("queued message");
    assert_eq!(*queued.message, message());
    engine
        .commit_user_message(UserMessageCommit {
            operation_id: text("commit-files"),
            input_id: text("input-files"),
            run_id: text("run-files"),
            session_id: text("s-file-references"),
            message: Some(record(message())),
            reasoning_effort: None,
            created_at_ms: 2_001,
        })
        .expect("commit user message");
    assert!(engine.inputs[0].queued_message.is_none());
    assert_messages(&conversation(&engine, "s-file-references"), &[message()]);
}

#[test]
fn startup_repairs_started_child_tool_exchange_inside_the_child_body_only() {
    let mut engine = open_engine();
    seed_session_and_run(&mut engine, "s-child-recovery", "r-child-recovery");
    create_child_task(
        &mut engine,
        "s-child-recovery",
        "r-child-recovery",
        "ct-child-recovery",
    );
    start_child_task(
        &mut engine,
        "s-child-recovery",
        "ct-child-recovery",
        "start-child-recovery",
        user_message("child-recovery-user", "inspect"),
    );
    engine
        .begin_child_tool_exchange(PendingChildToolExchange {
            receipt_id: text("child-recovery-receipt"),
            session_id: text("s-child-recovery"),
            child_task_id: text("ct-child-recovery"),
            assistant: record(tool_exchange().remove(0)),
            step: Some(1),
            created_at_ms: 2_200,
        })
        .expect("begin child exchange");
    engine
        .mark_child_tool_execution_started(ChildToolExecutionStart {
            receipt_id: text("child-recovery-receipt"),
            session_id: text("s-child-recovery"),
            child_task_id: text("ct-child-recovery"),
            call_id: text("call-1"),
            started_at_ms: 2_300,
        })
        .expect("mark child tool started");

    let recovered = take_up(&mut engine, "s-child-recovery").expect("repair child exchange");
    assert_eq!(recovered.child_tasks[0].message_count, 3);
    let child = engine
        .load_target_conversation(&child_target("s-child-recovery", "ct-child-recovery"))
        .expect("load repaired child conversation");
    assert_eq!(child.len(), 3);
    let ConversationMessage::Tool(result) = &*child[2] else {
        panic!("repaired child exchange must end with a tool result")
    };
    assert_eq!(
        result.result.content,
        ToolResultContent::Text(text("runtime restarted; tool execution outcome is unknown"))
    );
    assert!(conversation(&engine, "s-child-recovery").is_empty());
    assert_eq!(engine.child_pending_exchanges.len(), 0);
}

#[test]
fn interrupted_exchange_is_appended_once() {
    let mut engine = open_engine();
    seed_session_and_run(&mut engine, "s-once", "r-once");
    mark_running(&mut engine, "r-once", 1_500);
    engine
        .begin_tool_exchange(pending_tool_exchange("s-once", "r-once", "receipt-once"))
        .expect("begin exchange");
    take_up(&mut engine, "s-once").expect("first restart");
    let first = conversation(&engine, "s-once").len();
    assert_eq!(first, 2);
    assert!(engine.pending_exchanges.is_empty());
    assert!(engine.body_appends.is_empty());
    take_up(&mut engine, "s-once").expect("second restart");
    assert_eq!(conversation(&engine, "s-once").len(), first);
    assert_eq!(engine.run_message_refs.len(), 2);
}
