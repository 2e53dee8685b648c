//! Forking a session: a conversation, or a part of it, goes on in a session of its own.

use std::sync::Arc;
use vstd::prelude::*;

use crate::append_effect::ConversationStorageTarget;
use crate::conversation::{
    batch_records, conversation_of, encodable, encode_messages, framed, RecordedMessage,
};
use crate::engine::{
    bodies, is_path_component, is_session, path_component, session_body_path, write_body,
    StorageEngine,
};
use crate::error::{
    conflict, conflicting, invalid_input, malformed, outcome_of, refusal, Refusal, StorageResult,
    StoreError, StoreErrorKind,
};
use crate::message::{
    calls_are_paired, key_of, message_id, share, tool_exchanges_are_paired, ConversationMessage,
    Messages, ToolImageReference,
};
use crate::numbers::{to_i64, STORED_MAX};
use crate::path_rewrite::{all_mapped, batch_rewritten, rewrite_file_reference_paths, PathRewrite};
use crate::recall::heads_after_switch;
use crate::rows::{
    AgentVariant, ApprovalMode, ConversationOwner, SessionLifecycle, SessionResources, SessionRole,
    SessionRow, SessionTitleOrigin, SessionUsageRow, SkillActivationOwner, SkillCatalog,
    StoredAttachment, StoredGoal, StoredSkillActivation,
};
use crate::session_resources::{
    is_resources_of, new_environment_refusal, SessionExecutionEnvironment,
};
use crate::session_rewrite::records_message;
use crate::skill::{append_activations, check_activations, with_activations};
use crate::table::{
    all_rows_kept, any, check_each, copies, first, first_is_found, first_refusal, is_any,
    nothing_refused, position, some_row,
};
use crate::text::joined;
use crate::tool_exchange::messages_in;
use crate::usage::{empty_usage, is_usage_of, no_usage};
use crate::work_plan::{is_plan_of, StoredWorkPlan, WorkPlanItem};

verus! {

/// A session to be created.
#[derive(Debug)]
pub struct NewStoredSession {
    pub session_id: String,
    pub title: String,
    pub title_origin: SessionTitleOrigin,
    pub automatic_title_pending: bool,
    pub model_key: String,
    pub reasoning_effort: Option<String>,
    pub system_prompt: String,
    pub skill_catalog: SkillCatalog,
    pub environment: SessionExecutionEnvironment,
    pub current_variant: AgentVariant,
    pub approval_mode: ApprovalMode,
    pub role: SessionRole,
    pub materialization_key: Option<String>,
    pub created_at_ms: i64,
}

/// An attachment that a fork takes along, with the path that its content can be read from there.
#[derive(Debug)]
pub struct ForkAttachment {
    pub attachment_id: String,
    pub source_attachment_id: String,
    pub readable_path: String,
}

/// A request to fork a session.
#[derive(Debug)]
pub struct SessionFork {
    pub source_session_id: String,
    pub source_generation: u64,
    pub session: NewStoredSession,
    pub conversation: Vec<Arc<RecordedMessage>>,
    pub attachments: Vec<ForkAttachment>,
    /// The tool images that the new session needs copies of.
    pub tool_images: Vec<ToolImageReference>,
    pub skill_activations: Vec<StoredSkillActivation>,
    pub work_plan: Option<Arc<StoredWorkPlan>>,
    pub goal: Option<StoredGoal>,
}

/// What the caller found out about the directories and files that a fork needs.
#[derive(Clone, Copy, Debug)]
pub struct ForkResources {
    pub workspace_available: bool,
    pub tool_images_copied: bool,
}

/// A session that was forked.
#[derive(Debug)]
pub struct StoredSessionFork {
    pub session: SessionRow,
    pub conversation: Vec<Arc<RecordedMessage>>,
    pub attachments: Vec<StoredAttachment>,
    pub skill_activations: Vec<StoredSkillActivation>,
    pub work_plan: Option<Arc<StoredWorkPlan>>,
    pub goal: Option<StoredGoal>,
}

/// The condition of being the goal of a session.
pub open spec fn is_goal_of(session_id: Seq<char>) -> spec_fn(StoredGoal) -> bool {
    |row: StoredGoal| row.session_id@ == session_id
}

/// The condition of being an attachment of a session.
pub open spec fn is_attachment_of(session_id: Seq<char>, attachment_id: Seq<char>) -> spec_fn(
    StoredAttachment,
) -> bool {
    |row: StoredAttachment| row.session_id@ == session_id && row.attachment_id@ == attachment_id
}

/// The condition of having an attachment identifier.
pub open spec fn has_attachment_id(attachment_id: Seq<char>) -> spec_fn(StoredAttachment) -> bool {
    |row: StoredAttachment| row.attachment_id@ == attachment_id
}

/// A user's message with an identifier is among the messages.
pub open spec fn has_user_message(messages: Seq<Arc<RecordedMessage>>, id: Seq<char>) -> bool {
    exists|i: int|
        0 <= i < messages.len() && is_user_message(*(#[trigger] messages[i]).message, id)
}

/// A user's message with an identifier.
pub open spec fn is_user_message(message: ConversationMessage, id: Seq<char>) -> bool {
    match message {
        ConversationMessage::User(user) => user.id@ == id,
        _ => false,
    }
}

/// A goal that goes on from another one: the same objective as far as it has come, under an
/// identifier of its own, in a conversation that holds the message that set it.
pub open spec fn continues_from(fork: SessionFork, source: StoredGoal, goal: StoredGoal) -> bool {
    &&& goal.session_id@ == fork.session.session_id@
    &&& goal.goal_id@ != source.goal_id@
    &&& goal.objective.source_message_id@ == source.objective.source_message_id@
    &&& goal.objective.payload@ == source.objective.payload@
    &&& goal.objective.payload_hash@ == source.objective.payload_hash@
    &&& goal.turn == source.turn
    &&& goal.budget == source.budget
    &&& goal.consecutive_failures == source.consecutive_failures
    &&& has_user_message(fork.conversation@, goal.objective.source_message_id@)
}

/// Why the goal of a fork is refused.
pub open spec fn fork_goal_refusal(engine: StorageEngine, fork: SessionFork) -> Option<Refusal> {
    match fork.goal {
        None => None,
        Some(goal) => match first(engine.goals@, is_goal_of(fork.source_session_id@)) {
            None => Some(conflicting("fork source Goal does not exist"@)),
            Some(i) => if continues_from(fork, engine.goals@[i], goal) {
                None
            } else {
                Some(conflicting("fork Goal projection is invalid"@))
            },
        },
    }
}

/// An activation that a fork can take along: of the new session as a whole, by a message that the
/// fork takes along, from the catalog that the new session is offered.
pub open spec fn activation_fits(fork: SessionFork, activation: StoredSkillActivation) -> bool {
    &&& activation.session_id@ == fork.session.session_id@
    &&& match activation.owner {
        SkillActivationOwner::Session(session_id) => session_id@ == fork.session.session_id@,
        SkillActivationOwner::ChildTask(_) => false,
    }
    &&& activation.run_id is None
    &&& activation.input_id is None
    &&& records_message(fork.conversation@, activation.message_id@)
    &&& activation.catalog_revision@ == fork.session.skill_catalog.revision@
}

/// Every activation of a fork can be taken along, and none occurs twice.
pub open spec fn activations_fit(fork: SessionFork) -> bool {
    &&& forall|i: int|
        0 <= i < fork.skill_activations@.len() ==> activation_fits(
            fork,
            #[trigger] fork.skill_activations@[i],
        )
    &&& forall|i: int, j: int|
        0 <= i < j < fork.skill_activations@.len() ==> (
        #[trigger] fork.skill_activations@[i]).activation_id@ != (
        #[trigger] fork.skill_activations@[j]).activation_id@
}

/// Why an attachment cannot be taken along.
pub open spec fn attachment_refusal(
    engine: StorageEngine,
    source_session_id: Seq<char>,
    reference: ForkAttachment,
) -> Option<Refusal> {
    if !path_component(reference.attachment_id@) {
        Some(malformed("attachment id is not a file name"@))
    } else if first(
        engine.attachments@,
        is_attachment_of(source_session_id, reference.source_attachment_id@),
    ) is None {
        Some(conflicting("fork attachment does not belong to source session"@))
    } else {
        None
    }
}

/// The reasons that attachments cannot be taken along.
pub open spec fn attachment_refusals(engine: StorageEngine, source_session_id: Seq<char>) -> spec_fn(
    ForkAttachment,
) -> Option<Refusal> {
    |reference: ForkAttachment| attachment_refusal(engine, source_session_id, reference)
}

/// Why a session cannot be forked.
pub open spec fn fork_refusal(
    engine: StorageEngine,
    fork: SessionFork,
    resources: ForkResources,
) -> Option<Refusal> {
    let source = first(engine.sessions@, is_session(fork.source_session_id@));
    let environment = new_environment_refusal(
        engine,
        fork.session.session_id@,
        fork.session.environment,
        resources.workspace_available,
    );
    let attachments = first_refusal(
        fork.attachments@,
        attachment_refusals(engine, fork.source_session_id@),
    );
    if !path_component(fork.source_session_id@) || !path_component(fork.session.session_id@) {
        Some(malformed("session id is not a directory name"@))
    } else if !calls_are_paired(messages_in(fork.conversation@)) {
        Some(malformed("fork conversation splits a tool exchange"@))
    } else if source is None {
        Some(conflicting("fork source session does not exist"@))
    } else if engine.sessions@[source->0].body_generation != fork.source_generation {
        Some(conflicting("fork source generation changed"@))
    } else if !(engine.sessions@[source->0].role is Standard) || !(fork.session.role is Standard) {
        Some(conflicting("session role cannot be forked"@))
    } else if fork.work_plan is Some && fork.work_plan->0.session_id@ != fork.source_session_id@ {
        Some(conflicting("fork work plan belongs to a different session"@))
    } else if fork_goal_refusal(engine, fork) is Some {
        fork_goal_refusal(engine, fork)
    } else if !activations_fit(fork) {
        Some(conflicting("fork skill activation is invalid"@))
    } else if environment is Some {
        environment
    } else if attachments is Some {
        attachments
    } else if !resources.tool_images_copied {
        Some(
            refusal(
                StoreErrorKind::ResourceUnavailable,
                "fork tool image could not be copied"@,
            ),
        )
    } else {
        None
    }
}

/// The attachment that a reference takes along.
pub open spec fn source_attachment(
    engine: StorageEngine,
    source_session_id: Seq<char>,
    reference: ForkAttachment,
) -> StoredAttachment {
    engine.attachments@[first(
        engine.attachments@,
        is_attachment_of(source_session_id, reference.source_attachment_id@),
    )->0]
}

/// An attachment in the new session: the same content, under an identifier and a path of its own.
pub open spec fn forked_attachment(
    engine: StorageEngine,
    fork: SessionFork,
    reference: ForkAttachment,
) -> StoredAttachment {
    StoredAttachment {
        attachment_id: reference.attachment_id,
        session_id: fork.session.session_id,
        agent_readable_path: reference.readable_path,
        created_at_ms: fork.session.created_at_ms,
        ..source_attachment(engine, fork.source_session_id@, reference)
    }
}

/// The attachments in the new session.
pub open spec fn forked_attachments(engine: StorageEngine, fork: SessionFork) -> Seq<
    StoredAttachment,
> {
    fork.attachments@.map_values(
        |reference: ForkAttachment| forked_attachment(engine, fork, reference),
    )
}

/// Where the files of the conversation are read from in the new session.
pub open spec fn fork_rewrites(engine: StorageEngine, fork: SessionFork) -> Seq<PathRewrite> {
    fork.attachments@.map_values(
        |reference: ForkAttachment|
            PathRewrite {
                from: source_attachment(
                    engine,
                    fork.source_session_id@,
                    reference,
                ).agent_readable_path,
                to: reference.readable_path,
            },
    )
}

/// Attachments can be added: none has an identifier that is taken.
pub open spec fn attachments_are_new(
    rows: Seq<StoredAttachment>,
    added: Seq<StoredAttachment>,
) -> bool {
    &&& forall|i: int|
        0 <= i < added.len() ==> !some_row(
            rows,
            has_attachment_id((#[trigger] added[i]).attachment_id@),
        )
    &&& forall|i: int, j: int|
        0 <= i < j < added.len() ==> (#[trigger] added[i]).attachment_id@ != (
        #[trigger] added[j]).attachment_id@
}

/// The condition of being a goal that a forked one would collide with.
pub open spec fn collides_with(goal: StoredGoal) -> spec_fn(StoredGoal) -> bool {
    |row: StoredGoal| row.session_id@ == goal.session_id@ || row.goal_id@ == goal.goal_id@
}

/// Why a fork cannot be stored.
pub open spec fn storing_refusal(
    engine: StorageEngine,
    fork: SessionFork,
    batch: Seq<Arc<RecordedMessage>>,
) -> Option<Refusal> {
    let session_id = fork.session.session_id@;
    let conversation = conversation_of(engine.known@ + batch, framed(batch_records(batch)));
    let activations = with_activations(engine.skill_activations@, fork.skill_activations@);
    if !encodable(batch) {
        Some(malformed("conversation message could not be encoded"@))
    } else if conversation is Err {
        Some(conversation->Err_0)
    } else if batch.len() > STORED_MAX {
        Some(malformed("fork message count exceeds SQLite range"@))
    } else if some_row(engine.sessions@, is_session(session_id)) {
        Some(conflicting("fork session could not be created"@))
    } else if some_row(engine.session_resources@, is_resources_of(session_id)) {
        Some(conflicting("session resources could not be created"@))
    } else if some_row(engine.session_usage@, is_usage_of(session_id)) {
        Some(conflicting("fork session usage could not be initialized"@))
    } else if fork.work_plan is Some && some_row(engine.work_plans@, is_plan_of(session_id)) {
        Some(conflicting("fork work plan could not be created"@))
    } else if fork.goal is Some && some_row(engine.goals@, collides_with(fork.goal->0)) {
        Some(conflicting("fork Goal could not be created"@))
    } else if activations is Err {
        Some(activations->Err_0)
    } else if !attachments_are_new(engine.attachments@, forked_attachments(engine, fork)) {
        Some(conflicting("fork attachment reference could not be created"@))
    } else {
        None
    }
}

/// A session that is new, with a conversation of so many messages.
pub open spec fn new_session_row(session: NewStoredSession, message_count: u64) -> SessionRow {
    SessionRow {
        session_id: session.session_id,
        title: session.title,
        title_origin: session.title_origin,
        automatic_title_pending: session.automatic_title_pending,
        model_key: session.model_key,
        reasoning_effort: session.reasoning_effort,
        system_prompt: session.system_prompt,
        skill_catalog: session.skill_catalog,
        current_variant: session.current_variant,
        approval_mode: session.approval_mode,
        role: session.role,
        lifecycle: SessionLifecycle::Active,
        body_generation: 1,
        message_count,
        created_at_ms: session.created_at_ms,
        updated_at_ms: session.created_at_ms,
        archived_at_ms: None,
        is_pinned: false,
        materialization_key: session.materialization_key,
        proxy: None,
        pc_output_device_id: None,
    }
}

/// The directories of a session that is new.
pub open spec fn new_resources(session: NewStoredSession) -> SessionResources {
    SessionResources {
        session_id: session.session_id,
        workspace_id: session.environment.workspace_id,
        working_directory: session.environment.working_directory,
        attachment_directory: session.environment.session_attachment_directory,
        private_directory: session.environment.session_private_directory,
        created_at_ms: session.created_at_ms,
    }
}

/// A work plan that goes on in the new session from its first revision.
pub open spec fn is_forked_plan(
    fork: SessionFork,
    source: StoredWorkPlan,
    plan: StoredWorkPlan,
) -> bool {
    &&& plan.session_id == fork.session.session_id
    &&& plan.revision == 1
    &&& plan.objective == source.objective
    &&& plan.items@ == source.items@
    &&& plan.last_operation_id@ == "fork:"@ + fork.source_session_id@
    &&& plan.updated_at_ms == fork.session.created_at_ms
}

/// The engine with a forked session. Nothing of the source session changes.
pub open spec fn forked(
    before: StorageEngine,
    after: StorageEngine,
    fork: SessionFork,
    batch: Seq<Arc<RecordedMessage>>,
    plan: Option<Arc<StoredWorkPlan>>,
) -> bool {
    &&& after == (StorageEngine {
        known: after.known,
        files: after.files,
        sessions: after.sessions,
        session_resources: after.session_resources,
        session_usage: after.session_usage,
        work_plans: after.work_plans,
        goals: after.goals,
        skill_activations: after.skill_activations,
        attachments: after.attachments,
        recall_heads: after.recall_heads,
        ..before
    })
    &&& after.known@ == before.known@ + batch
    &&& after.recall_heads@ == heads_after_switch(
        before.recall_heads@,
        ConversationOwner::MainSession { session_id: fork.session.session_id },
        1,
    )
    &&& bodies(after.files@) == bodies(before.files@).insert(
        session_body_path(before.sessions_directory@, fork.session.session_id@, 1),
        framed(batch_records(batch)),
    )
    &&& after.sessions@ == before.sessions@.push(
        new_session_row(fork.session, batch.len() as u64),
    )
    &&& after.session_resources@ == before.session_resources@.push(new_resources(fork.session))
    &&& after.session_usage@ == before.session_usage@.push(
        SessionUsageRow {
            session_id: fork.session.session_id,
            usage: no_usage(),
            backfilled: true,
            updated_at_ms: fork.session.created_at_ms,
        },
    )
    &&& match (fork.work_plan, plan) {
        (Some(source), Some(plan)) => is_forked_plan(fork, *source, *plan) && after.work_plans@
            == before.work_plans@.push(plan),
        (None, None) => after.work_plans@ == before.work_plans@,
        _ => false,
    }
    &&& after.goals@ == match fork.goal {
        Some(goal) => before.goals@.push(goal),
        None => before.goals@,
    }
    &&& after.skill_activations@ == before.skill_activations@ + fork.skill_activations@
    &&& after.attachments@ == before.attachments@ + forked_attachments(before, fork)
}

/// The engine after an attempt to store a fork with its conversation as it reads there.
pub open spec fn fork_stored(
    before: StorageEngine,
    after: StorageEngine,
    fork: SessionFork,
    batch: Seq<Arc<RecordedMessage>>,
    outcome: Result<StoredSessionFork, Refusal>,
) -> bool {
    match storing_refusal(before, fork, batch) {
        Some(error) => after == before && outcome == Err::<StoredSessionFork, _>(error),
        None => {
            &&& outcome is Ok
            &&& forked(before, after, fork, batch, outcome->Ok_0.work_plan)
            &&& outcome->Ok_0.session == new_session_row(fork.session, batch.len() as u64)
            &&& outcome->Ok_0.conversation@ == batch
            &&& outcome->Ok_0.attachments@ == forked_attachments(before, fork)
            &&& outcome->Ok_0.skill_activations@ == fork.skill_activations@
            &&& outcome->Ok_0.goal == fork.goal
        },
    }
}

/// The engine after a request to fork a session.
pub open spec fn fork_attempted<E: Fn(&ConversationMessage) -> Vec<u8>>(
    before: StorageEngine,
    after: StorageEngine,
    fork: SessionFork,
    resources: ForkResources,
    encode: E,
    outcome: Result<StoredSessionFork, Refusal>,
) -> bool {
    if fork_refusal(before, fork, resources) is Some {
        after == before && outcome == Err::<StoredSessionFork, _>(
            fork_refusal(before, fork, resources)->0,
        )
    } else if !all_mapped(fork_rewrites(before, fork), fork.conversation@) {
        after == before && outcome == Err::<StoredSessionFork, _>(
            conflicting("fork conversation references an unmapped attachment"@),
        )
    } else {
        exists|batch: Seq<Arc<RecordedMessage>>| #[trigger]
            batch_rewritten(
                fork_rewrites(before, fork),
                fork.conversation@,
                batch,
                encode,
            ) && fork_stored(before, after, fork, batch, outcome)
    }
}

fn messages_of_batch(batch: &Vec<Arc<RecordedMessage>>) -> (messages: Messages)
    ensures
        messages@ == messages_in(batch@),
{
    let mut messages: Messages = Vec::new();
    let mut i: usize = 0;
    while i < batch.len()
        invariant
            i <= batch@.len(),
            messages@ =~= messages_in(batch@).take(i as int),
        decreases batch@.len() - i,
    {
        messages.push(share(&batch[i].message));
        i += 1;
    }
    proof {
        assert(messages_in(batch@).take(batch@.len() as int) =~= messages_in(batch@));
    }
    messages
}

fn holds_user_message(batch: &Vec<Arc<RecordedMessage>>, id: &String) -> (result: bool)
    ensures
        result == has_user_message(batch@, id@),
{
    let mut i: usize = 0;
    while i < batch.len()
        invariant
            i <= batch@.len(),
            forall|k: int|
                0 <= k < i ==> !is_user_message(*(#[trigger] batch@[k]).message, id@),
        decreases batch@.len() - i,
    {
        match &*batch[i].message {
            ConversationMessage::User(user) => {
                if user.id == *id {
                    assert(is_user_message(*batch@[i as int].message, id@));
                    return true;
                }
            },
            _ => {},
        }
        i += 1;
    }
    false
}

fn check_goal_projection(fork: &SessionFork, source: &StoredGoal, goal: &StoredGoal) -> (result:
    bool)
    ensures
        result == continues_from(*fork, *source, *goal),
{
    goal.session_id == fork.session.session_id && goal.goal_id != source.goal_id
        && goal.objective.source_message_id == source.objective.source_message_id
        && goal.objective.payload == source.objective.payload && goal.objective.payload_hash
        == source.objective.payload_hash && goal.turn == source.turn && goal.budget
        == source.budget && goal.consecutive_failures == source.consecutive_failures
        && holds_user_message(&fork.conversation, &goal.objective.source_message_id)
}

fn holds_record(batch: &Vec<Arc<RecordedMessage>>, id: &String) -> (result: bool)
    ensures
        result == records_message(batch@, id@),
{
    let mut i: usize = 0;
    while i < batch.len()
        invariant
            i <= batch@.len(),
            forall|k: int| 0 <= k < i ==> key_of(*(#[trigger] batch@[k]).message)@ != id@,
        decreases batch@.len() - i,
    {
        if *message_id(&batch[i].message) == *id {
            return true;
        }
        i += 1;
    }
    false
}

fn check_activation(fork: &SessionFork, activation: &StoredSkillActivation) -> (result: bool)
    ensures
        result == activation_fits(*fork, *activation),
{
    let owned = match &activation.owner {
        SkillActivationOwner::Session(session_id) => *session_id == fork.session.session_id,
        SkillActivationOwner::ChildTask(_) => false,
    };
    activation.session_id == fork.session.session_id && owned && activation.run_id.is_none()
        && activation.input_id.is_none() && holds_record(
        &fork.conversation,
        &activation.message_id,
    ) && activation.catalog_revision == fork.session.skill_catalog.revision
}

fn check_fork_activations(fork: &SessionFork) -> (result: bool)
    ensures
        result == activations_fit(*fork),
{
    let activations = &fork.skill_activations;
    let mut i: usize = 0;
    while i < activations.len()
        invariant
            i <= activations@.len(),
            activations@ == fork.skill_activations@,
            forall|k: int| 0 <= k < i ==> activation_fits(*fork, #[trigger] activations@[k]),
            forall|a: int, b: int|
                0 <= a < b < i ==> (#[trigger] activations@[a]).activation_id@ != (
                #[trigger] activations@[b]).activation_id@,
        decreases activations@.len() - i,
    {
        let mut j: usize = 0;
        while j < i
            invariant
                j <= i < activations@.len(),
                activations@ == fork.skill_activations@,
                forall|k: int|
                    0 <= k < j ==> (#[trigger] activations@[k]).activation_id@
                        != activations@[i as int].activation_id@,
            decreases i - j,
        {
            if activations[j].activation_id == activations[i].activation_id {
                assert(!activations_fit(*fork)) by {
                    assert(fork.skill_activations@[j as int].activation_id@
                        == fork.skill_activations@[i as int].activation_id@);
                }
                return false;
            }
            j += 1;
        }
        if !check_activation(fork, &activations[i]) {
            assert(!activation_fits(*fork, fork.skill_activations@[i as int]));
            return false;
        }
        i += 1;
    }
    true
}

fn copied_items(items: &Vec<WorkPlanItem>) -> (copy: Vec<WorkPlanItem>)
    ensures
        copy@ == items@,
{
    let mut copy: Vec<WorkPlanItem> = Vec::new();
    let mut i: usize = 0;
    while i < items.len()
        invariant
            i <= items@.len(),
            copy@ =~= items@.take(i as int),
        decreases items@.len() - i,
    {
        copy.push(
            WorkPlanItem {
                id: items[i].id.clone(),
                text: items[i].text.clone(),
                status: items[i].status,
            },
        );
        i += 1;
    }
    proof {
        assert(items@.take(items@.len() as int) =~= items@);
    }
    copy
}

impl StorageEngine {
    fn attachment_place(&self, session_id: &String, attachment_id: &String) -> (place: Option<
        usize,
    >)
        ensures
            match place {
                Some(i) => i < self.attachments@.len() && first(
                    self.attachments@,
                    is_attachment_of(session_id@, attachment_id@),
                ) == Some(i as int),
                None => first(
                    self.attachments@,
                    is_attachment_of(session_id@, attachment_id@),
                ) is None,
            },
    {
        position(
            &self.attachments,
            Ghost(is_attachment_of(session_id@, attachment_id@)),
            |row: &StoredAttachment| -> (found: bool)
                ensures
                    found == (row.session_id@ == session_id@ && row.attachment_id@
                        == attachment_id@)
                { row.session_id == *session_id && row.attachment_id == *attachment_id },
        )
    }

    fn check_fork(&self, fork: &SessionFork, resources: ForkResources) -> (result: StorageResult<()>)
        ensures
            match fork_refusal(*self, *fork, resources) {
                Some(error) => result is Err && result->Err_0@ == error,
                None => result is Ok,
            },
    {
        match self.session_directory(&fork.source_session_id) {
            Ok(_) => {},
            Err(error) => {
                return Err(error);
            },
        }
        match self.session_directory(&fork.session.session_id) {
            Ok(_) => {},
            Err(error) => {
                return Err(error);
            },
        }
        if !tool_exchanges_are_paired(&messages_of_batch(&fork.conversation)) {
            return Err(invalid_input("fork conversation splits a tool exchange"));
        }
        let source: usize = match self.session_place(&fork.source_session_id) {
            Some(place) => place,
            None => {
                return Err(conflict("fork source session does not exist"));
            },
        };
        if self.sessions[source].body_generation != fork.source_generation {
            return Err(conflict("fork source generation changed"));
        }
        if !matches!(self.sessions[source].role, SessionRole::Standard) || !matches!(
            fork.session.role,
            SessionRole::Standard
        ) {
            return Err(conflict("session role cannot be forked"));
        }
        match &fork.work_plan {
            Some(plan) => {
                if plan.session_id != fork.source_session_id {
                    return Err(conflict("fork work plan belongs to a different session"));
                }
            },
            None => {},
        }
        match self.check_fork_goal(fork) {
            Ok(_) => {},
            Err(error) => {
                return Err(error);
            },
        }
        if !check_fork_activations(fork) {
            return Err(conflict("fork skill activation is invalid"));
        }
        match self.validate_new_session_environment(
            &fork.session.session_id,
            &fork.session.environment,
            resources.workspace_available,
        ) {
            Ok(_) => {},
            Err(error) => {
                return Err(error);
            },
        }
        let source_id = &fork.source_session_id;
        match check_each(
            &fork.attachments,
            Ghost(attachment_refusals(*self, source_id@)),
            |reference: &ForkAttachment| -> (result: StorageResult<()>)
                ensures
                    match attachment_refusal(*self, source_id@, *reference) {
                        Some(error) => result is Err && result->Err_0@ == error,
                        None => result is Ok,
                    }
                { self.check_attachment(source_id, reference) },
        ) {
            Ok(_) => {},
            Err(error) => {
                return Err(error);
            },
        }
        if !resources.tool_images_copied {
            return Err(
                StoreError::new(
                    StoreErrorKind::ResourceUnavailable,
                    "fork tool image could not be copied",
                ),
            );
        }
        Ok(())
    }

    fn check_fork_goal(&self, fork: &SessionFork) -> (result: StorageResult<()>)
        ensures
            match fork_goal_refusal(*self, *fork) {
                Some(error) => result is Err && result->Err_0@ == error,
                None => result is Ok,
            },
    {
        let goal = match &fork.goal {
            Some(goal) => goal,
            None => {
                return Ok(());
            },
        };
        let source_id = &fork.source_session_id;
        match position(
            &self.goals,
            Ghost(is_goal_of(source_id@)),
            |row: &StoredGoal| -> (found: bool)
                ensures
                    found == (row.session_id@ == source_id@)
                { row.session_id == *source_id },
        ) {
            None => Err(conflict("fork source Goal does not exist")),
            Some(place) => if check_goal_projection(fork, &self.goals[place], goal) {
                Ok(())
            } else {
                Err(conflict("fork Goal projection is invalid"))
            },
        }
    }

    fn check_attachment(&self, source_session_id: &String, reference: &ForkAttachment) -> (result:
        StorageResult<()>)
        ensures
            match attachment_refusal(*self, source_session_id@, *reference) {
                Some(error) => result is Err && result->Err_0@ == error,
                None => result is Ok,
            },
    {
        if !is_path_component(reference.attachment_id.as_str()) {
            return Err(invalid_input("attachment id is not a file name"));
        }
        if self.attachment_place(source_session_id, &reference.source_attachment_id).is_none() {
            return Err(conflict("fork attachment does not belong to source session"));
        }
        Ok(())
    }

    fn attachments_for_fork(&self, fork: &SessionFork) -> (result: (
        Vec<StoredAttachment>,
        Vec<PathRewrite>,
    ))
        requires
            first_refusal(
                fork.attachments@,
                attachment_refusals(*self, fork.source_session_id@),
            ) is None,
        ensures
            result.0@ == forked_attachments(*self, *fork),
            result.1@ == fork_rewrites(*self, *fork),
    {
        proof {
            nothing_refused(
                fork.attachments@,
                attachment_refusals(*self, fork.source_session_id@),
            );
        }
        let mut attachments: Vec<StoredAttachment> = Vec::new();
        let mut rewrites: Vec<PathRewrite> = Vec::new();
        let mut i: usize = 0;
        while i < fork.attachments.len()
            invariant
                i <= fork.attachments@.len(),
                forall|k: int|
                    0 <= k < fork.attachments@.len() ==> attachment_refusals(
                        *self,
                        fork.source_session_id@,
                    )(#[trigger] fork.attachments@[k]) is None,
                attachments@ =~= forked_attachments(*self, *fork).take(i as int),
                rewrites@ =~= fork_rewrites(*self, *fork).take(i as int),
            decreases fork.attachments@.len() - i,
        {
            let reference = &fork.attachments[i];
            assert(attachment_refusals(*self, fork.source_session_id@)(
                fork.attachments@[i as int],
            ) is None);
            match self.attachment_place(&fork.source_session_id, &reference.source_attachment_id) {
                Some(place) => {
                    let source = &self.attachments[place];
                    attachments.push(
                        StoredAttachment {
                            attachment_id: reference.attachment_id.clone(),
                            session_id: fork.session.session_id.clone(),
                            original_name: source.original_name.clone(),
                            blob_hash: source.blob_hash.clone(),
                            size_bytes: source.size_bytes,
                            media_type: source.media_type.clone(),
                            agent_readable_path: reference.readable_path.clone(),
                            state: source.state,
                            created_at_ms: fork.session.created_at_ms,
                        },
                    );
                    rewrites.push(
                        PathRewrite {
                            from: source.agent_readable_path.clone(),
                            to: reference.readable_path.clone(),
                        },
                    );
                },
                None => {},
            }
            i += 1;
        }
        proof {
            let all = forked_attachments(*self, *fork);
            assert(all.take(all.len() as int) =~= all);
            let paths = fork_rewrites(*self, *fork);
            assert(paths.take(paths.len() as int) =~= paths);
        }
        (attachments, rewrites)
    }

    fn are_new_attachments(&self, added: &Vec<StoredAttachment>) -> (result: bool)
        ensures
            result == attachments_are_new(self.attachments@, added@),
    {
        let mut i: usize = 0;
        while i < added.len()
            invariant
                i <= added@.len(),
                forall|k: int|
                    0 <= k < i ==> !some_row(
                        self.attachments@,
                        has_attachment_id((#[trigger] added@[k]).attachment_id@),
                    ),
                forall|a: int, b: int|
                    0 <= a < b < i ==> (#[trigger] added@[a]).attachment_id@ != (
                    #[trigger] added@[b]).attachment_id@,
            decreases added@.len() - i,
        {
            let id = &added[i].attachment_id;
            if any(
                &self.attachments,
                Ghost(has_attachment_id(id@)),
                |row: &StoredAttachment| -> (same: bool)
                    ensures
                        same == (row.attachment_id@ == id@)
                    { row.attachment_id == *id },
            ) {
                assert(some_row(
                    self.attachments@,
                    has_attachment_id(added@[i as int].attachment_id@),
                ));
                return false;
            }
            let mut j: usize = 0;
            while j < i
                invariant
                    j <= i < added@.len(),
                    id@ == added@[i as int].attachment_id@,
                    forall|k: int|
                        0 <= k < j ==> (#[trigger] added@[k]).attachment_id@ != id@,
                decreases i - j,
            {
                if added[j].attachment_id == *id {
                    assert(added@[j as int].attachment_id@ == added@[i as int].attachment_id@);
                    return false;
                }
                j += 1;
            }
            i += 1;
        }
        true
    }

    fn check_storing(
        &self,
        fork: &SessionFork,
        batch: &Vec<Arc<RecordedMessage>>,
        attachments: &Vec<StoredAttachment>,
    ) -> (result: StorageResult<Vec<u8>>)
        requires
            attachments@ == forked_attachments(*self, *fork),
        ensures
            match storing_refusal(*self, *fork, batch@) {
                Some(error) => result is Err && result->Err_0@ == error,
                None => result is Ok && result->Ok_0@ == framed(batch_records(batch@)),
            },
    {
        let payload = match encode_messages(batch) {
            Ok(payload) => payload,
            Err(error) => {
                return Err(error);
            },
        };
        match self.decode_with(batch, &payload) {
            Ok(_) => {},
            Err(error) => {
                return Err(error);
            },
        }
        match to_i64(batch.len() as u64, "fork message count exceeds SQLite range") {
            Ok(_) => {},
            Err(error) => {
                return Err(error);
            },
        }
        let session_id = &fork.session.session_id;
        proof {
            first_is_found(self.sessions@, is_session(session_id@));
        }
        if self.session_place(session_id).is_some() {
            return Err(conflict("fork session could not be created"));
        }
        if any(
            &self.session_resources,
            Ghost(is_resources_of(session_id@)),
            |row: &SessionResources| -> (same: bool)
                ensures
                    same == (row.session_id@ == session_id@)
                { row.session_id == *session_id },
        ) {
            return Err(conflict("session resources could not be created"));
        }
        if any(
            &self.session_usage,
            Ghost(is_usage_of(session_id@)),
            |row: &SessionUsageRow| -> (same: bool)
                ensures
                    same == (row.session_id@ == session_id@)
                { row.session_id == *session_id },
        ) {
            return Err(conflict("fork session usage could not be initialized"));
        }
        if fork.work_plan.is_some() && any(
            &self.work_plans,
            Ghost(is_plan_of(session_id@)),
            |row: &Arc<StoredWorkPlan>| -> (same: bool)
                ensures
                    same == (row.session_id@ == session_id@)
                { row.session_id == *session_id },
        ) {
            return Err(conflict("fork work plan could not be created"));
        }
        match &fork.goal {
            Some(goal) => {
                if any(
                    &self.goals,
                    Ghost(collides_with(*goal)),
                    |row: &StoredGoal| -> (same: bool)
                        ensures
                            same == (row.session_id@ == goal.session_id@ || row.goal_id@
                                == goal.goal_id@)
                        { row.session_id == goal.session_id || row.goal_id == goal.goal_id },
                ) {
                    return Err(conflict("fork Goal could not be created"));
                }
            },
            None => {},
        }
        match check_activations(&self.skill_activations, &fork.skill_activations) {
            Ok(_) => {},
            Err(error) => {
                return Err(error);
            },
        }
        if !self.are_new_attachments(attachments) {
            return Err(conflict("fork attachment reference could not be created"));
        }
        Ok(payload)
    }

    /// Records the directories of a session that is new.
    pub fn insert_session_resources(&mut self, session: &NewStoredSession) -> (result:
        StorageResult<()>)
        ensures
            if some_row(old(self).session_resources@, is_resources_of(session.session_id@)) {
                &&& result is Err && result->Err_0@ == conflicting(
                    "session resources could not be created"@,
                )
                &&& *final(self) == *old(self)
            } else {
                &&& result is Ok
                &&& *final(self) == (StorageEngine {
                    session_resources: final(self).session_resources,
                    ..*old(self)
                })
                &&& final(self).session_resources@ == old(self).session_resources@.push(
                    new_resources(*session),
                )
            },
    {
        if any(
            &self.session_resources,
            Ghost(is_resources_of(session.session_id@)),
            |row: &SessionResources| -> (found: bool)
                ensures
                    found == (row.session_id@ == session.session_id@)
                { row.session_id == session.session_id },
        ) {
            return Err(conflict("session resources could not be created"));
        }
        self.session_resources.push(
            SessionResources {
                session_id: session.session_id.clone(),
                workspace_id: session.environment.workspace_id.clone(),
                working_directory: session.environment.working_directory.clone(),
                attachment_directory: session.environment.session_attachment_directory.clone(),
                private_directory: session.environment.session_private_directory.clone(),
                created_at_ms: session.created_at_ms,
            },
        );
        Ok(())
    }

    fn store_fork(
        &mut self,
        fork: &SessionFork,
        batch: &Vec<Arc<RecordedMessage>>,
        attachments: &Vec<StoredAttachment>,
        payload: Vec<u8>,
    ) -> (plan: Option<Arc<StoredWorkPlan>>)
        requires
            path_component(fork.session.session_id@),
            !some_row(old(self).session_resources@, is_resources_of(fork.session.session_id@)),
            attachments@ == forked_attachments(*old(self), *fork),
            payload@ == framed(batch_records(batch@)),
            batch@.len() <= STORED_MAX,
        ensures
            forked(*old(self), *final(self), *fork, batch@, plan),
    {
        let ghost before = *self;
        let target = ConversationStorageTarget::Session {
            session_id: fork.session.session_id.clone(),
            run_id: fork.session.session_id.clone(),
        };
        match self.target_body_path(&target, 1) {
            Ok(path) => write_body(&mut self.files, &path, payload),
            Err(_) => {},
        }
        let mut i: usize = 0;
        while i < batch.len()
            invariant
                i <= batch@.len(),
                *self == (StorageEngine { files: self.files, known: self.known, ..before }),
                bodies(self.files@) == bodies(before.files@).insert(
                    session_body_path(before.sessions_directory@, fork.session.session_id@, 1),
                    framed(batch_records(batch@)),
                ),
                self.known@ =~= before.known@ + batch@.take(i as int),
            decreases batch@.len() - i,
        {
            self.known.push(share(&batch[i]));
            i += 1;
        }
        proof {
            assert(batch@.take(batch@.len() as int) =~= batch@);
        }
        self.sessions.push(row_of_session(&fork.session, batch.len() as u64));
        let _ = self.insert_session_resources(&fork.session);
        self.session_usage.push(
            SessionUsageRow {
                session_id: fork.session.session_id.clone(),
                usage: empty_usage(),
                backfilled: true,
                updated_at_ms: fork.session.created_at_ms,
            },
        );
        let plan = match &fork.work_plan {
            Some(source) => {
                let plan = Arc::new(
                    StoredWorkPlan {
                        session_id: fork.session.session_id.clone(),
                        revision: 1,
                        objective: source.objective.clone(),
                        items: copied_items(&source.items),
                        last_operation_id: joined("fork:", fork.source_session_id.as_str()),
                        updated_at_ms: fork.session.created_at_ms,
                    },
                );
                self.work_plans.push(share(&plan));
                Some(plan)
            },
            None => None,
        };
        match &fork.goal {
            Some(goal) => self.goals.push(goal.copy()),
            None => {},
        }
        append_activations(&mut self.skill_activations, &fork.skill_activations);
        let owner = ConversationOwner::MainSession { session_id: fork.session.session_id.clone() };
        self.mark_recall_owner_dirty(&owner, 1);
        let mut k: usize = 0;
        let ghost stored = *self;
        while k < attachments.len()
            invariant
                k <= attachments@.len(),
                stored.attachments@ == before.attachments@,
                *self == (StorageEngine { attachments: self.attachments, ..stored }),
                self.attachments@ =~= before.attachments@ + attachments@.take(k as int),
            decreases attachments@.len() - k,
        {
            self.attachments.push(attachments[k].copy());
            k += 1;
        }
        proof {
            assert(attachments@.take(attachments@.len() as int) =~= attachments@);
        }
        plan
    }

    /// Lets a conversation, or a part of it, go on in a session of its own.
    pub fn fork_session<E: Fn(&ConversationMessage) -> Vec<u8>>(
        &mut self,
        fork: &SessionFork,
        resources: ForkResources,
        encode: &E,
    ) -> (result: StorageResult<StoredSessionFork>)
        requires
            forall|message: &ConversationMessage| encode.requires((message,)),
        ensures
            fork_attempted(
                *old(self),
                *final(self),
                *fork,
                resources,
                *encode,
                outcome_of(result),
            ),
    {
        match self.check_fork(fork, resources) {
            Ok(_) => {},
            Err(error) => {
                return Err(error);
            },
        }
        let (attachments, rewrites) = self.attachments_for_fork(fork);
        let batch = match rewrite_file_reference_paths(&fork.conversation, &rewrites, encode) {
            Ok(batch) => batch,
            Err(error) => {
                return Err(error);
            },
        };
        proof {
            assert(batch_rewritten(
                fork_rewrites(*self, *fork),
                fork.conversation@,
                batch@,
                *encode,
            ));
        }
        let payload = match self.check_storing(fork, &batch, &attachments) {
            Ok(payload) => payload,
            Err(error) => {
                return Err(error);
            },
        };
        let plan = self.store_fork(fork, &batch, &attachments, payload);
        let session = row_of_session(&fork.session, batch.len() as u64);
        let skill_activations = copies(
            &fork.skill_activations,
            Ghost(is_any()),
            |row: &StoredSkillActivation| -> (found: bool)
                ensures
                    found
                { true },
            |row: &StoredSkillActivation| -> (same: StoredSkillActivation)
                ensures
                    same == *row
                { row.copy() },
        );
        proof {
            all_rows_kept(fork.skill_activations@, is_any());
        }
        let goal = match &fork.goal {
            Some(goal) => Some(goal.copy()),
            None => None,
        };
        let stored = StoredSessionFork {
            session,
            conversation: batch,
            attachments,
            skill_activations,
            work_plan: plan,
            goal,
        };
        proof {
            assert(fork_stored(*old(self), *self, *fork, batch@, Ok(stored)));
        }
        Ok(stored)
    }
}

fn row_of_session(session: &NewStoredSession, message_count: u64) -> (row: SessionRow)
    ensures
        row == new_session_row(*session, message_count),
{
    SessionRow {
        session_id: session.session_id.clone(),
        title: session.title.clone(),
        title_origin: session.title_origin,
        automatic_title_pending: session.automatic_title_pending,
        model_key: session.model_key.clone(),
        reasoning_effort: session.reasoning_effort.clone(),
        system_prompt: session.system_prompt.clone(),
        skill_catalog: session.skill_catalog.copy(),
        current_variant: session.current_variant,
        approval_mode: session.approval_mode,
        role: session.role,
        lifecycle: SessionLifecycle::Active,
        body_generation: 1,
        message_count,
        created_at_ms: session.created_at_ms,
        updated_at_ms: session.created_at_ms,
        archived_at_ms: None,
        is_pinned: false,
        materialization_key: session.materialization_key.clone(),
        proxy: None,
        pc_output_device_id: None,
    }
}

} // verus!
