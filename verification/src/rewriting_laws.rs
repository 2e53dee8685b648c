//! What a conversation that was taken back to one of its messages leaves.

use vstd::prelude::*;


use std::sync::Arc;

use crate::append_effect::{is_goal, top_order};
use crate::append_laws::generations_do_not_share_bodies;
use crate::cascade::inputs_removed;
use crate::conversation::{batch_records, framed, RecordedMessage};
use crate::engine::{
    bodies, generation_of, is_session, lies_in_a_task, session_body_path, task_directory,
    task_paths, StorageEngine,
};
use crate::error::Refusal;
use crate::keys::{input_name, unique};
use crate::message::{key_of, ConversationMessage};
use crate::recovery::{
    free_generation, main_target, planned, replacement_refusal, replacement_written,
};
use crate::relations::{
    filtered_rows, found_leads, kept_is_filtered, session_stands_where_found, stands_at,
};
use crate::removal_laws::{
    gone_tasks_are_listed, input_goes, inputs_go_with_what_is_theirs, removal_is_by_what_goes,
    run_goes, selections_are_removed, task_goes, work_is_removed,
};
use crate::rows::{
    InputKind, InputOrigin, InputState, NewStoredInput, RunMessageRef, RunRow, SessionRow,
    StoredGoal, StoredInput, StoredSkillActivation,
};
use crate::session_rewrite::{
    is_borne_out, is_source_of, is_taken_back, records_message, rewrite_attempted,
    rewrite_committed, sessions_have_no_body_in_a_task, taken_back, target_order, tasks_of, went_on,
    ConversationRewrite, RewriteResult,
};
use crate::table::first;
use crate::text::{decimal, has_prefix, lists};

verus! {

/// The identifier of a message.
pub open spec fn id_of_message(message: ConversationMessage) -> Seq<char> {
    match message {
        ConversationMessage::User(message) => message.id@,
        ConversationMessage::Assistant(message) => message.id@,
        ConversationMessage::Tool(message) => message.id@,
        ConversationMessage::ContextSummary(message) => message.id@,
    }
}

/// The input that a message of a session came from: the first committed one that names it.
pub open spec fn brought(
    inputs: Seq<StoredInput>,
    k: int,
    session_id: Seq<char>,
    message_id: Seq<char>,
) -> bool {
    &&& 0 <= k < inputs.len()
    &&& inputs[k].session_id@ == session_id
    &&& inputs[k].user_message_id@ == message_id
    &&& inputs[k].state is Committed
    &&& forall|j: int|
        0 <= j < k ==> !((#[trigger] inputs[j]).session_id@ == session_id
            && inputs[j].user_message_id@ == message_id && inputs[j].state is Committed)
}

/// The condition of being an input of a session at or behind a place in the queue.
pub open spec fn stands_behind(session_id: Seq<char>, order: i64) -> spec_fn(StoredInput) -> bool {
    |row: StoredInput| row.session_id@ == session_id && row.queue_order >= order
}

/// A place in the queue behind all inputs, with none left free in between.
pub open spec fn is_next_order(inputs: Seq<StoredInput>, order: i64) -> bool {
    &&& order >= 1
    &&& forall|i: int| 0 <= i < inputs.len() ==> (#[trigger] inputs[i]).queue_order < order
    &&& order == 1 || exists|i: int|
        0 <= i < inputs.len() && (#[trigger] inputs[i]).queue_order == order - 1
}

/// The highest place in the queue is that of an input, or there is none.
pub proof fn next_order_is_behind_all(inputs: Seq<StoredInput>)
    requires
        top_order(inputs) < i64::MAX,
    ensures
        is_next_order(inputs, (top_order(inputs) + 1) as i64),
{
    top_is_top(inputs);
}

proof fn top_is_top(inputs: Seq<StoredInput>)
    ensures
        top_order(inputs) >= 0,
        forall|i: int| 0 <= i < inputs.len() ==> (#[trigger] inputs[i]).queue_order <= top_order(
            inputs,
        ),
        top_order(inputs) == 0 || exists|i: int|
            0 <= i < inputs.len() && (#[trigger] inputs[i]).queue_order == top_order(inputs),
    decreases inputs.len(),
{
    if inputs.len() > 0 {
        let shorter = inputs.drop_last();
        top_is_top(shorter);
        assert forall|i: int| 0 <= i < inputs.len() implies (#[trigger] inputs[i]).queue_order
            <= top_order(inputs) by {
            if i < shorter.len() {
                assert(shorter[i] == inputs[i]);
            }
        }
        if inputs.last().queue_order > top_order(shorter) {
            assert(inputs[inputs.len() - 1].queue_order == top_order(inputs));
        } else if top_order(shorter) != 0 {
            let i = choose|i: int|
                0 <= i < shorter.len() && (#[trigger] shorter[i]).queue_order == top_order(shorter);
            assert(inputs[i].queue_order == top_order(inputs));
        }
    }
}

/// The first run of an input: it is accepted, and nothing has happened to it yet.
pub open spec fn is_first_run(row: RunRow, new: NewStoredInput) -> bool {
    &&& row.run_id == new.run_id
    &&& row.session_id == new.session_id
    &&& row.input_id == new.input_id
    &&& row.attempt == 1
    &&& row.status is Accepted
    &&& !row.cancel_requested
    &&& row.approval_mode == new.approval_mode
    &&& row.reasoning_effort is None
    &&& row.error is None
    &&& row.created_at_ms == new.accepted_at_ms
    &&& row.started_at_ms is None
    &&& row.finished_at_ms is None
}

/// After a rewrite exactly the inputs of the session at or behind the one that the target message
/// came from are gone, with their runs and all that belongs to those. Inputs before it, and those of
/// other sessions, are there unchanged, and so is what belongs to them. One input and one run are
/// new.
pub proof fn rewrite_takes_back_exactly_the_rest(
    before: StorageEngine,
    after: StorageEngine,
    rewrite: ConversationRewrite,
    outcome: Result<RewriteResult, Refusal>,
)
    requires
        unique(before.inputs@, input_name()),
        rewrite_attempted(before, after, rewrite, outcome),
        outcome is Ok,
    ensures
        exists|k: int| #[trigger]
            brought(
                before.inputs@,
                k,
                rewrite.session_id@,
                rewrite.target_user_message_id@,
            ) && {
                let order = before.inputs@[k].queue_order;
                let goes = stands_behind(rewrite.session_id@, order);
                &&& forall|row: StoredInput|
                    row.session_id@ != rewrite.session_id@ || row.queue_order < order ==> (
                    #[trigger] after.inputs@.drop_last().contains(row) == before.inputs@.contains(
                        row,
                    ))
                &&& forall|row: StoredInput|
                    row.session_id@ == rewrite.session_id@ && row.queue_order >= order
                        ==> !#[trigger] after.inputs@.drop_last().contains(row)
                &&& after.inputs@.len() > 0
                &&& after.runs@.len() > 0
                &&& after.run_message_refs@.len() > 0
                &&& exists|cut: StorageEngine| #[trigger]
                    work_is_removed(before, cut, goes) && selections_are_removed(
                        before,
                        cut,
                        goes,
                    ) && after == (StorageEngine {
                        files: after.files,
                        known: after.known,
                        sessions: after.sessions,
                        goals: after.goals,
                        skill_activations: after.skill_activations,
                        inputs: after.inputs,
                        runs: after.runs,
                        run_message_refs: after.run_message_refs,
                        ..cut
                    }) && after.inputs@.drop_last() == cut.inputs@ && after.runs@.drop_last()
                        == cut.runs@ && after.run_message_refs@.drop_last()
                        == cut.run_message_refs@ && is_next_order(
                        cut.inputs@,
                        after.inputs@.last().queue_order,
                    )
                &&& forall|id: Seq<char>| #[trigger]
                    lists(outcome->Ok_0.removed_child_task_ids@, id) == task_goes(
                        before,
                        goes,
                        id,
                    )
            },
        is_first_run(after.runs@.last(), rewrite.input),
        after.inputs@.last() == (StoredInput {
            queue_order: after.inputs@.last().queue_order,
            kind: InputKind::Message,
            input_id: rewrite.input.input_id,
            session_id: rewrite.input.session_id,
            idempotency_key: rewrite.input.idempotency_key,
            agent_variant: rewrite.input.agent_variant,
            origin: InputOrigin::User,
            goal_binding: None,
            cross_session: None,
            channel_source: rewrite.input.channel_source,
            user_message_id: rewrite.input.user_message_id,
            state: InputState::Committed,
            queued_message: None,
            accepted_at_ms: rewrite.input.accepted_at_ms,
        }),
        after.run_message_refs@.last() == (RunMessageRef {
            run_id: rewrite.input.run_id,
            message_id: rewrite.input.user_message_id,
            step: None,
        }),
        outcome->Ok_0.input == (StoredInput {
            origin: rewrite.input.origin,
            goal_binding: rewrite.input.goal_binding,
            cross_session: rewrite.input.cross_session,
            ..after.inputs@.last()
        }),
        outcome->Ok_0.run.run_id == rewrite.input.run_id,
        outcome->Ok_0.run.session_id == rewrite.input.session_id,
        outcome->Ok_0.run.input_id == rewrite.input.input_id,
        outcome->Ok_0.run.attempt == 1,
        outcome->Ok_0.run.status is Accepted,
        outcome->Ok_0.run.agent_variant == rewrite.input.agent_variant,
        outcome->Ok_0.run.approval_mode == rewrite.input.approval_mode,
        outcome->Ok_0.run.created_at_ms == rewrite.input.accepted_at_ms,
        outcome->Ok_0.run.message_ids@ == seq![rewrite.input.user_message_id],
{
    let session_id = rewrite.session_id@;
    let message_id = rewrite.target_user_message_id@;
    let plan = planned(before, rewrite.session_id, rewrite.conversation@, rewrite.changed_at_ms);
    let order = target_order(before, rewrite);
    let prepared = choose|prepared: StorageEngine| #[trigger]
        replacement_written(before, prepared, rewrite.session_id, rewrite.conversation@, plan)
            && rewrite_committed(prepared, after, plan, rewrite, order, outcome);
    let source = |row: StoredInput|
        row.session_id@ == session_id && row.user_message_id@ == message_id
            && row.state is Committed;
    found_leads(before.inputs@, is_source_of(session_id, message_id), source);
    let k = first(before.inputs@, is_source_of(session_id, message_id))->0;
    assert(brought(before.inputs@, k, session_id, message_id)) by {
        assert(source(before.inputs@[k]));
        assert forall|j: int| 0 <= j < k implies !((#[trigger] before.inputs@[j]).session_id@
            == session_id && before.inputs@[j].user_message_id@ == message_id
            && before.inputs@[j].state is Committed) by {
            assert(!source(before.inputs@[j]));
        }
    }
    assert(order == before.inputs@[k].queue_order);
    let goes = stands_behind(session_id, order);
    let gone = taken_back(prepared.inputs@, session_id, order);
    let cut = choose|cut: StorageEngine| #[trigger]
        inputs_removed(prepared, cut, gone) && went_on(
            cut,
            after,
            plan,
            rewrite,
            tasks_of(prepared, gone),
        );
    inputs_go_with_what_is_theirs(prepared, cut, is_taken_back(session_id, order), goes);
    same_work_goes(before, prepared, cut, goes);
    assert(work_is_removed(before, cut, goes));
    filtered_rows(before.inputs@, |row: StoredInput| !goes(row));
    assert(after.inputs@.drop_last() =~= cut.inputs@);
    assert(after.runs@.drop_last() =~= cut.runs@);
    assert(after.run_message_refs@.drop_last() =~= cut.run_message_refs@);
    assert(top_order(cut.inputs@) < i64::MAX);
    next_order_is_behind_all(cut.inputs@);
    assert forall|id: Seq<char>| #[trigger]
        lists(outcome->Ok_0.removed_child_task_ids@, id) == task_goes(before, goes, id) by {
        tasks_go_with_their_runs(prepared, session_id, order, id);
        same_tasks_go(before, prepared, goes, id);
    }
}

proof fn same_tasks_go(
    before: StorageEngine,
    prepared: StorageEngine,
    goes: spec_fn(StoredInput) -> bool,
    id: Seq<char>,
)
    requires
        prepared.inputs == before.inputs,
        prepared.runs == before.runs,
        prepared.child_tasks == before.child_tasks,
    ensures
        task_goes(prepared, goes, id) == task_goes(before, goes, id),
{
    assert forall|text: Seq<char>| #[trigger]
        input_goes(prepared, goes, text) == input_goes(before, goes, text) by {}
    assert forall|text: Seq<char>| #[trigger]
        run_goes(prepared, goes, text) == run_goes(before, goes, text) by {
        same_runs_go(before, prepared, goes, text);
    }
    if task_goes(prepared, goes, id) {
        let i = choose|i: int|
            0 <= i < prepared.child_tasks@.len() && (
            #[trigger] prepared.child_tasks@[i]).child_task_id@ == id && run_goes(
                prepared,
                goes,
                prepared.child_tasks@[i].parent_run_id@,
            );
        assert(run_goes(before, goes, before.child_tasks@[i].parent_run_id@));
    }
    if task_goes(before, goes, id) {
        let i = choose|i: int|
            0 <= i < before.child_tasks@.len() && (
            #[trigger] before.child_tasks@[i]).child_task_id@ == id && run_goes(
                before,
                goes,
                before.child_tasks@[i].parent_run_id@,
            );
        assert(run_goes(prepared, goes, prepared.child_tasks@[i].parent_run_id@));
    }
}

proof fn same_runs_go(
    before: StorageEngine,
    prepared: StorageEngine,
    goes: spec_fn(StoredInput) -> bool,
    id: Seq<char>,
)
    requires
        prepared.inputs == before.inputs,
        prepared.runs == before.runs,
    ensures
        run_goes(prepared, goes, id) == run_goes(before, goes, id),
{
    assert forall|text: Seq<char>| #[trigger]
        input_goes(prepared, goes, text) == input_goes(before, goes, text) by {}
    if run_goes(prepared, goes, id) {
        let i = choose|i: int|
            0 <= i < prepared.runs@.len() && (#[trigger] prepared.runs@[i]).run_id@ == id
                && input_goes(prepared, goes, prepared.runs@[i].input_id@);
        assert(input_goes(before, goes, before.runs@[i].input_id@));
    }
    if run_goes(before, goes, id) {
        let i = choose|i: int|
            0 <= i < before.runs@.len() && (#[trigger] before.runs@[i]).run_id@ == id
                && input_goes(before, goes, before.runs@[i].input_id@);
        assert(input_goes(prepared, goes, prepared.runs@[i].input_id@));
    }
}

/// What goes depends on the work alone.
proof fn same_work_goes(
    before: StorageEngine,
    prepared: StorageEngine,
    cut: StorageEngine,
    goes: spec_fn(StoredInput) -> bool,
)
    requires
        prepared == (StorageEngine { files: prepared.files, known: prepared.known, ..before }),
        work_is_removed(prepared, cut, goes),
        selections_are_removed(prepared, cut, goes),
    ensures
        work_is_removed(before, cut, goes),
        selections_are_removed(before, cut, goes),
{
    assert forall|text: Seq<char>| #[trigger]
        input_goes(prepared, goes, text) == input_goes(before, goes, text) by {}
    assert forall|text: Seq<char>| #[trigger]
        run_goes(prepared, goes, text) == run_goes(before, goes, text) by {
        same_runs_go(before, prepared, goes, text);
    }
    assert forall|text: Seq<char>| #[trigger]
        task_goes(prepared, goes, text) == task_goes(before, goes, text) by {
        same_tasks_go(before, prepared, goes, text);
    }
    removal_is_by_what_goes(before, prepared, cut, goes);
}

proof fn tasks_go_with_their_runs(
    engine: StorageEngine,
    session_id: Seq<char>,
    order: i64,
    id: Seq<char>,
)
    ensures
        lists(tasks_of(engine, taken_back(engine.inputs@, session_id, order)), id) == task_goes(
            engine,
            stands_behind(session_id, order),
            id,
        ),
{
    gone_tasks_are_listed(
        engine,
        is_taken_back(session_id, order),
        stands_behind(session_id, order),
        id,
    );
}

/// The first generation behind another that no body has.
pub open spec fn is_next_free(
    engine: StorageEngine,
    session_id: Seq<char>,
    previous: u64,
    next: u64,
) -> bool {
    &&& next > previous
    &&& !bodies(engine.files@).contains_key(
        body_file(engine.sessions_directory@, session_id, next),
    )
    &&& forall|between: u64|
        previous < between < next ==> bodies(engine.files@).contains_key(
            #[trigger] body_file(engine.sessions_directory@, session_id, between),
        )
}

/// Where the conversation of a session lies.
pub open spec fn body_file(directory: Seq<char>, session_id: Seq<char>, generation: u64) -> Seq<
    char,
> {
    directory + "/"@ + session_id + "/conversation."@ + decimal(generation as nat) + ".jsonl"@
}

proof fn free_is_next(
    files: Map<Seq<char>, Seq<u8>>,
    directory: Seq<char>,
    session_id: Seq<char>,
    from: int,
)
    requires
        0 <= from,
        free_generation(files, directory, session_id, from) is Some,
    ensures
        ({
            let found = free_generation(files, directory, session_id, from)->0;
            &&& found >= from
            &&& !files.contains_key(body_file(directory, session_id, found))
            &&& forall|between: u64|
                from <= between < found ==> files.contains_key(
                    #[trigger] body_file(directory, session_id, between),
                )
        }),
    decreases u64::MAX - from + 1,
{
    assert(session_body_path(directory, session_id, from as u64) =~= body_file(
        directory,
        session_id,
        from as u64,
    ));
    if files.contains_key(session_body_path(directory, session_id, from as u64)) {
        free_is_next(files, directory, session_id, from + 1);
        let found = free_generation(files, directory, session_id, from)->0;
        assert forall|between: u64| from <= between < found implies files.contains_key(
            #[trigger] body_file(directory, session_id, between),
        ) by {
            if between == from {
                assert(body_file(directory, session_id, between) == body_file(
                    directory,
                    session_id,
                    from as u64,
                ));
            }
        }
    }
}

/// A replacement is planned for the next generation that is free, with as many messages as it has.
pub proof fn replacement_is_planned_for_a_free_generation(
    engine: StorageEngine,
    session_id: String,
    batch: Seq<Arc<RecordedMessage>>,
    changed_at_ms: i64,
)
    requires
        replacement_refusal(engine, session_id, batch) is None,
        batch.len() <= u64::MAX,
    ensures
        ({
            let plan = planned(engine, session_id, batch, changed_at_ms);
            &&& plan.session_id == session_id
            &&& plan.message_count == batch.len()
            &&& plan.changed_at_ms == changed_at_ms
            &&& exists|i: int| #[trigger]
                stands_at(engine.sessions@, i, session_id@) && plan.previous_generation
                    == engine.sessions@[i].body_generation
            &&& is_next_free(engine, session_id@, plan.previous_generation, plan.new_generation)
        }),
{
    session_stands_where_found(engine.sessions@, session_id@);
    let generation = generation_of(engine, main_target(session_id))->Ok_0;
    free_is_next(
        bodies(engine.files@),
        engine.sessions_directory@,
        session_id@,
        generation + 1,
    );
    let i = first(engine.sessions@, is_session(session_id@))->0;
    assert(stands_at(engine.sessions@, i, session_id@));
}

/// After a rewrite the session goes on at the next free generation, with as many messages as the
/// conversation has and in the way that the new input asks for. Its goal is as the request says, and
/// its skills are those that the conversation still bears out. The body that counted before is gone,
/// and so are those of the tasks that went; every other body is as it was.
pub proof fn rewritten_session_goes_on(
    before: StorageEngine,
    after: StorageEngine,
    rewrite: ConversationRewrite,
    outcome: Result<RewriteResult, Refusal>,
)
    requires
        unique(before.inputs@, input_name()),
        rewrite_attempted(before, after, rewrite, outcome),
        outcome is Ok,
        rewrite.conversation@.len() <= u64::MAX,
    ensures
        exists|i: int| #[trigger]
            stands_at(before.sessions@, i, rewrite.session_id@) && {
                &&& after.sessions@ == before.sessions@.update(
                    i,
                    SessionRow {
                        body_generation: outcome->Ok_0.body_generation,
                        message_count: rewrite.conversation@.len() as u64,
                        current_variant: rewrite.input.agent_variant,
                        ..before.sessions@[i]
                    },
                )
                &&& before.sessions@[i].lifecycle is Active
                &&& is_next_free(
                    before,
                    rewrite.session_id@,
                    before.sessions@[i].body_generation,
                    outcome->Ok_0.body_generation,
                )
                &&& !bodies(after.files@).contains_key(
                    body_file(
                        before.sessions_directory@,
                        rewrite.session_id@,
                        before.sessions@[i].body_generation,
                    ),
                )
            },
        bodies(after.files@).contains_key(
            body_file(
                before.sessions_directory@,
                rewrite.session_id@,
                outcome->Ok_0.body_generation,
            ),
        ),
        bodies(after.files@)[body_file(
            before.sessions_directory@,
            rewrite.session_id@,
            outcome->Ok_0.body_generation,
        )] == framed(batch_records(rewrite.conversation@)),
        match rewrite.goal_effect {
            None => after.goals@ == before.goals@,
            Some(pause) => exists|g: int|
                0 <= g < before.goals@.len() && (#[trigger] before.goals@[g]).session_id@
                    == rewrite.session_id@ && before.goals@[g].goal_id@ == pause.expected_goal_id@
                    && before.goals@[g].generation == pause.expected_generation && after.goals@
                    == before.goals@.update(g, pause.goal) && pause.goal.session_id@
                    == rewrite.session_id@ && pause.goal.goal_id@ == pause.expected_goal_id@,
        },
        after.skill_activations@ == before.skill_activations@.filter(
            |row: StoredSkillActivation|
                row.session_id@ != rewrite.session_id@ || row.owner is ChildTask || exists|m: int|
                    0 <= m < rewrite.conversation@.len() && id_of_message(
                        *(#[trigger] rewrite.conversation@[m]).message,
                    ) == row.message_id@,
        ),
        forall|path: Seq<char>| #[trigger]
            bodies(after.files@).contains_key(path) ==> bodies(before.files@).contains_key(path)
                || path == body_file(
                before.sessions_directory@,
                rewrite.session_id@,
                outcome->Ok_0.body_generation,
            ),
        forall|id: Seq<char>, path: Seq<char>|
            lists(outcome->Ok_0.removed_child_task_ids@, id) && #[trigger] (
            before.sessions_directory@ + "/"@ + rewrite.session_id@ + "/child-tasks/"@ + id
                + "/"@).is_prefix_of(path) ==> !bodies(after.files@).contains_key(path),
{
    let session_id = rewrite.session_id@;
    let directory = before.sessions_directory@;
    let plan = planned(before, rewrite.session_id, rewrite.conversation@, rewrite.changed_at_ms);
    let order = target_order(before, rewrite);
    let prepared = choose|prepared: StorageEngine| #[trigger]
        replacement_written(before, prepared, rewrite.session_id, rewrite.conversation@, plan)
            && rewrite_committed(prepared, after, plan, rewrite, order, outcome);
    let gone = taken_back(prepared.inputs@, session_id, order);
    let tasks = tasks_of(prepared, gone);
    let cut = choose|cut: StorageEngine| #[trigger]
        inputs_removed(prepared, cut, gone) && went_on(cut, after, plan, rewrite, tasks);
    replacement_is_planned_for_a_free_generation(
        before,
        rewrite.session_id,
        rewrite.conversation@,
        rewrite.changed_at_ms,
    );
    session_stands_where_found(before.sessions@, session_id);
    let i = first(before.sessions@, is_session(session_id))->0;
    assert(stands_at(before.sessions@, i, session_id));
    let fresh = body_file(directory, session_id, plan.new_generation);
    let stale = body_file(directory, session_id, plan.previous_generation);
    assert(session_body_path(directory, session_id, plan.new_generation) =~= fresh);
    assert(session_body_path(directory, session_id, plan.previous_generation) =~= stale);
    generations_do_not_share_bodies(
        directory,
        session_id,
        plan.new_generation,
        plan.previous_generation,
    );
    sessions_have_no_body_in_a_task(directory, session_id, plan.new_generation, tasks);
    assert(bodies(after.files@) == bodies(before.files@).insert(
        fresh,
        framed(batch_records(rewrite.conversation@)),
    ).remove(stale).remove_keys(task_paths(directory, session_id, tasks)));
    match rewrite.goal_effect {
        Some(pause) => {
            let condition = is_goal(session_id, pause.expected_goal_id@, pause.expected_generation);
            let plain = |row: StoredGoal|
                row.session_id@ == session_id && row.goal_id@ == pause.expected_goal_id@
                    && row.generation == pause.expected_generation;
            found_leads(before.goals@, condition, plain);
            let g = first(before.goals@, condition)->0;
            assert(plain(before.goals@[g]));
        },
        None => {},
    }
    let borne_out = |row: StoredSkillActivation|
        row.session_id@ != rewrite.session_id@ || row.owner is ChildTask || exists|m: int|
            0 <= m < rewrite.conversation@.len() && id_of_message(
                *(#[trigger] rewrite.conversation@[m]).message,
            ) == row.message_id@;
    assert forall|k: int| 0 <= k < cut.skill_activations@.len() implies is_borne_out(
        session_id,
        rewrite.conversation@,
    )(#[trigger] cut.skill_activations@[k]) == borne_out(cut.skill_activations@[k]) by {
        let row = cut.skill_activations@[k];
        messages_are_named(rewrite.conversation@, row.message_id@);
    }
    kept_is_filtered(
        cut.skill_activations@,
        is_borne_out(session_id, rewrite.conversation@),
        borne_out,
    );
    assert forall|id: Seq<char>, path: Seq<char>|
        lists(outcome->Ok_0.removed_child_task_ids@, id) && #[trigger] (directory + "/"@
            + session_id + "/child-tasks/"@ + id + "/"@).is_prefix_of(path) implies !bodies(
        after.files@,
    ).contains_key(path) by {
        let k = choose|k: int| 0 <= k < tasks.len() && (#[trigger] tasks[k])@ == id;
        let prefix = directory + "/"@ + session_id + "/child-tasks/"@ + id + "/"@;
        assert(task_directory(directory, session_id, tasks[k]@) =~= prefix);
        assert(path.take(prefix.len() as int) =~= prefix);
        assert(has_prefix(path, task_directory(directory, session_id, tasks[k]@)));
        assert(lies_in_a_task(directory, session_id, tasks, path));
    }
}

proof fn messages_are_named(messages: Seq<Arc<RecordedMessage>>, id: Seq<char>)
    ensures
        records_message(messages, id) == exists|m: int|
            0 <= m < messages.len() && id_of_message(*(#[trigger] messages[m]).message) == id,
{
    if records_message(messages, id) {
        let m = choose|m: int|
            0 <= m < messages.len() && key_of(*(#[trigger] messages[m]).message)@ == id;
        assert(id_of_message(*messages[m].message) == id);
    }
    if exists|m: int|
        0 <= m < messages.len() && id_of_message(*(#[trigger] messages[m]).message) == id {
        let m = choose|m: int|
            0 <= m < messages.len() && id_of_message(*(#[trigger] messages[m]).message) == id;
        assert(key_of(*messages[m].message)@ == id);
    }
}

} // verus!
