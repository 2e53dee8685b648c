//! What sessions, messages and names have once stays single, and is read as it was last set.

use std::sync::Arc;
use vstd::prelude::*;

use crate::engine::StorageEngine;
use crate::keys::{
    feedback_name, has_one_of_each, head_name, is_keyed, plan_name, skill_name, unique,
    unique_after_keeping, unique_after_push, unique_after_update,
};
use crate::order::{every_place_has_its_turn, is_order};
use crate::recall::heads_after_start;
use crate::rows::SkillNameState;
use crate::session_management::{
    is_feedback_elsewhere, is_feedback_on, judged, MessageFeedbackChange,
};
use crate::skill::{arranged, is_state_of, state_keys, with_state, SkillNameStateChange};
use crate::table::{first, first_is_found, kept};
use crate::work_plan::{
    has_items, is_plan_of, is_plan_of_other, plan_tables, with_plan, StoredWorkPlan,
};

verus! {

proof fn setting_a_state_keeps_names(rows: Seq<SkillNameState>, change: SkillNameStateChange)
    requires
        unique(rows, skill_name()),
    ensures
        unique(with_state(rows, change), skill_name()),
{
    let after = with_state(rows, change);
    let condition = is_state_of(change.name@);
    first_is_found(rows, condition);
    match first(rows, condition) {
        Some(place) => {
            unique_after_update(rows, skill_name(), place, after[place]);
        },
        None => {
            assert forall|i: int| 0 <= i < rows.len() implies skill_name()(#[trigger] rows[i])
                != skill_name()(after.last()) by {
                assert(!condition(rows[i]));
            }
            unique_after_push(rows, skill_name(), after.last());
        },
    }
}

/// Offering the skills of a name, or ceasing to, keeps one state for each name.
pub proof fn setting_a_skill_keeps_keys(
    before: StorageEngine,
    after: StorageEngine,
    change: SkillNameStateChange,
)
    requires
        is_keyed(before),
        after == (StorageEngine { skill_name_states: after.skill_name_states, ..before }),
        after.skill_name_states@ == with_state(before.skill_name_states@, change),
    ensures
        is_keyed(after),
{
    reveal(has_one_of_each);
    setting_a_state_keeps_names(before.skill_name_states@, change);
}

/// A list of states read after one was set holds that state, and no other of its name; the states
/// of other names are listed as they would have been before.
pub proof fn skill_state_is_listed_as_set(
    rows: Seq<SkillNameState>,
    change: SkillNameStateChange,
    order: Seq<usize>,
    list: Seq<SkillNameState>,
)
    requires
        unique(rows, skill_name()),
        is_order(state_keys(with_state(rows, change)), order),
        arranged(with_state(rows, change), order, list),
    ensures
        unique(list, skill_name()),
        exists|k: int|
            0 <= k < list.len() && (#[trigger] list[k]).name@ == change.name@ && list[k].enabled
                == change.enabled && list[k].updated_at_ms == change.updated_at_ms,
        forall|state: SkillNameState|
            state.name@ != change.name@ ==> (#[trigger] list.contains(state) == rows.contains(
                state,
            )),
{
    let after = with_state(rows, change);
    let condition = is_state_of(change.name@);
    setting_a_state_keeps_names(rows, change);
    first_is_found(rows, condition);
    assert forall|i: int, j: int| 0 <= i < j < list.len() implies skill_name()(#[trigger] list[i])
        != skill_name()(#[trigger] list[j]) by {
        let left = order[i] as int;
        let right = order[j] as int;
        assert(left != right);
        if left < right {
            assert(skill_name()(after[left]) != skill_name()(after[right]));
        } else {
            assert(skill_name()(after[right]) != skill_name()(after[left]));
        }
    }
    let place = match first(rows, condition) {
        Some(place) => place,
        None => rows.len() as int,
    };
    assert(after[place].name@ == change.name@);
    let turn = every_place_has_its_turn(state_keys(after), order, place);
    assert(list[turn] == after[place]);
    assert forall|state: SkillNameState| state.name@ != change.name@ implies (
    #[trigger] list.contains(state) == rows.contains(state)) by {
        if list.contains(state) {
            let k = list.index_of(state);
            let i = order[k] as int;
            assert(after[i] == state);
            assert(i != place);
            assert(rows[i] == state);
        }
        if rows.contains(state) {
            let i = rows.index_of(state);
            assert(i != place);
            assert(after[i] == state);
            let k = every_place_has_its_turn(state_keys(after), order, i);
            assert(list[k] == state);
        }
    }
}

/// Storing a plan keeps one plan for each session.
pub proof fn storing_a_plan_keeps_keys(
    before: StorageEngine,
    after: StorageEngine,
    plan: Arc<StoredWorkPlan>,
    cleared: bool,
)
    requires
        is_keyed(before),
        after == (StorageEngine {
            work_plans: after.work_plans,
            work_plan_receipts: after.work_plan_receipts,
            ..before
        }),
        plan_tables(after) == with_plan(plan_tables(before), plan, cleared),
    ensures
        is_keyed(after),
{
    reveal(has_one_of_each);
    let rows = before.work_plans@;
    let condition = is_plan_of(plan.session_id@);
    assert(plan_tables(after).plans == after.work_plans@);
    if cleared {
        unique_after_keeping(rows, plan_name(), is_plan_of_other(plan.session_id@));
    } else {
        first_is_found(rows, condition);
        match first(rows, condition) {
            Some(place) => {
                unique_after_update(rows, plan_name(), place, plan);
            },
            None => {
                assert forall|i: int| 0 <= i < rows.len() implies plan_name()(#[trigger] rows[i])
                    != plan_name()(plan) by {
                    assert(!condition(rows[i]));
                }
                unique_after_push(rows, plan_name(), plan);
            },
        }
    }
}

/// Dropping the plan of a session, or plans without items, keeps one plan for each session.
pub proof fn dropping_plans_keeps_keys(
    before: StorageEngine,
    after: StorageEngine,
    session_id: Seq<char>,
)
    requires
        is_keyed(before),
        after == (StorageEngine { work_plans: after.work_plans, ..before }),
        after.work_plans@ == kept(before.work_plans@, is_plan_of_other(session_id))
            || after.work_plans@ == kept(before.work_plans@, has_items()),
    ensures
        is_keyed(after),
{
    reveal(has_one_of_each);
    unique_after_keeping(before.work_plans@, plan_name(), is_plan_of_other(session_id));
    unique_after_keeping(before.work_plans@, plan_name(), has_items());
}

/// Judging a message keeps one judgement for each.
pub proof fn judging_keeps_keys(
    before: StorageEngine,
    after: StorageEngine,
    change: MessageFeedbackChange,
)
    requires
        is_keyed(before),
        after == (StorageEngine { feedback: after.feedback, ..before }),
        after.feedback@ == judged(before.feedback@, change),
    ensures
        is_keyed(after),
{
    reveal(has_one_of_each);
    let rows = before.feedback@;
    let condition = is_feedback_on(change.session_id@, change.message_id@);
    if change.feedback is None {
        unique_after_keeping(
            rows,
            feedback_name(),
            is_feedback_elsewhere(change.session_id@, change.message_id@),
        );
    } else {
        first_is_found(rows, condition);
        match first(rows, condition) {
            Some(place) => {
                unique_after_update(rows, feedback_name(), place, after.feedback@[place]);
            },
            None => {
                let row = after.feedback@.last();
                assert forall|i: int| 0 <= i < rows.len() implies feedback_name()(
                    #[trigger] rows[i],
                ) != feedback_name()(row) by {
                    assert(!condition(rows[i]));
                }
                unique_after_push(rows, feedback_name(), row);
            },
        }
    }
}

/// Settling the heads of the index keeps one head for each conversation.
pub proof fn settling_heads_keeps_keys(
    before: StorageEngine,
    after: StorageEngine,
    existed: bool,
)
    requires
        is_keyed(before),
        after == (StorageEngine { recall_heads: after.recall_heads, ..before }),
        after.recall_heads@ == heads_after_start(existed, before.recall_heads@),
    ensures
        is_keyed(after),
{
    reveal(has_one_of_each);
    let rows = before.recall_heads@;
    let heads = after.recall_heads@;
    assert forall|i: int, j: int| 0 <= i < j < heads.len() implies head_name()(#[trigger] heads[i])
        != head_name()(#[trigger] heads[j]) by {
        assert(head_name()(heads[i]) == head_name()(rows[i]));
        assert(head_name()(heads[j]) == head_name()(rows[j]));
    }
}

} // verus!
