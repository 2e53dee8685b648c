//! How the plan of a session is kept.

use vstd::prelude::*;

use std::sync::Arc;

use crate::engine::{is_session, StorageEngine};
use crate::error::Refusal;
use crate::message::{distinct, held};
use crate::order::key_before;
use crate::relations::{
    kept_is_filtered, leader_is_found, leads, none_of, session_stands_where_found, stands_at,
};
use crate::rows::SessionRow;
use crate::table::first;
use crate::text::{text_before, white_space};
use crate::work_plan::{
    empty_plans_removed, has_items, is_plan_of, is_plan_of_other, is_receipt, item_ids,
    plan_cleared, plan_keys, plan_loaded, plan_mutated, plan_outcome, plan_refusal, plan_tables,
    plans_listed, session_refusal, StoredWorkPlan, WorkPlanClear, WorkPlanMutation,
    WorkPlanMutationResult,
};

verus! {

/// The plan of a session.
pub open spec fn plan_at(plans: Seq<Arc<StoredWorkPlan>>, p: int, session_id: Seq<char>) -> bool {
    leads(plans, p, |plan: Arc<StoredWorkPlan>| held(plan).session_id@ == session_id)
}

/// The record of a plan that an operation cleared away.
pub open spec fn receipt_at(
    receipts: Seq<Arc<StoredWorkPlan>>,
    r: int,
    session_id: Seq<char>,
    operation_id: Seq<char>,
) -> bool {
    leads(
        receipts,
        r,
        |plan: Arc<StoredWorkPlan>|
            held(plan).session_id@ == session_id && held(plan).last_operation_id@ == operation_id,
    )
}

proof fn plan_is_found(plans: Seq<Arc<StoredWorkPlan>>, session_id: Seq<char>)
    ensures
        forall|p: int| #[trigger]
            plan_at(plans, p, session_id) ==> first(plans, is_plan_of(session_id)) == Some(p),
        first(plans, is_plan_of(session_id)) is Some ==> plan_at(
            plans,
            first(plans, is_plan_of(session_id))->0,
            session_id,
        ),
{
    let plain = |plan: Arc<StoredWorkPlan>| held(plan).session_id@ == session_id;
    leader_is_found(plans, is_plan_of(session_id), plain);
    assert forall|p: int| #[trigger] plan_at(plans, p, session_id) implies first(
        plans,
        is_plan_of(session_id),
    ) == Some(p) by {
        assert(leads(plans, p, plain));
    }
}

proof fn receipt_is_found(
    receipts: Seq<Arc<StoredWorkPlan>>,
    session_id: Seq<char>,
    operation_id: Seq<char>,
)
    ensures
        forall|r: int| #[trigger]
            receipt_at(receipts, r, session_id, operation_id) ==> first(
                receipts,
                is_receipt(session_id, operation_id),
            ) == Some(r),
        first(receipts, is_receipt(session_id, operation_id)) is Some ==> receipt_at(
            receipts,
            first(receipts, is_receipt(session_id, operation_id))->0,
            session_id,
            operation_id,
        ),
{
    let plain = |plan: Arc<StoredWorkPlan>|
        held(plan).session_id@ == session_id && held(plan).last_operation_id@ == operation_id;
    leader_is_found(receipts, is_receipt(session_id, operation_id), plain);
    assert forall|r: int| #[trigger]
        receipt_at(receipts, r, session_id, operation_id) implies first(
        receipts,
        is_receipt(session_id, operation_id),
    ) == Some(r) by {
        assert(leads(receipts, r, plain));
    }
}

/// A plan that can be read: some operation wrote it, no two items have an identifier in common, and
/// it has a revision.
pub open spec fn is_in_order(plan: StoredWorkPlan) -> bool {
    &&& exists|i: int|
        0 <= i < plan.last_operation_id@.len() && !white_space(
            #[trigger] plan.last_operation_id@[i],
        )
    &&& forall|i: int, j: int|
        0 <= i < j < plan.items@.len() ==> (#[trigger] plan.items@[i]).id@ != (
        #[trigger] plan.items@[j]).id@
    &&& plan.revision >= 1
}

/// A plan is read exactly where it is in order.
pub proof fn plans_are_read_in_order(plan: StoredWorkPlan)
    ensures
        plan_refusal(plan) is None <==> is_in_order(plan),
{
    let ids = item_ids(plan.items@);
    assert forall|i: int| 0 <= i < ids.len() implies #[trigger] ids[i] == plan.items@[i].id@ by {}
    if distinct(ids) {
        assert forall|i: int, j: int| 0 <= i < j < plan.items@.len() implies (
        #[trigger] plan.items@[i]).id@ != (#[trigger] plan.items@[j]).id@ by {
            assert(ids[i] != ids[j]);
        }
    }
    if forall|i: int, j: int|
        0 <= i < j < plan.items@.len() ==> (#[trigger] plan.items@[i]).id@ != (
        #[trigger] plan.items@[j]).id@ {
        assert forall|i: int, j: int| 0 <= i < j < ids.len() implies #[trigger] ids[i]
            != #[trigger] ids[j] by {
            assert(plan.items@[i].id@ != plan.items@[j].id@);
        }
    }
}

/// The session of a plan is there and active.
pub open spec fn can_plan(sessions: Seq<SessionRow>, session_id: Seq<char>) -> bool {
    exists|s: int| #[trigger] stands_at(sessions, s, session_id) && sessions[s].lifecycle is Active
}

proof fn planning_is_for_active_sessions(sessions: Seq<SessionRow>, session_id: Seq<char>)
    ensures
        session_refusal(sessions, session_id) is None <==> can_plan(sessions, session_id),
{
    session_stands_where_found(sessions, session_id);
    if first(sessions, is_session(session_id)) is Some {
        assert(stands_at(sessions, first(sessions, is_session(session_id))->0, session_id));
    }
}

/// The revision that counts: that of the session's plan, and none without a plan.
pub open spec fn is_at_revision(
    plans: Seq<Arc<StoredWorkPlan>>,
    session_id: Seq<char>,
    revision: u64,
) -> bool {
    if revision == 0 {
        none_of(plans, |plan: Arc<StoredWorkPlan>| held(plan).session_id@ == session_id)
    } else {
        exists|p: int| #[trigger] plan_at(plans, p, session_id) && held(plans[p]).revision == revision
    }
}

/// An operation that wrote the plan or cleared it away took effect before.
pub open spec fn took_effect(
    engine: StorageEngine,
    session_id: Seq<char>,
    operation_id: Seq<char>,
) -> bool {
    ||| exists|r: int| #[trigger]
        receipt_at(engine.work_plan_receipts@, r, session_id, operation_id)
    ||| exists|p: int| #[trigger]
        plan_at(engine.work_plans@, p, session_id) && held(
            engine.work_plans@[p],
        ).last_operation_id@ == operation_id
}

/// A new plan is stored exactly where the session is there and active, the operation did not take
/// effect before, and the plan is at the revision expected, with another left to follow.
pub open spec fn is_next_step(engine: StorageEngine, mutation: WorkPlanMutation) -> bool {
    &&& can_plan(engine.sessions@, mutation.session_id@)
    &&& !took_effect(engine, mutation.session_id@, mutation.operation_id@)
    &&& is_at_revision(engine.work_plans@, mutation.session_id@, mutation.expected_revision)
    &&& mutation.expected_revision < i64::MAX
}

/// A plan is changed one revision at a time: it is then as it was given, under the next revision. A
/// plan whose items are all completed is cleared away and kept in the records. The plans of other
/// sessions stay.
pub proof fn plans_follow_one_another(
    before: StorageEngine,
    after: StorageEngine,
    mutation: WorkPlanMutation,
    outcome: Result<WorkPlanMutationResult, Refusal>,
)
    requires
        plan_mutated(before, after, mutation, outcome),
        is_next_step(before, mutation),
    ensures
        outcome is Ok,
        ({
            let plan = outcome->Ok_0.plan;
            &&& held(plan).session_id == mutation.session_id
            &&& held(plan).revision == mutation.expected_revision + 1
            &&& held(plan).objective == mutation.objective
            &&& held(plan).items == mutation.items
            &&& held(plan).last_operation_id == mutation.operation_id
            &&& held(plan).updated_at_ms == mutation.updated_at_ms
        }),
        outcome->Ok_0.cleared <==> forall|i: int|
            0 <= i < mutation.items@.len() ==> (#[trigger] mutation.items@[i]).status is Completed,
        after == (StorageEngine {
            work_plans: after.work_plans,
            work_plan_receipts: after.work_plan_receipts,
            ..before
        }),
        outcome->Ok_0.cleared ==> after.work_plans@ == before.work_plans@.filter(
            |plan: Arc<StoredWorkPlan>| held(plan).session_id@ != mutation.session_id@,
        ) && after.work_plan_receipts@ == before.work_plan_receipts@.push(outcome->Ok_0.plan),
        !outcome->Ok_0.cleared ==> after.work_plan_receipts@ == before.work_plan_receipts@,
        !outcome->Ok_0.cleared && mutation.expected_revision == 0 ==> after.work_plans@
            == before.work_plans@.push(outcome->Ok_0.plan),
        !outcome->Ok_0.cleared && mutation.expected_revision != 0 ==> forall|p: int| #[trigger]
            plan_at(before.work_plans@, p, mutation.session_id@) ==> after.work_plans@.len()
                == before.work_plans@.len() && after.work_plans@[p] == outcome->Ok_0.plan
                && forall|q: int|
                0 <= q < before.work_plans@.len() && q != p ==> #[trigger] after.work_plans@[q]
                    == before.work_plans@[q],
{
    let id = mutation.session_id@;
    steps_are_told_apart(before, mutation);
    plan_is_found(before.work_plans@, id);
    let others = |plan: Arc<StoredWorkPlan>| held(plan).session_id@ != mutation.session_id@;
    kept_is_filtered(before.work_plans@, is_plan_of_other(id), others);
    let theirs = |plan: Arc<StoredWorkPlan>| held(plan).session_id@ == id;
    leader_is_found(before.work_plans@, is_plan_of(id), theirs);
    if mutation.expected_revision == 0 {
        if first(before.work_plans@, is_plan_of(id)) is Some {
            assert(theirs(before.work_plans@[first(before.work_plans@, is_plan_of(id))->0]));
        }
    }
    let tables = plan_tables(after);
    assert(tables.plans == after.work_plans@);
    assert(tables.receipts == after.work_plan_receipts@);
}

proof fn steps_are_told_apart(engine: StorageEngine, mutation: WorkPlanMutation)
    ensures
        is_next_step(engine, mutation) <==> plan_outcome(
            plan_tables(engine),
            mutation.session_id@,
            mutation.operation_id@,
            mutation.expected_revision,
            mutation.items@,
        ) is Stored,
{
    let id = mutation.session_id@;
    planning_is_for_active_sessions(engine.sessions@, id);
    plan_is_found(engine.work_plans@, id);
    receipt_is_found(engine.work_plan_receipts@, id, mutation.operation_id@);
    let theirs = |plan: Arc<StoredWorkPlan>| held(plan).session_id@ == id;
    leader_is_found(engine.work_plans@, is_plan_of(id), theirs);
    let receipt = first(engine.work_plan_receipts@, is_receipt(id, mutation.operation_id@));
    if receipt is Some {
        assert(receipt_at(engine.work_plan_receipts@, receipt->0, id, mutation.operation_id@));
    }
    let plan = first(engine.work_plans@, is_plan_of(id));
    if plan is Some {
        assert(plan_at(engine.work_plans@, plan->0, id));
        assert(theirs(engine.work_plans@[plan->0]));
    }
}

/// An operation takes effect once: told again it changes nothing and gives what it gave.
pub proof fn plan_operations_take_effect_once(
    before: StorageEngine,
    after: StorageEngine,
    mutation: WorkPlanMutation,
    outcome: Result<WorkPlanMutationResult, Refusal>,
)
    requires
        plan_mutated(before, after, mutation, outcome),
        !is_next_step(before, mutation),
    ensures
        after == before,
        outcome is Ok <==> can_plan(before.sessions@, mutation.session_id@) && exists|
            plan: Arc<StoredWorkPlan>,
        |
            #[trigger] gives_plan(before, mutation, plan) && is_in_order(held(plan)),
        outcome is Ok ==> gives_plan(before, mutation, outcome->Ok_0.plan),
        outcome is Ok ==> outcome->Ok_0.cleared == exists|r: int| #[trigger]
            receipt_at(
                before.work_plan_receipts@,
                r,
                mutation.session_id@,
                mutation.operation_id@,
            ),
{
    let id = mutation.session_id@;
    steps_are_told_apart(before, mutation);
    planning_is_for_active_sessions(before.sessions@, id);
    plan_is_found(before.work_plans@, id);
    receipt_is_found(before.work_plan_receipts@, id, mutation.operation_id@);
    let receipt = first(before.work_plan_receipts@, is_receipt(id, mutation.operation_id@));
    let plan = first(before.work_plans@, is_plan_of(id));
    if receipt is Some {
        assert(receipt_at(before.work_plan_receipts@, receipt->0, id, mutation.operation_id@));
        let given = before.work_plan_receipts@[receipt->0];
        plans_are_read_in_order(held(given));
        assert(gives_plan(before, mutation, given));
    } else if plan is Some {
        assert(plan_at(before.work_plans@, plan->0, id));
        let given = before.work_plans@[plan->0];
        plans_are_read_in_order(held(given));
        if held(given).last_operation_id@ == mutation.operation_id@ {
            assert(gives_plan(before, mutation, given));
        }
    }
}

/// The plan that an operation gave: the one in the records, or the session's.
pub open spec fn gives_plan(
    engine: StorageEngine,
    mutation: WorkPlanMutation,
    plan: Arc<StoredWorkPlan>,
) -> bool {
    let id = mutation.session_id@;
    let operation = mutation.operation_id@;
    if exists|r: int| #[trigger] receipt_at(engine.work_plan_receipts@, r, id, operation) {
        exists|r: int| #[trigger]
            receipt_at(engine.work_plan_receipts@, r, id, operation)
                && engine.work_plan_receipts@[r] == plan
    } else {
        exists|p: int| #[trigger]
            plan_at(engine.work_plans@, p, id) && engine.work_plans@[p] == plan && held(
                plan,
            ).last_operation_id@ == operation
    }
}

/// The plan of an active session is cleared away at the revision expected, and no other.
pub proof fn plans_are_cleared_at_their_revision(
    before: StorageEngine,
    after: StorageEngine,
    clear: WorkPlanClear,
    outcome: Result<(), Refusal>,
)
    requires
        plan_cleared(before, after, clear, outcome),
    ensures
        outcome is Ok <==> can_plan(before.sessions@, clear.session_id@) && is_at_revision(
            before.work_plans@,
            clear.session_id@,
            clear.expected_revision,
        ),
        outcome is Err ==> after == before,
        outcome is Ok ==> after == (StorageEngine { work_plans: after.work_plans, ..before }),
        outcome is Ok ==> after.work_plans@ == before.work_plans@.filter(
            |plan: Arc<StoredWorkPlan>| held(plan).session_id@ != clear.session_id@,
        ),
{
    let id = clear.session_id@;
    planning_is_for_active_sessions(before.sessions@, id);
    plan_is_found(before.work_plans@, id);
    let theirs = |plan: Arc<StoredWorkPlan>| held(plan).session_id@ == id;
    leader_is_found(before.work_plans@, is_plan_of(id), theirs);
    let plan = first(before.work_plans@, is_plan_of(id));
    if plan is Some {
        assert(plan_at(before.work_plans@, plan->0, id));
        assert(theirs(before.work_plans@[plan->0]));
    }
    let others = |plan: Arc<StoredWorkPlan>| held(plan).session_id@ != clear.session_id@;
    kept_is_filtered(before.work_plans@, is_plan_of_other(id), others);
}

/// The plan that is read is the session's, where it is in order, and none where it has none.
pub proof fn plans_are_read_as_kept(
    engine: StorageEngine,
    session_id: Seq<char>,
    outcome: Result<Option<Arc<StoredWorkPlan>>, Refusal>,
)
    requires
        plan_loaded(engine, session_id, outcome),
    ensures
        outcome is Ok && outcome->Ok_0 is None <==> none_of(
            engine.work_plans@,
            |plan: Arc<StoredWorkPlan>| held(plan).session_id@ == session_id,
        ),
        forall|p: int| #[trigger]
            plan_at(engine.work_plans@, p, session_id) ==> if is_in_order(
                held(engine.work_plans@[p]),
            ) {
                outcome is Ok && outcome->Ok_0 == Some(engine.work_plans@[p])
            } else {
                outcome is Err
            },
{
    plan_is_found(engine.work_plans@, session_id);
    let theirs = |plan: Arc<StoredWorkPlan>| held(plan).session_id@ == session_id;
    leader_is_found(engine.work_plans@, is_plan_of(session_id), theirs);
    let plan = first(engine.work_plans@, is_plan_of(session_id));
    if plan is Some {
        assert(theirs(engine.work_plans@[plan->0]));
        plans_are_read_in_order(held(engine.work_plans@[plan->0]));
    }
}

/// Plans without items are taken out, and no others.
pub proof fn plans_with_items_stay(before: StorageEngine, after: StorageEngine)
    requires
        empty_plans_removed(before, after),
    ensures
        after == (StorageEngine { work_plans: after.work_plans, ..before }),
        after.work_plans@ == before.work_plans@.filter(
            |plan: Arc<StoredWorkPlan>| held(plan).items@.len() != 0,
        ),
{
    kept_is_filtered(
        before.work_plans@,
        has_items(),
        |plan: Arc<StoredWorkPlan>| held(plan).items@.len() != 0,
    );
}

/// Plans are listed by session, each as it is kept, and none but those that are in order.
pub proof fn plans_are_listed_by_session(
    plans: Seq<Arc<StoredWorkPlan>>,
    order: Seq<usize>,
    list: Seq<Arc<StoredWorkPlan>>,
)
    requires
        plans_listed(plans, order, Ok(list)),
    ensures
        list.len() == plans.len(),
        forall|k: int|
            0 <= k < list.len() ==> plans.contains(#[trigger] list[k]) && is_in_order(
                held(list[k]),
            ),
        forall|k: int, l: int|
            0 <= k < l < list.len() ==> !text_before(
                held(#[trigger] list[l]).session_id@,
                held(#[trigger] list[k]).session_id@,
            ),
{
    let keys = plan_keys(plans);
    assert forall|k: int| 0 <= k < list.len() implies plans.contains(#[trigger] list[k])
        && is_in_order(held(list[k])) by {
        assert(list[k] == plans[order[k] as int]);
        plans_are_read_in_order(held(list[k]));
    }
    assert forall|k: int, l: int| 0 <= k < l < list.len() implies !text_before(
        held(#[trigger] list[l]).session_id@,
        held(#[trigger] list[k]).session_id@,
    ) by {
        assert(!key_before(keys[order[l] as int], keys[order[k] as int]));
    }
}

} // verus!
