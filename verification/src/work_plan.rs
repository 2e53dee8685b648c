//! Work plans: one per session, changed by compare-and-set, each operation taking effect once.

use std::sync::Arc;
use vstd::prelude::*;

use crate::engine::{is_session, StorageEngine};
use crate::error::{
    conflict, conflicting, corrupt, invalid_data, list_outcome, malformed, outcome_of, Refusal,
    StorageResult,
};
use crate::message::{distinct, held, share, texts_are_distinct};
use crate::numbers::{to_i64, STORED_MAX};
use crate::order::{is_order, ordered, SortKey};
use crate::rows::{SessionLifecycle, SessionRow};
use crate::table::{
    first, first_after_update, first_is, first_is_found, keep, kept, kept_rows, position, selected,
};
use crate::text::{blank, is_blank, texts};

verus! {

/// How far an item of a work plan has come.
#[derive(Clone, Copy, Debug, PartialEq, Eq, Structural)]
pub enum TodoItemStatus {
    Pending,
    InProgress,
    Completed,
}

/// An item of a work plan.
#[derive(Debug, PartialEq, Eq)]
pub struct WorkPlanItem {
    pub id: String,
    pub text: String,
    pub status: TodoItemStatus,
}

/// The work plan of a session. Plans do not change; a session gets another one.
#[derive(Debug, PartialEq, Eq)]
pub struct StoredWorkPlan {
    pub session_id: String,
    pub revision: u64,
    pub objective: String,
    pub items: Vec<WorkPlanItem>,
    pub last_operation_id: String,
    pub updated_at_ms: i64,
}

/// A plan that replaces the one at an expected revision; zero stands for no plan.
#[derive(Debug)]
pub struct WorkPlanMutation {
    pub session_id: String,
    pub expected_revision: u64,
    pub operation_id: String,
    pub objective: String,
    pub items: Vec<WorkPlanItem>,
    pub updated_at_ms: i64,
}

/// The plan that an operation gave a session, and whether that ended the plan.
#[derive(Debug, PartialEq, Eq)]
pub struct WorkPlanMutationResult {
    pub plan: Arc<StoredWorkPlan>,
    pub cleared: bool,
}

/// A request to drop the plan at an expected revision.
#[derive(Debug)]
pub struct WorkPlanClear {
    pub session_id: String,
    pub expected_revision: u64,
}

/// The identifiers of items.
pub open spec fn item_ids(items: Seq<WorkPlanItem>) -> Seq<Seq<char>> {
    items.map_values(|item: WorkPlanItem| item.id@)
}

/// Why a stored plan cannot be used.
pub open spec fn plan_refusal(plan: StoredWorkPlan) -> Option<Refusal> {
    if blank(plan.last_operation_id@) {
        Some(corrupt("stored work plan operation id is invalid"@))
    } else if !distinct(item_ids(plan.items@)) {
        Some(corrupt("stored work plan item ids are duplicated"@))
    } else if plan.revision == 0 {
        Some(corrupt("stored work plan revision is invalid"@))
    } else {
        None
    }
}

/// No work is left: every item is completed, which an empty list is too.
pub open spec fn finished(items: Seq<WorkPlanItem>) -> bool {
    forall|i: int| 0 <= i < items.len() ==> (#[trigger] items[i]).status is Completed
}

/// The condition of being the plan of a session.
pub open spec fn is_plan_of(session_id: Seq<char>) -> spec_fn(Arc<StoredWorkPlan>) -> bool {
    |plan: Arc<StoredWorkPlan>| plan.session_id@ == session_id
}

/// The condition of being the plan of another session.
pub open spec fn is_plan_of_other(session_id: Seq<char>) -> spec_fn(Arc<StoredWorkPlan>) -> bool {
    |plan: Arc<StoredWorkPlan>| plan.session_id@ != session_id
}

/// The condition of being the plan that an operation completed.
pub open spec fn is_receipt(session_id: Seq<char>, operation_id: Seq<char>) -> spec_fn(
    Arc<StoredWorkPlan>,
) -> bool {
    |plan: Arc<StoredWorkPlan>|
        plan.session_id@ == session_id && plan.last_operation_id@ == operation_id
}

/// The condition of having items.
pub open spec fn has_items() -> spec_fn(Arc<StoredWorkPlan>) -> bool {
    |plan: Arc<StoredWorkPlan>| plan.items@.len() > 0
}

/// The tables that work plans live in.
pub struct PlanTables {
    pub sessions: Seq<SessionRow>,
    pub plans: Seq<Arc<StoredWorkPlan>>,
    pub receipts: Seq<Arc<StoredWorkPlan>>,
}

/// The tables of an engine that work plans live in.
pub open spec fn plan_tables(engine: StorageEngine) -> PlanTables {
    PlanTables {
        sessions: engine.sessions@,
        plans: engine.work_plans@,
        receipts: engine.work_plan_receipts@,
    }
}

/// Why a session cannot have its plan changed.
pub open spec fn session_refusal(sessions: Seq<SessionRow>, session_id: Seq<char>) -> Option<
    Refusal,
> {
    match first(sessions, is_session(session_id)) {
        None => Some(conflicting("work plan session does not exist"@)),
        Some(i) => if sessions[i].lifecycle is Active {
            None
        } else {
            Some(conflicting("work plan session is archived"@))
        },
    }
}

/// What a mutation comes to.
pub enum PlanOutcome {
    /// Nothing happens, for a reason.
    Refused(Refusal),
    /// The operation took effect before, and gave this plan.
    Replayed(Arc<StoredWorkPlan>, bool),
    /// The session gets a plan at this revision; `true` where the plan is finished.
    Stored(u64, bool),
}

/// What a stored plan answers to the operation that made it.
pub open spec fn replayed(plan: Arc<StoredWorkPlan>, cleared: bool) -> PlanOutcome {
    match plan_refusal(*plan) {
        Some(error) => PlanOutcome::Refused(error),
        None => PlanOutcome::Replayed(plan, cleared),
    }
}

/// The plan behind an expected revision.
pub open spec fn next_plan(expected_revision: u64, items: Seq<WorkPlanItem>) -> PlanOutcome {
    if expected_revision == u64::MAX {
        PlanOutcome::Refused(conflicting("work plan revision exhausted"@))
    } else if expected_revision + 1 > STORED_MAX {
        PlanOutcome::Refused(malformed("work plan revision exceeds storage range"@))
    } else {
        PlanOutcome::Stored((expected_revision + 1) as u64, finished(items))
    }
}

/// What a mutation comes to.
pub open spec fn plan_outcome(
    tables: PlanTables,
    session_id: Seq<char>,
    operation_id: Seq<char>,
    expected_revision: u64,
    items: Seq<WorkPlanItem>,
) -> PlanOutcome {
    if session_refusal(tables.sessions, session_id) is Some {
        PlanOutcome::Refused(session_refusal(tables.sessions, session_id)->0)
    } else {
        match first(tables.receipts, is_receipt(session_id, operation_id)) {
            Some(i) => replayed(tables.receipts[i], true),
            None => match first(tables.plans, is_plan_of(session_id)) {
                Some(i) => {
                    let current = tables.plans[i];
                    if current.last_operation_id@ == operation_id {
                        replayed(current, false)
                    } else if current.revision == 0 {
                        PlanOutcome::Refused(corrupt("stored work plan revision is invalid"@))
                    } else if current.revision != expected_revision {
                        PlanOutcome::Refused(conflicting("work plan revision changed"@))
                    } else {
                        next_plan(expected_revision, items)
                    }
                },
                None => if expected_revision != 0 {
                    PlanOutcome::Refused(conflicting("work plan revision changed"@))
                } else {
                    next_plan(expected_revision, items)
                },
            },
        }
    }
}

/// The tables with a plan stored. A finished plan leaves nothing but a receipt.
pub open spec fn with_plan(tables: PlanTables, plan: Arc<StoredWorkPlan>, cleared: bool) -> PlanTables {
    if cleared {
        PlanTables {
            plans: kept(tables.plans, is_plan_of_other(plan.session_id@)),
            receipts: tables.receipts.push(plan),
            ..tables
        }
    } else {
        PlanTables {
            plans: match first(tables.plans, is_plan_of(plan.session_id@)) {
                Some(i) => tables.plans.update(i, plan),
                None => tables.plans.push(plan),
            },
            ..tables
        }
    }
}

/// The plan that a mutation makes.
pub open spec fn is_mutated(plan: StoredWorkPlan, mutation: WorkPlanMutation, revision: u64) -> bool {
    plan == (StoredWorkPlan {
        session_id: mutation.session_id,
        revision,
        objective: mutation.objective,
        items: mutation.items,
        last_operation_id: mutation.operation_id,
        updated_at_ms: mutation.updated_at_ms,
    })
}

fn ids_of_items(items: &Vec<WorkPlanItem>) -> (ids: Vec<String>)
    ensures
        texts(ids@) == item_ids(items@),
{
    let mut ids: Vec<String> = Vec::new();
    let mut i: usize = 0;
    while i < items.len()
        invariant
            i <= items@.len(),
            texts(ids@) =~= item_ids(items@).take(i as int),
        decreases items@.len() - i,
    {
        let ghost before = ids@;
        ids.push(items[i].id.clone());
        proof {
            assert(texts(ids@) =~= texts(before).push(items@[i as int].id@));
        }
        i += 1;
    }
    proof {
        assert(item_ids(items@).take(items@.len() as int) =~= item_ids(items@));
    }
    ids
}

/// Whether a stored plan can be used.
pub fn check_plan(plan: &StoredWorkPlan) -> (result: StorageResult<()>)
    ensures
        match plan_refusal(*plan) {
            Some(error) => result is Err && result->Err_0@ == error,
            None => result is Ok,
        },
{
    if is_blank(plan.last_operation_id.as_str()) {
        return Err(invalid_data("stored work plan operation id is invalid"));
    }
    if !texts_are_distinct(&ids_of_items(&plan.items)) {
        return Err(invalid_data("stored work plan item ids are duplicated"));
    }
    if plan.revision == 0 {
        return Err(invalid_data("stored work plan revision is invalid"));
    }
    Ok(())
}

/// A plan from its columns, with its revision as stored.
pub fn parse_work_plan(
    session_id: String,
    revision: i64,
    objective: String,
    items: Vec<WorkPlanItem>,
    last_operation_id: String,
    updated_at_ms: i64,
) -> (result: StorageResult<StoredWorkPlan>)
    ensures
        ({
            let plan = StoredWorkPlan {
                session_id,
                revision: if revision > 0 {
                    revision as u64
                } else {
                    0
                },
                objective,
                items,
                last_operation_id,
                updated_at_ms,
            };
            match plan_refusal(plan) {
                Some(error) => result is Err && result->Err_0@ == error,
                None => result is Ok && result->Ok_0 == plan,
            }
        }),
{
    let plan = StoredWorkPlan {
        session_id,
        revision: if revision > 0 {
            revision as u64
        } else {
            0
        },
        objective,
        items,
        last_operation_id,
        updated_at_ms,
    };
    match check_plan(&plan) {
        Ok(_) => Ok(plan),
        Err(error) => Err(error),
    }
}

fn is_finished(items: &Vec<WorkPlanItem>) -> (result: bool)
    ensures
        result == finished(items@),
{
    let mut i: usize = 0;
    while i < items.len()
        invariant
            i <= items@.len(),
            forall|k: int| 0 <= k < i ==> (#[trigger] items@[k]).status is Completed,
        decreases items@.len() - i,
    {
        if !matches!(items[i].status, TodoItemStatus::Completed) {
            assert(!(items@[i as int].status is Completed));
            return false;
        }
        i += 1;
    }
    true
}

/// The plans of one session, or of all.
pub open spec fn plan_in_scope(scope: Option<String>) -> spec_fn(Arc<StoredWorkPlan>) -> bool {
    |plan: Arc<StoredWorkPlan>| scope is None || plan.session_id@ == scope->0@
}

/// What plans are ordered by.
pub open spec fn plan_keys(plans: Seq<Arc<StoredWorkPlan>>) -> Seq<SortKey> {
    plans.map_values(|plan: Arc<StoredWorkPlan>| SortKey { rank: 0, time: 0, id: plan.session_id })
}

/// Plans in the order of their sessions: all of them, or why the first unusable one cannot be used.
pub open spec fn plans_listed(
    plans: Seq<Arc<StoredWorkPlan>>,
    order: Seq<usize>,
    outcome: Result<Seq<Arc<StoredWorkPlan>>, Refusal>,
) -> bool {
    &&& is_order(plan_keys(plans), order)
    &&& match outcome {
        Ok(list) => {
            &&& list.len() == plans.len()
            &&& forall|k: int|
                0 <= k < list.len() ==> #[trigger] list[k] == plans[order[k] as int]
                    && plan_refusal(*list[k]) is None
        },
        Err(error) => exists|k: int|
            0 <= k < order.len() && #[trigger] plan_refusal(*plans[order[k] as int]) == Some(error)
                && forall|j: int|
                0 <= j < k ==> #[trigger] plan_refusal(*plans[order[j] as int]) is None,
    }
}

/// A plan was written or cleared away, once, or refused.
pub open spec fn plan_mutated(
    before: StorageEngine,
    after: StorageEngine,
    mutation: WorkPlanMutation,
    outcome: Result<WorkPlanMutationResult, Refusal>,
) -> bool {
    match plan_outcome(
        plan_tables(before),
        mutation.session_id@,
        mutation.operation_id@,
        mutation.expected_revision,
        mutation.items@,
    ) {
        PlanOutcome::Refused(error) => {
            after == before && outcome == Err::<WorkPlanMutationResult, _>(error)
        },
        PlanOutcome::Replayed(plan, cleared) => {
            &&& after == before
            &&& outcome is Ok
            &&& outcome->Ok_0.plan == plan
            &&& outcome->Ok_0.cleared == cleared
        },
        PlanOutcome::Stored(revision, cleared) => {
            &&& outcome is Ok
            &&& is_mutated(*outcome->Ok_0.plan, mutation, revision)
            &&& outcome->Ok_0.cleared == cleared
            &&& after == (StorageEngine {
                work_plans: after.work_plans,
                work_plan_receipts: after.work_plan_receipts,
                ..before
            })
            &&& plan_tables(after) == with_plan(plan_tables(before), outcome->Ok_0.plan, cleared)
        },
    }
}

/// The plan of a session was cleared away, or refused to be.
pub open spec fn plan_cleared(
    before: StorageEngine,
    after: StorageEngine,
    clear: WorkPlanClear,
    outcome: Result<(), Refusal>,
) -> bool {
    match clear_refusal(plan_tables(before), clear) {
        Some(error) => after == before && outcome == Err::<(), _>(error),
        None => {
            &&& outcome is Ok
            &&& after == (StorageEngine { work_plans: after.work_plans, ..before })
            &&& after.work_plans@ == kept(before.work_plans@, is_plan_of_other(clear.session_id@))
        },
    }
}

/// The plan of a session was read.
pub open spec fn plan_loaded(
    engine: StorageEngine,
    session_id: Seq<char>,
    outcome: Result<Option<Arc<StoredWorkPlan>>, Refusal>,
) -> bool {
    match first(engine.work_plans@, is_plan_of(session_id)) {
        None => outcome is Ok && outcome->Ok_0 is None,
        Some(i) => match plan_refusal(*engine.work_plans@[i]) {
            Some(error) => outcome == Err::<Option<Arc<StoredWorkPlan>>, _>(error),
            None => outcome is Ok && outcome->Ok_0 == Some(engine.work_plans@[i]),
        },
    }
}

/// Plans without items were taken out.
pub open spec fn empty_plans_removed(before: StorageEngine, after: StorageEngine) -> bool {
    &&& after == (StorageEngine { work_plans: after.work_plans, ..before })
    &&& after.work_plans@ == kept(before.work_plans@, has_items())
}

impl StorageEngine {
    /// The plan of a session.
    pub fn load_work_plan(&self, session_id: &String) -> (result: StorageResult<
        Option<Arc<StoredWorkPlan>>,
    >)
        ensures
            plan_loaded(*self, session_id@, outcome_of(result)),
            match first(self.work_plans@, is_plan_of(session_id@)) {
                None => result is Ok && result->Ok_0 is None,
                Some(i) => match plan_refusal(*self.work_plans@[i]) {
                    Some(error) => result is Err && result->Err_0@ == error,
                    None => result is Ok && result->Ok_0 == Some(self.work_plans@[i]),
                },
            },
    {
        match self.plan_place(session_id) {
            None => Ok(None),
            Some(place) => match check_plan(&self.work_plans[place]) {
                Ok(_) => Ok(Some(share(&self.work_plans[place]))),
                Err(error) => Err(error),
            },
        }
    }

    /// The plans of one session, or of all, in the order of their sessions.
    pub fn load_all_work_plans(&self, scope: &Option<String>) -> (result: StorageResult<
        Vec<Arc<StoredWorkPlan>>,
    >)
        ensures
            exists|order: Seq<usize>| #[trigger]
                plans_listed(
                    kept(self.work_plans@, plan_in_scope(*scope)),
                    order,
                    list_outcome(result),
                ),
    {
        let plans = selected(
            &self.work_plans,
            Ghost(plan_in_scope(*scope)),
            |plan: &Arc<StoredWorkPlan>| -> (inside: bool)
                ensures
                    inside == plan_in_scope(*scope)(*plan)
                {
                    match scope {
                        None => true,
                        Some(session_id) => plan.session_id == *session_id,
                    }
                },
        );
        let mut keys: Vec<SortKey> = Vec::new();
        let mut i: usize = 0;
        while i < plans.len()
            invariant
                i <= plans@.len(),
                keys@ =~= plan_keys(plans@).take(i as int),
            decreases plans@.len() - i,
        {
            keys.push(SortKey { rank: 0, time: 0, id: plans[i].session_id.clone() });
            i += 1;
        }
        proof {
            assert(plan_keys(plans@).take(plans@.len() as int) =~= plan_keys(plans@));
        }
        let order = ordered(&keys);
        let mut list: Vec<Arc<StoredWorkPlan>> = Vec::new();
        let mut k: usize = 0;
        while k < order.len()
            invariant
                k <= order@.len(),
                list@.len() == k,
                plans@ == kept(self.work_plans@, plan_in_scope(*scope)),
                is_order(plan_keys(plans@), order@),
                forall|j: int|
                    0 <= j < k ==> #[trigger] list@[j] == plans@[order@[j] as int]
                        && plan_refusal(*list@[j]) is None,
            decreases order@.len() - k,
        {
            let plan = share(&plans[order[k]]);
            match check_plan(&plan) {
                Ok(_) => {
                    list.push(plan);
                },
                Err(error) => {
                    proof {
                        let outcome = Err::<Seq<Arc<StoredWorkPlan>>, Refusal>(error@);
                        assert(plan_refusal(held(plans@[order@[k as int] as int])) == Some(
                            error@,
                        ));
                        assert forall|j: int| 0 <= j < k implies #[trigger] plan_refusal(
                            *plans@[order@[j] as int],
                        ) is None by {
                            assert(list@[j] == plans@[order@[j] as int]);
                        }
                        assert(plans_listed(plans@, order@, outcome));
                    }
                    return Err(error);
                },
            }
            k += 1;
        }
        proof {
            let outcome = Ok::<Seq<Arc<StoredWorkPlan>>, Refusal>(list@);
            assert(plans_listed(plans@, order@, outcome));
        }
        Ok(list)
    }

    fn plan_place(&self, session_id: &String) -> (place: Option<usize>)
        ensures
            match place {
                Some(i) => i < self.work_plans@.len() && first(
                    self.work_plans@,
                    is_plan_of(session_id@),
                ) == Some(i as int),
                None => first(self.work_plans@, is_plan_of(session_id@)) is None,
            },
    {
        position(
            &self.work_plans,
            Ghost(is_plan_of(session_id@)),
            |plan: &Arc<StoredWorkPlan>| -> (found: bool)
                ensures
                    found == (plan.session_id@ == session_id@)
                { plan.session_id == *session_id },
        )
    }

    fn check_plan_session(&self, session_id: &String) -> (result: StorageResult<()>)
        ensures
            match session_refusal(self.sessions@, session_id@) {
                Some(error) => result is Err && result->Err_0@ == error,
                None => result is Ok,
            },
    {
        match self.session_place(session_id) {
            None => Err(conflict("work plan session does not exist")),
            Some(place) => if matches!(self.sessions[place].lifecycle, SessionLifecycle::Active) {
                Ok(())
            } else {
                Err(conflict("work plan session is archived"))
            },
        }
    }

    /// Gives a session another plan, if it still has the one that the caller expects. An operation
    /// that took effect before is answered as it was then; a plan without work left ends there.
    pub fn mutate_work_plan(&mut self, mutation: WorkPlanMutation) -> (result: StorageResult<
        WorkPlanMutationResult,
    >)
        ensures
            plan_mutated(*old(self), *final(self), mutation, outcome_of(result)),
            match plan_outcome(
                plan_tables(*old(self)),
                mutation.session_id@,
                mutation.operation_id@,
                mutation.expected_revision,
                mutation.items@,
            ) {
                PlanOutcome::Refused(error) => {
                    &&& result is Err && result->Err_0@ == error
                    &&& *final(self) == *old(self)
                },
                PlanOutcome::Replayed(plan, cleared) => {
                    &&& result is Ok
                    &&& result->Ok_0.plan == plan
                    &&& result->Ok_0.cleared == cleared
                    &&& *final(self) == *old(self)
                },
                PlanOutcome::Stored(revision, cleared) => {
                    &&& result is Ok
                    &&& is_mutated(*result->Ok_0.plan, mutation, revision)
                    &&& result->Ok_0.cleared == cleared
                    &&& *final(self) == (StorageEngine {
                        work_plans: final(self).work_plans,
                        work_plan_receipts: final(self).work_plan_receipts,
                        ..*old(self)
                    })
                    &&& plan_tables(*final(self)) == with_plan(
                        plan_tables(*old(self)),
                        result->Ok_0.plan,
                        cleared,
                    )
                },
            },
    {
        match self.check_plan_session(&mutation.session_id) {
            Ok(_) => {},
            Err(error) => {
                return Err(error);
            },
        }
        let session_id = &mutation.session_id;
        let operation_id = &mutation.operation_id;
        match position(
            &self.work_plan_receipts,
            Ghost(is_receipt(session_id@, operation_id@)),
            |plan: &Arc<StoredWorkPlan>| -> (found: bool)
                ensures
                    found == (plan.session_id@ == session_id@ && plan.last_operation_id@
                        == operation_id@)
                { plan.session_id == *session_id && plan.last_operation_id == *operation_id },
        ) {
            Some(place) => {
                let plan = share(&self.work_plan_receipts[place]);
                match check_plan(&plan) {
                    Ok(_) => {
                        return Ok(WorkPlanMutationResult { plan, cleared: true });
                    },
                    Err(error) => {
                        return Err(error);
                    },
                }
            },
            None => {},
        }
        let current = self.plan_place(session_id);
        match current {
            Some(place) => {
                let plan = share(&self.work_plans[place]);
                if plan.last_operation_id == *operation_id {
                    match check_plan(&plan) {
                        Ok(_) => {
                            return Ok(WorkPlanMutationResult { plan, cleared: false });
                        },
                        Err(error) => {
                            return Err(error);
                        },
                    }
                }
                if plan.revision == 0 {
                    return Err(invalid_data("stored work plan revision is invalid"));
                }
                if plan.revision != mutation.expected_revision {
                    return Err(conflict("work plan revision changed"));
                }
            },
            None => {
                if mutation.expected_revision != 0 {
                    return Err(conflict("work plan revision changed"));
                }
            },
        }
        if mutation.expected_revision == u64::MAX {
            return Err(conflict("work plan revision exhausted"));
        }
        let revision: u64 = mutation.expected_revision + 1;
        match to_i64(revision, "work plan revision exceeds storage range") {
            Ok(_) => {},
            Err(error) => {
                return Err(error);
            },
        }
        let cleared = is_finished(&mutation.items);
        let plan = Arc::new(
            StoredWorkPlan {
                session_id: mutation.session_id,
                revision,
                objective: mutation.objective,
                items: mutation.items,
                last_operation_id: mutation.operation_id,
                updated_at_ms: mutation.updated_at_ms,
            },
        );
        if cleared {
            self.work_plan_receipts.push(share(&plan));
            self.drop_plan(&plan.session_id);
        } else {
            match current {
                Some(place) => {
                    self.work_plans[place] = share(&plan);
                },
                None => self.work_plans.push(share(&plan)),
            }
        }
        Ok(WorkPlanMutationResult { plan, cleared })
    }

    fn drop_plan(&mut self, session_id: &String)
        ensures
            *final(self) == (StorageEngine { work_plans: final(self).work_plans, ..*old(self) }),
            final(self).work_plans@ == kept(old(self).work_plans@, is_plan_of_other(session_id@)),
    {
        keep(
            &mut self.work_plans,
            Ghost(is_plan_of_other(session_id@)),
            |plan: &Arc<StoredWorkPlan>| -> (other: bool)
                ensures
                    other == (plan.session_id@ != session_id@)
                { !(plan.session_id == *session_id) },
        );
    }

    /// Drops the plan of a session, if it is the one that the caller expects. Where there is none
    /// and none is expected, nothing is left to do.
    pub fn clear_work_plan(&mut self, clear: WorkPlanClear) -> (result: StorageResult<()>)
        ensures
            plan_cleared(*old(self), *final(self), clear, outcome_of(result)),
            match clear_refusal(plan_tables(*old(self)), clear) {
                Some(error) => {
                    &&& result is Err && result->Err_0@ == error
                    &&& *final(self) == *old(self)
                },
                None => {
                    &&& result is Ok
                    &&& *final(self) == (StorageEngine {
                        work_plans: final(self).work_plans,
                        ..*old(self)
                    })
                    &&& final(self).work_plans@ == kept(
                        old(self).work_plans@,
                        is_plan_of_other(clear.session_id@),
                    )
                },
            },
    {
        match self.check_plan_session(&clear.session_id) {
            Ok(_) => {},
            Err(error) => {
                return Err(error);
            },
        }
        match self.plan_place(&clear.session_id) {
            Some(place) => {
                let revision: u64 = self.work_plans[place].revision;
                if revision == 0 {
                    return Err(invalid_data("stored work plan revision is invalid"));
                }
                if revision != clear.expected_revision {
                    return Err(conflict("work plan revision changed"));
                }
            },
            None => {
                if clear.expected_revision != 0 {
                    return Err(conflict("work plan revision changed"));
                }
            },
        }
        self.drop_plan(&clear.session_id);
        Ok(())
    }

    /// Drops the plans without items, which an earlier release kept.
    pub fn remove_empty_work_plans(&mut self)
        ensures
            empty_plans_removed(*old(self), *final(self)),
            *final(self) == (StorageEngine { work_plans: final(self).work_plans, ..*old(self) }),
            final(self).work_plans@ == kept(old(self).work_plans@, has_items()),
    {
        keep(
            &mut self.work_plans,
            Ghost(has_items()),
            |plan: &Arc<StoredWorkPlan>| -> (filled: bool)
                ensures
                    filled == (plan.items@.len() > 0)
                { plan.items.len() > 0 },
        );
    }
}

/// Why the plan of a session cannot be dropped.
pub open spec fn clear_refusal(tables: PlanTables, clear: WorkPlanClear) -> Option<Refusal> {
    if session_refusal(tables.sessions, clear.session_id@) is Some {
        session_refusal(tables.sessions, clear.session_id@)
    } else {
        match first(tables.plans, is_plan_of(clear.session_id@)) {
            Some(i) => if tables.plans[i].revision == 0 {
                Some(corrupt("stored work plan revision is invalid"@))
            } else if tables.plans[i].revision != clear.expected_revision {
                Some(conflicting("work plan revision changed"@))
            } else {
                None
            },
            None => if clear.expected_revision != 0 {
                Some(conflicting("work plan revision changed"@))
            } else {
                None
            },
        }
    }
}

proof fn stored_plan_is_found(tables: PlanTables, plan: Arc<StoredWorkPlan>)
    ensures
        ({
            let after = with_plan(tables, plan, false);
            let place = first(after.plans, is_plan_of(plan.session_id@));
            place is Some && after.plans[place->0] == plan
        }),
{
    let condition = is_plan_of(plan.session_id@);
    let after = with_plan(tables, plan, false);
    first_is_found(tables.plans, condition);
    match first(tables.plans, condition) {
        Some(i) => {
            first_after_update(tables.plans, condition, i, plan);
        },
        None => {
            assert forall|j: int| 0 <= j < tables.plans.len() implies !condition(
                #[trigger] after.plans[j],
            ) by {
                assert(after.plans[j] == tables.plans[j]);
            }
            first_is(after.plans, condition, tables.plans.len() as int);
        },
    }
}

/// An operation that took effect is answered the same when it is repeated, whatever the repetition
/// carries.
pub proof fn repeated_mutation_is_answered_alike(
    tables: PlanTables,
    plan: Arc<StoredWorkPlan>,
    cleared: bool,
    expected_revision: u64,
    items: Seq<WorkPlanItem>,
    again_revision: u64,
    again_items: Seq<WorkPlanItem>,
)
    requires
        plan_outcome(
            tables,
            plan.session_id@,
            plan.last_operation_id@,
            expected_revision,
            items,
        ) == PlanOutcome::Stored(plan.revision, cleared),
        plan_refusal(*plan) is None,
    ensures
        plan_outcome(
            with_plan(tables, plan, cleared),
            plan.session_id@,
            plan.last_operation_id@,
            again_revision,
            again_items,
        ) == PlanOutcome::Replayed(plan, cleared),
{
    let after = with_plan(tables, plan, cleared);
    let receipt = is_receipt(plan.session_id@, plan.last_operation_id@);
    first_is_found(tables.receipts, receipt);
    if cleared {
        assert forall|j: int| 0 <= j < tables.receipts.len() implies !receipt(
            #[trigger] after.receipts[j],
        ) by {
            assert(after.receipts[j] == tables.receipts[j]);
        }
        first_is(after.receipts, receipt, tables.receipts.len() as int);
    } else {
        stored_plan_is_found(tables, plan);
    }
}

/// Of two operations that expect the same revision, only the first takes effect; unless it finished
/// the plan at once, so that again none is there.
pub proof fn stale_mutation_is_refused(
    tables: PlanTables,
    plan: Arc<StoredWorkPlan>,
    expected_revision: u64,
    items: Seq<WorkPlanItem>,
    other_operation: Seq<char>,
    other_items: Seq<WorkPlanItem>,
)
    requires
        plan_outcome(
            tables,
            plan.session_id@,
            plan.last_operation_id@,
            expected_revision,
            items,
        ) == PlanOutcome::Stored(plan.revision, false),
        other_operation != plan.last_operation_id@,
        first(tables.receipts, is_receipt(plan.session_id@, other_operation)) is None,
    ensures
        plan_outcome(
            with_plan(tables, plan, false),
            plan.session_id@,
            other_operation,
            expected_revision,
            other_items,
        ) == PlanOutcome::Refused(conflicting("work plan revision changed"@)),
{
    stored_plan_is_found(tables, plan);
}

/// A stored plan is one revision ahead of the plan it replaces.
pub proof fn revisions_advance_by_one(
    tables: PlanTables,
    session_id: Seq<char>,
    operation_id: Seq<char>,
    expected_revision: u64,
    items: Seq<WorkPlanItem>,
)
    requires
        plan_outcome(tables, session_id, operation_id, expected_revision, items) is Stored,
    ensures
        ({
            let revision = plan_outcome(
                tables,
                session_id,
                operation_id,
                expected_revision,
                items,
            )->Stored_0;
            match first(tables.plans, is_plan_of(session_id)) {
                Some(i) => revision == tables.plans[i].revision + 1,
                None => revision == 1,
            }
        }),
{
}

/// A session whose plan was finished has none, and can start over at the first revision.
pub proof fn finished_plan_is_gone(tables: PlanTables, plan: Arc<StoredWorkPlan>)
    ensures
        first(
            with_plan(tables, plan, true).plans,
            is_plan_of(plan.session_id@),
        ) is None,
{
    let rows = kept(tables.plans, is_plan_of_other(plan.session_id@));
    kept_rows(tables.plans, is_plan_of_other(plan.session_id@));
    first_is_found(rows, is_plan_of(plan.session_id@));
    assert forall|j: int| 0 <= j < rows.len() implies !is_plan_of(plan.session_id@)(
        #[trigger] rows[j],
    ) by {
        assert(is_plan_of_other(plan.session_id@)(rows[j]));
    }
}

/// A plan belongs to its session alone: the plans of other sessions stay as they are.
pub proof fn plans_of_other_sessions_stay(
    tables: PlanTables,
    plan: Arc<StoredWorkPlan>,
    cleared: bool,
    other: Arc<StoredWorkPlan>,
)
    requires
        tables.plans.contains(other),
        other.session_id@ != plan.session_id@,
    ensures
        with_plan(tables, plan, cleared).plans.contains(other),
{
    let after = with_plan(tables, plan, cleared).plans;
    if cleared {
        kept_rows(tables.plans, is_plan_of_other(plan.session_id@));
        assert(is_plan_of_other(plan.session_id@)(other));
    } else {
        let k = tables.plans.index_of(other);
        first_is_found(tables.plans, is_plan_of(plan.session_id@));
        assert(after[k] == other);
    }
}

} // verus!
